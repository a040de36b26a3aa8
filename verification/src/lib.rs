use vstd::prelude::*;

pub mod capability;
pub mod block_laws;
pub mod text;
pub mod fidelity;
pub mod help;
pub mod content;
pub mod stage_view;
pub mod paths;
pub mod pack;
pub mod pack_checks;
pub mod matrix;
pub mod health;
pub mod page;
pub mod panels;
pub mod creation;
pub mod location;
pub mod digest;
pub mod scratch;
pub mod registry;
pub mod config;
pub mod gate;
pub mod reporting;
pub mod bench;
pub mod session;
pub mod authoring;
pub mod scaffold;
pub mod journal;
pub mod diagnosis;
pub mod test_run;
pub mod console;
pub mod project;

verus! {
} // verus!
