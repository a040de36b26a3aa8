//! The state of a stage's performance gates, and the options that locate a
//! project.
use vstd::prelude::*;

verus! {

/// Where a stage's performance gates stand.
#[derive(Debug, Clone, Copy, PartialEq, Eq, Structural)]
pub enum GateStatus {
    Passed,
    NotYet,
    NotMeasured,
}

impl GateStatus {
    pub open spec fn label_spec(self) -> Seq<char> {
        match self {
            GateStatus::Passed => "passed"@,
            GateStatus::NotYet => "not_yet"@,
            GateStatus::NotMeasured => "not_measured"@,
        }
    }

    /// The status as it is written in records.
    pub fn label(self) -> (out: &'static str)
        ensures
            out@ == self.label_spec(),
    {
        match self {
            GateStatus::Passed => "passed",
            GateStatus::NotYet => "not_yet",
            GateStatus::NotMeasured => "not_measured",
        }
    }
}

/// Options every command takes: where the project is, and where packs are.
#[derive(Debug, Clone)]
pub struct GlobalOptions {
    pub project_dir: Option<String>,
    pub packs_dir: Option<String>,
}

} // verus!
