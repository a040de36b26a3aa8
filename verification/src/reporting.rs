//! The exported learning record: its formats and the rows it is made of.
use vstd::prelude::*;

use crate::text::{push_str, string_of};

verus! {

/// The formats the record can be exported in.
#[derive(Debug, Clone, Copy, PartialEq, Eq, Structural)]
pub enum ReportFormat {
    Markdown,
    Html,
    Json,
}

impl ReportFormat {
    pub open spec fn extension_spec(self) -> Seq<char> {
        match self {
            ReportFormat::Markdown => "md"@,
            ReportFormat::Html => "html"@,
            ReportFormat::Json => "json"@,
        }
    }

    pub fn extension(self) -> (out: &'static str)
        ensures
            out@ == self.extension_spec(),
    {
        match self {
            ReportFormat::Markdown => "md",
            ReportFormat::Html => "html",
            ReportFormat::Json => "json",
        }
    }

    /// The file the browser export writes into the project.
    pub fn export_file_name(self) -> (out: String)
        ensures
            out@ == "deltaforge-report."@ + self.extension_spec(),
    {
        let mut v: Vec<char> = Vec::new();
        push_str(&mut v, "deltaforge-report.");
        push_str(&mut v, self.extension());
        string_of(v.as_slice())
    }
}

/// One step of the journey as the record shows it.
#[derive(Debug, Clone)]
pub struct StepRecord {
    pub id: String,
    pub title: String,
    pub status: &'static str,
    pub completed_at: Option<String>,
    pub checks: Option<usize>,
    pub gate: Option<&'static str>,
}

/// A tagged commit in the project's history.
#[derive(Debug, Clone)]
pub struct SnapshotRecord {
    pub tag: String,
    pub commit: String,
    pub subject: String,
    pub date: String,
}

/// A prediction or reflection the learner wrote.
#[derive(Debug, Clone)]
pub struct NoteRecord {
    pub stage_id: String,
    pub kind: &'static str,
    pub text: String,
    pub recorded_at: String,
}

/// The machine the record was made on.
#[derive(Debug, Clone)]
pub struct Environment {
    pub os: String,
    pub arch: String,
}

} // verus!
