//! How a failed check is recorded for the learner: which explanation leads,
//! what was expected and what happened, bounded so that a runaway output
//! cannot swamp the record.
use vstd::prelude::*;

use crate::health::{bounded, bounded_text};
use crate::text::{chars_of, push_decimal, push_str, string_of};

verus! {

/// A check's own explanation of what it tests.
#[derive(Debug, Clone)]
pub struct TestDiagnosis {
    pub priority: u32,
    pub headline: String,
    pub contract: String,
}

/// One thing the runner observed about a failing check.
#[derive(Debug, Clone)]
pub struct TestDiagnostic {
    pub kind: &'static str,
    pub title: String,
    pub summary: String,
    pub expected: Option<String>,
    pub actual: Option<String>,
}

/// A file of the fixture a check ran against.
#[derive(Debug, Clone)]
pub struct FixtureEntry {
    pub path: String,
}

/// The fixture a check ran against.
#[derive(Debug, Clone)]
pub struct FixtureSnapshot {
    pub entries: Vec<FixtureEntry>,
}

/// How a check was invoked.
#[derive(Debug, Clone)]
pub struct TestInput {
    pub command: Vec<String>,
    pub stdin: Option<String>,
    pub env: Vec<(String, String)>,
    pub timeout_ms: u64,
    pub working_directory: String,
    pub fixture_name: Option<String>,
    pub fixture: Option<FixtureSnapshot>,
}

/// The outcome of one check.
#[derive(Debug, Clone)]
pub struct TestResult {
    pub name: String,
    pub passed: bool,
    pub diagnosis: Option<TestDiagnosis>,
    pub failures: Vec<String>,
    pub diagnostics: Vec<TestDiagnostic>,
    pub expectations: Vec<String>,
    pub actual_exit_code: Option<i32>,
    pub duration_ms: Option<u64>,
    pub stdout: String,
    pub stderr: String,
    pub report_stdout: Option<String>,
    pub report_stderr: Option<String>,
    pub input: Option<TestInput>,
    pub kept_temp_dir: Option<String>,
}

/// The explanation the workbench leads with for a failing check.
#[derive(Debug, Clone)]
pub struct FailureDiagnosis {
    pub priority: u32,
    pub kind: String,
    pub headline: String,
    pub summary: String,
    pub expected: Option<String>,
    pub actual: Option<String>,
    pub contract: String,
    pub fixture: Option<String>,
    pub fixture_entries: Vec<String>,
    pub command: Vec<String>,
}

/// The first failing check of a run, as the project state keeps it.
#[derive(Debug, Clone)]
pub struct LastFailedTest {
    pub name: String,
    pub failures: Vec<String>,
    pub diagnosis: Option<FailureDiagnosis>,
}

pub open spec fn opt_view(o: Option<String>) -> Option<Seq<char>> {
    match o {
        Some(s) => Some(s@),
        None => None,
    }
}

pub open spec fn strings_view(v: Seq<String>) -> Seq<Seq<char>> {
    v.map_values(|s: String| s@)
}

/// The kind of the first diagnostic, `behavior` where there is none.
pub open spec fn failure_kind(r: TestResult) -> Seq<char> {
    if r.diagnostics@.len() > 0 {
        r.diagnostics@[0].kind@
    } else {
        "behavior"@
    }
}

pub open spec fn runner_failure(r: TestResult) -> bool {
    failure_kind(r) == "runner"@
}

/// A runner failure leads; otherwise the check's own priority, or a default
/// by kind.
pub open spec fn failure_priority(r: TestResult) -> u32 {
    if runner_failure(r) {
        1
    } else {
        match r.diagnosis {
            Some(d) => d.priority,
            None => if failure_kind(r) == "exit-code"@ {
                50
            } else {
                1000
            },
        }
    }
}

pub open spec fn failure_headline(r: TestResult) -> Seq<char> {
    if runner_failure(r) {
        if r.diagnostics@.len() > 0 {
            r.diagnostics@[0].title@
        } else {
            "The check command did not finish"@
        }
    } else {
        match r.diagnosis {
            Some(d) => d.headline@,
            None => if r.diagnostics@.len() > 0 {
                r.diagnostics@[0].title@
            } else {
                "The observed behavior contradicts the contract"@
            },
        }
    }
}

pub open spec fn failure_summary(r: TestResult) -> Seq<char> {
    if r.diagnostics@.len() > 0 {
        r.diagnostics@[0].summary@
    } else if r.failures@.len() > 0 {
        r.failures@[0]@
    } else {
        Seq::empty()
    }
}

/// The most detail a diagnosis field carries, in bytes.
pub open spec fn detail_limit() -> nat {
    8192
}

pub open spec fn failure_expected(r: TestResult) -> Option<Seq<char>> {
    if runner_failure(r) {
        match r.input {
            Some(i) => Some("The command finishes successfully within "@ + crate::text::decimal(i.timeout_ms as nat)
                + " ms"@),
            None => None,
        }
    } else if r.diagnostics@.len() > 0 {
        match r.diagnostics@[0].expected {
            Some(e) => Some(bounded(e@, detail_limit())),
            None => None,
        }
    } else {
        None
    }
}

pub open spec fn failure_actual(r: TestResult) -> Option<Seq<char>> {
    if runner_failure(r) {
        Some(bounded(r.diagnostics@[0].summary@, detail_limit()))
    } else {
        let from_diagnostic = if r.diagnostics@.len() > 0 {
            opt_view(r.diagnostics@[0].actual)
        } else {
            None
        };
        let value = match from_diagnostic {
            Some(a) => Some(a),
            None => if r.stdout@.len() > 0 {
                Some(r.stdout@)
            } else {
                None
            },
        };
        match value {
            Some(v) => if v.len() == 0 {
                Some("(no standard output)"@)
            } else {
                Some(bounded(v, detail_limit()))
            },
            None => None,
        }
    }
}

pub open spec fn failure_contract(r: TestResult) -> Seq<char> {
    if runner_failure(r) {
        "The command must finish within the configured timeout so its behavior can be checked."@
    } else {
        match r.diagnosis {
            Some(d) => d.contract@,
            None => if r.expectations@.len() > 0 {
                r.expectations@[0]@
            } else {
                Seq::empty()
            },
        }
    }
}

/// The paths of the fixture's first eighty entries.
pub open spec fn fixture_paths(r: TestResult) -> Seq<Seq<char>> {
    match r.input {
        Some(i) => match i.fixture {
            Some(f) => {
                let n = if f.entries@.len() < 80 {
                    f.entries@.len() as int
                } else {
                    80
                };
                f.entries@.take(n).map_values(|e: FixtureEntry| e.path@)
            },
            None => Seq::empty(),
        },
        None => Seq::empty(),
    }
}

/// The most detail one recorded failure carries, in bytes.
pub open spec fn failure_limit() -> nat {
    4096
}

fn copy_opt(o: &Option<String>) -> (r: Option<String>)
    ensures
        opt_view(r) == opt_view(*o),
{
    match o {
        Some(s) => Some(crate::text::copy_string(s)),
        None => None,
    }
}

fn copy_strings(v: &Vec<String>) -> (r: Vec<String>)
    ensures
        strings_view(r@) == strings_view(v@),
{
    let mut out: Vec<String> = Vec::new();
    let mut i: usize = 0;
    while i < v.len()
        invariant
            i <= v@.len(),
            out@.len() == i,
            forall|j: int| 0 <= j < i ==> #[trigger] out@[j]@ == v@[j]@,
        decreases v@.len() - i,
    {
        out.push(crate::text::copy_string(&v[i]));
        i = i + 1;
    }
    assert(strings_view(out@) =~= strings_view(v@));
    out
}

fn expected_of(result: &TestResult, runner: bool) -> (r: Option<String>)
    requires
        runner == runner_failure(*result),
    ensures
        opt_view(r) == failure_expected(*result),
{
    if runner {
        match &result.input {
            Some(input) => {
                let mut m: Vec<char> = Vec::new();
                push_str(&mut m, "The command finishes successfully within ");
                push_decimal(&mut m, input.timeout_ms);
                push_str(&mut m, " ms");
                Some(string_of(m.as_slice()))
            },
            None => None,
        }
    } else if result.diagnostics.len() > 0 {
        match &result.diagnostics[0].expected {
            Some(e) => Some(bounded_text(e.as_str(), 8192)),
            None => None,
        }
    } else {
        None
    }
}

fn actual_of(result: &TestResult, runner: bool) -> (r: Option<String>)
    requires
        runner == runner_failure(*result),
        runner ==> result.diagnostics@.len() > 0,
    ensures
        opt_view(r) == failure_actual(*result),
{
    if runner {
        return Some(bounded_text(result.diagnostics[0].summary.as_str(), 8192));
    }
    let from_diagnostic: Option<&String> = if result.diagnostics.len() > 0 {
        match &result.diagnostics[0].actual {
            Some(a) => Some(a),
            None => None,
        }
    } else {
        None
    };
    let value: Option<&String> = match from_diagnostic {
        Some(a) => Some(a),
        None => {
            let out = chars_of(result.stdout.as_str());
            if out.len() > 0 {
                Some(&result.stdout)
            } else {
                None
            }
        },
    };
    match value {
        Some(v) => {
            let c = chars_of(v.as_str());
            if c.len() == 0 {
                Some(String::from_str("(no standard output)"))
            } else {
                Some(bounded_text(v.as_str(), 8192))
            }
        },
        None => None,
    }
}

fn fixture_entries_of(result: &TestResult) -> (r: Vec<String>)
    ensures
        strings_view(r@) == fixture_paths(*result),
{
    let mut out: Vec<String> = Vec::new();
    match &result.input {
        Some(input) => match &input.fixture {
            Some(f) => {
                let n: usize = if f.entries.len() < 80 {
                    f.entries.len()
                } else {
                    80
                };
                let mut i: usize = 0;
                while i < n
                    invariant
                        i <= n <= f.entries@.len(),
                        out@.len() == i,
                        forall|j: int| 0 <= j < i ==> #[trigger] out@[j]@ == f.entries@[j].path@,
                    decreases n - i,
                {
                    out.push(crate::text::copy_string(&f.entries[i].path));
                    i = i + 1;
                }
                assert(strings_view(out@) =~= f.entries@.take(n as int).map_values(|e: FixtureEntry| e.path@));
            },
            None => {
                assert(strings_view(out@) =~= Seq::<Seq<char>>::empty());
            },
        },
        None => {
            assert(strings_view(out@) =~= Seq::<Seq<char>>::empty());
        },
    }
    out
}

/// The record of a failing check: its name, each failure bounded, and the
/// diagnosis the workbench leads with.
pub open spec fn recorded(out: LastFailedTest, result: TestResult) -> bool {
    &&& out.name@ == result.name@
    &&& out.failures@.len() == result.failures@.len()
    &&& forall|i: int|
        0 <= i < out.failures@.len() ==> #[trigger] out.failures@[i]@ == bounded(result.failures@[i]@, failure_limit())
    &&& out.diagnosis matches Some(d) && {
        &&& d.priority == failure_priority(result)
        &&& d.kind@ == failure_kind(result)
        &&& d.headline@ == failure_headline(result)
        &&& d.summary@ == failure_summary(result)
        &&& opt_view(d.expected) == failure_expected(result)
        &&& opt_view(d.actual) == failure_actual(result)
        &&& d.contract@ == failure_contract(result)
        &&& opt_view(d.fixture) == match result.input {
            Some(i) => opt_view(i.fixture_name),
            None => None,
        }
        &&& strings_view(d.fixture_entries@) == fixture_paths(result)
        &&& strings_view(d.command@) == match result.input {
            Some(i) => strings_view(i.command@),
            None => Seq::empty(),
        }
    }
}

pub fn record_failed_test(result: &TestResult) -> (out: LastFailedTest)
    ensures
        recorded(out, *result),
{
    let kind: &str = if result.diagnostics.len() > 0 {
        result.diagnostics[0].kind
    } else {
        "behavior"
    };
    let kc = chars_of(kind);
    let runner = crate::text::chars_eq_str(kc.as_slice(), "runner");
    proof {
        reveal_strlit("behavior");
        reveal_strlit("runner");
        assert("behavior"@.len() != "runner"@.len());
    }
    let priority: u32 = if runner {
        1
    } else {
        match &result.diagnosis {
            Some(d) => d.priority,
            None => if crate::text::chars_eq_str(kc.as_slice(), "exit-code") {
                50
            } else {
                1000
            },
        }
    };
    let headline = if runner {
        if result.diagnostics.len() > 0 {
            crate::text::copy_string(&result.diagnostics[0].title)
        } else {
            String::from_str("The check command did not finish")
        }
    } else {
        match &result.diagnosis {
            Some(d) => crate::text::copy_string(&d.headline),
            None => if result.diagnostics.len() > 0 {
                crate::text::copy_string(&result.diagnostics[0].title)
            } else {
                String::from_str("The observed behavior contradicts the contract")
            },
        }
    };
    let summary = if result.diagnostics.len() > 0 {
        crate::text::copy_string(&result.diagnostics[0].summary)
    } else if result.failures.len() > 0 {
        crate::text::copy_string(&result.failures[0])
    } else {
        String::new()
    };
    let contract = if runner {
        String::from_str(
            "The command must finish within the configured timeout so its behavior can be checked.",
        )
    } else {
        match &result.diagnosis {
            Some(d) => crate::text::copy_string(&d.contract),
            None => if result.expectations.len() > 0 {
                crate::text::copy_string(&result.expectations[0])
            } else {
                String::new()
            },
        }
    };
    let (fixture, command): (Option<String>, Vec<String>) = match &result.input {
        Some(input) => (copy_opt(&input.fixture_name), copy_strings(&input.command)),
        None => {
            let v: Vec<String> = Vec::new();
            assert(strings_view(v@) =~= Seq::<Seq<char>>::empty());
            (None, v)
        },
    };
    let diagnosis = FailureDiagnosis {
        priority,
        kind: String::from_str(kind),
        headline,
        summary,
        expected: expected_of(result, runner),
        actual: actual_of(result, runner),
        contract,
        fixture,
        fixture_entries: fixture_entries_of(result),
        command,
    };
    let mut failures: Vec<String> = Vec::new();
    let mut i: usize = 0;
    while i < result.failures.len()
        invariant
            i <= result.failures@.len(),
            failures@.len() == i,
            forall|j: int| 0 <= j < i ==> #[trigger] failures@[j]@ == bounded(
                result.failures@[j]@,
                failure_limit(),
            ),
        decreases result.failures@.len() - i,
    {
        failures.push(bounded_text(result.failures[i].as_str(), 4096));
        i = i + 1;
    }
    LastFailedTest { name: crate::text::copy_string(&result.name), failures, diagnosis: Some(diagnosis) }
}

} // verus!
