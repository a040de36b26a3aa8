//! What a finished test run leaves behind: each stage's failures in the
//! order the learner should fix them, which stages earned a completion
//! proof, the run's totals and how the attempt ended; and, for a benchmark
//! run, whether its records are saved and how that attempt ended.
use vstd::prelude::*;

use crate::diagnosis::{
    failure_priority, opt_view, record_failed_test, recorded, FailureDiagnosis, LastFailedTest, TestResult,
};
use crate::session::{failures_across, BenchmarkRunOutcome, RecordOutcome};

verus! {

/// One stage's results, as the runner reports them.
#[derive(Debug, Clone)]
pub struct StageTestSummary {
    pub stage_id: String,
    pub passed: usize,
    pub failed: usize,
    pub total_defined: usize,
    /// Whether the run covered the stage fully enough to count as passing it.
    pub completion_eligible: bool,
    /// Whether the stage's run succeeded, as the runner judged it.
    pub succeeded: bool,
    pub results: Vec<TestResult>,
}

/// How an attempt ended.
#[derive(Debug, Clone, Copy, PartialEq, Eq, Structural)]
pub enum AttemptStatus {
    Passed,
    Failed,
    Cancelled,
}

/// What is recorded of one stage: whether it earned a completion proof,
/// and, where the run is recorded, its failing checks first-to-fix first.
#[derive(Debug)]
pub struct StageRecord {
    pub stage_id: String,
    pub record_proof: bool,
    pub failures: Option<Vec<LastFailedTest>>,
}

/// What a finished run decides.
#[derive(Debug)]
pub struct TestRunDecision {
    pub stages: Vec<StageRecord>,
    pub passed: usize,
    pub failed: usize,
    pub successful: bool,
    /// How the attempt ended; `None` for a listing, which records no attempt.
    pub status: Option<AttemptStatus>,
}

/// Indices `order` of results with `x` placed after every index whose
/// priority is no greater than its own.
pub open spec fn insert_by_priority(order: Seq<int>, x: int, results: Seq<TestResult>) -> Seq<int>
    decreases order.len(),
{
    if order.len() == 0 {
        seq![x]
    } else if failure_priority(results[order.last()]) <= failure_priority(results[x]) {
        order.push(x)
    } else {
        insert_by_priority(order.drop_last(), x, results).push(order.last())
    }
}

/// The failing results among the first `n`, by priority, ties in the order
/// they ran: a stable sort.
pub open spec fn priority_order(results: Seq<TestResult>, n: int) -> Seq<int>
    decreases n,
{
    if n <= 0 {
        Seq::empty()
    } else if !results[n - 1].passed {
        insert_by_priority(priority_order(results, n - 1), n - 1, results)
    } else {
        priority_order(results, n - 1)
    }
}

/// A stage's failures, recorded from its failing results in priority order.
pub open spec fn failures_recorded(f: Seq<LastFailedTest>, results: Seq<TestResult>) -> bool {
    let order = priority_order(results, results.len() as int);
    &&& f.len() == order.len()
    &&& forall|j: int| 0 <= j < f.len() ==> recorded(#[trigger] f[j], results[order[j]])
}

pub open spec fn sum_passed(s: Seq<StageTestSummary>) -> nat
    decreases s.len(),
{
    if s.len() == 0 {
        0
    } else {
        sum_passed(s.drop_last()) + s.last().passed as nat
    }
}

pub open spec fn sum_failed(s: Seq<StageTestSummary>) -> nat
    decreases s.len(),
{
    if s.len() == 0 {
        0
    } else {
        sum_failed(s.drop_last()) + s.last().failed as nat
    }
}

proof fn lemma_sums_grow(s: Seq<StageTestSummary>, k: int)
    requires
        0 <= k <= s.len(),
    ensures
        sum_passed(s.take(k)) <= sum_passed(s),
        sum_failed(s.take(k)) <= sum_failed(s),
    decreases s.len() - k,
{
    if k < s.len() {
        lemma_sums_grow(s, k + 1);
        assert(s.take(k + 1).drop_last() =~= s.take(k));
    } else {
        assert(s.take(k) =~= s);
    }
}

fn record_stage_failures(results: &Vec<TestResult>) -> (out: Vec<LastFailedTest>)
    ensures
        failures_recorded(out@, results@),
{
    let mut out: Vec<LastFailedTest> = Vec::new();
    let mut keys: Vec<u32> = Vec::new();
    let ghost mut order: Seq<int> = Seq::empty();
    let mut i: usize = 0;
    while i < results.len()
        invariant
            i <= results@.len(),
            order == priority_order(results@, i as int),
            out@.len() == order.len(),
            keys@.len() == order.len(),
            forall|j: int| 0 <= j < order.len() ==> 0 <= #[trigger] order[j] < i,
            forall|j: int| 0 <= j < out@.len() ==> recorded(#[trigger] out@[j], results@[order[j]]),
            forall|j: int| 0 <= j < keys@.len() ==> #[trigger] keys@[j] == failure_priority(results@[order[j]]),
        decreases results@.len() - i,
    {
        if !results[i].passed {
            let rec = record_failed_test(&results[i]);
            let key: u32 = match &rec.diagnosis {
                Some(d) => d.priority,
                None => 1000,
            };
            assert(key == failure_priority(results@[i as int]));
            let ghost o = order;
            let mut k: usize = out.len();
            assert(o.take(o.len() as int) =~= o);
            while k > 0 && keys[k - 1] > key
                invariant
                    k <= o.len(),
                    keys@.len() == o.len(),
                    forall|j: int| 0 <= j < keys@.len() ==> #[trigger] keys@[j] == failure_priority(results@[o[j]]),
                    forall|j: int| 0 <= j < o.len() ==> 0 <= #[trigger] o[j] < i,
                    i < results@.len(),
                    key == failure_priority(results@[i as int]),
                    insert_by_priority(o, i as int, results@) == insert_by_priority(o.take(k as int), i as int, results@)
                        + o.skip(k as int),
                decreases k,
            {
                proof {
                    let t = o.take(k as int);
                    assert(t.drop_last() =~= o.take(k - 1));
                    assert(t.last() == o[k - 1]);
                    assert(o.skip(k - 1) =~= seq![o[k - 1]] + o.skip(k as int));
                    assert(insert_by_priority(t.drop_last(), i as int, results@).push(t.last()) + o.skip(k as int)
                        =~= insert_by_priority(t.drop_last(), i as int, results@) + o.skip(k - 1));
                }
                k = k - 1;
            }
            proof {
                let t = o.take(k as int);
                if k > 0 {
                    assert(t.last() == o[k - 1]);
                }
                assert(insert_by_priority(t, i as int, results@) == t.push(i as int));
                assert(!results@[i as int].passed);
                assert(priority_order(results@, i + 1) == insert_by_priority(o, i as int, results@));
            }
            let ghost before_out = out@;
            let ghost before_keys = keys@;
            out.insert(k, rec);
            keys.insert(k, key);
            proof {
                order = o.take(k as int).push(i as int) + o.skip(k as int);
                assert forall|j: int| 0 <= j < out@.len() implies recorded(#[trigger] out@[j], results@[order[j]]) by {
                    if j < k {
                        assert(out@[j] == before_out[j]);
                        assert(order[j] == o[j]);
                    } else if j == k {
                        assert(order[j] == i);
                    } else {
                        assert(out@[j] == before_out[j - 1]);
                        assert(order[j] == o[j - 1]);
                    }
                }
                assert forall|j: int| 0 <= j < keys@.len() implies #[trigger] keys@[j] == failure_priority(results@[order[j]]) by {
                    if j < k {
                        assert(keys@[j] == before_keys[j]);
                        assert(order[j] == o[j]);
                    } else if j == k {
                        assert(order[j] == i);
                    } else {
                        assert(keys@[j] == before_keys[j - 1]);
                        assert(order[j] == o[j - 1]);
                    }
                }
                assert forall|j: int| 0 <= j < order.len() implies 0 <= #[trigger] order[j] < i + 1 by {
                    if j < k {
                        assert(order[j] == o[j]);
                    } else if j > k {
                        assert(order[j] == o[j - 1]);
                    }
                }
            }
        } else {
            assert(priority_order(results@, i + 1) == priority_order(results@, i as int));
        }
        i = i + 1;
    }
    out
}

/// A run succeeds when nothing stopped it, some stage ran, and every stage
/// that ran succeeded; a run of no stages never does.
pub open spec fn run_succeeded(summaries: Seq<StageTestSummary>, execution_error: Option<String>) -> bool {
    execution_error is None && summaries.len() > 0 && forall|i: int|
        0 <= i < summaries.len() ==> (#[trigger] summaries[i]).succeeded
}

/// What a test run hands back: its job, each stage's results, whether it
/// completed the current stage, and the error that stopped it, if any.
#[derive(Debug)]
pub struct TestRunOutcome {
    pub job_id: String,
    pub summaries: Vec<StageTestSummary>,
    pub newly_completed_current: bool,
    pub execution_error: Option<String>,
}

impl TestRunOutcome {
    pub fn is_success(&self) -> (b: bool)
        ensures
            b == run_succeeded(self.summaries@, self.execution_error),
    {
        if self.execution_error.is_some() || self.summaries.len() == 0 {
            return false;
        }
        let mut i: usize = 0;
        while i < self.summaries.len()
            invariant
                i <= self.summaries@.len(),
                forall|j: int| 0 <= j < i ==> (#[trigger] self.summaries@[j]).succeeded,
            decreases self.summaries@.len() - i,
        {
            if !self.summaries[i].succeeded {
                return false;
            }
            i = i + 1;
        }
        true
    }

    /// The checks that passed, over every stage.
    pub fn passed(&self) -> (n: usize)
        requires
            sum_passed(self.summaries@) <= usize::MAX,
        ensures
            n == sum_passed(self.summaries@),
    {
        let mut n: usize = 0;
        let mut i: usize = 0;
        while i < self.summaries.len()
            invariant
                i <= self.summaries@.len(),
                sum_passed(self.summaries@) <= usize::MAX,
                n == sum_passed(self.summaries@.take(i as int)),
            decreases self.summaries@.len() - i,
        {
            proof {
                assert(self.summaries@.take(i + 1).drop_last() =~= self.summaries@.take(i as int));
                lemma_sums_grow(self.summaries@, i + 1);
            }
            n = n + self.summaries[i].passed;
            i = i + 1;
        }
        assert(self.summaries@.take(i as int) =~= self.summaries@);
        n
    }

    /// The checks that failed, over every stage.
    pub fn failed(&self) -> (n: usize)
        requires
            sum_failed(self.summaries@) <= usize::MAX,
        ensures
            n == sum_failed(self.summaries@),
    {
        let mut n: usize = 0;
        let mut i: usize = 0;
        while i < self.summaries.len()
            invariant
                i <= self.summaries@.len(),
                sum_failed(self.summaries@) <= usize::MAX,
                n == sum_failed(self.summaries@.take(i as int)),
            decreases self.summaries@.len() - i,
        {
            proof {
                assert(self.summaries@.take(i + 1).drop_last() =~= self.summaries@.take(i as int));
                lemma_sums_grow(self.summaries@, i + 1);
            }
            n = n + self.summaries[i].failed;
            i = i + 1;
        }
        assert(self.summaries@.take(i as int) =~= self.summaries@);
        n
    }
}

/// Whether an error message says the learner cancelled the run.
pub open spec fn cancelled_by(error: Option<String>) -> bool {
    error matches Some(e) && crate::text::contains(e@, "run cancelled"@)
}

/// Decide what a finished test run records. Totals sum the stages run.
/// Completion proofs are recorded for eligible stages unless the run only
/// listed tests; failures are recorded, first-to-fix first, only for a full
/// run (not a listing, not filtered). The attempt is cancelled when the
/// error says so, passed when there is no error, some stage ran and every
/// stage succeeded, and failed otherwise.
pub fn finish_test_run(
    stages: Vec<StageTestSummary>,
    execution_error: Option<String>,
    list_tests: bool,
    filtered: bool,
) -> (d: TestRunDecision)
    requires
        sum_passed(stages@) <= usize::MAX,
        sum_failed(stages@) <= usize::MAX,
    ensures
        d.passed == sum_passed(stages@),
        d.failed == sum_failed(stages@),
        d.successful == run_succeeded(stages@, execution_error),
        d.status == if list_tests {
            None
        } else if cancelled_by(execution_error) {
            Some(AttemptStatus::Cancelled)
        } else if d.successful {
            Some(AttemptStatus::Passed)
        } else {
            Some(AttemptStatus::Failed)
        },
        d.stages@.len() == stages@.len(),
        forall|i: int|
            0 <= i < stages@.len() ==> {
                let r = #[trigger] d.stages@[i];
                &&& r.stage_id@ == stages@[i].stage_id@
                &&& r.record_proof == (!list_tests && stages@[i].completion_eligible)
                &&& match r.failures {
                    Some(f) => !list_tests && !filtered && failures_recorded(f@, stages@[i].results@),
                    None => list_tests || filtered,
                }
            },
{
    let mut records: Vec<StageRecord> = Vec::new();
    let mut passed: usize = 0;
    let mut failed: usize = 0;
    let mut all_succeeded = true;
    let mut i: usize = 0;
    while i < stages.len()
        invariant
            i <= stages@.len(),
            sum_passed(stages@) <= usize::MAX,
            sum_failed(stages@) <= usize::MAX,
            passed == sum_passed(stages@.take(i as int)),
            failed == sum_failed(stages@.take(i as int)),
            all_succeeded == forall|j: int| 0 <= j < i ==> (#[trigger] stages@[j]).succeeded,
            records@.len() == i,
            forall|j: int|
                0 <= j < i ==> {
                    let r = #[trigger] records@[j];
                    &&& r.stage_id@ == stages@[j].stage_id@
                    &&& r.record_proof == (!list_tests && stages@[j].completion_eligible)
                    &&& match r.failures {
                        Some(f) => !list_tests && !filtered && failures_recorded(f@, stages@[j].results@),
                        None => list_tests || filtered,
                    }
                },
        decreases stages@.len() - i,
    {
        proof {
            assert(stages@.take(i + 1).drop_last() =~= stages@.take(i as int));
            lemma_sums_grow(stages@, i + 1);
        }
        let s = &stages[i];
        passed = passed + s.passed;
        failed = failed + s.failed;
        if !s.succeeded {
            all_succeeded = false;
        }
        let failures = if !list_tests && !filtered {
            Some(record_stage_failures(&s.results))
        } else {
            None
        };
        records.push(
            StageRecord {
                stage_id: crate::text::copy_string(&s.stage_id),
                record_proof: !list_tests && s.completion_eligible,
                failures,
            },
        );
        i = i + 1;
    }
    assert(stages@.take(i as int) =~= stages@);
    let successful = execution_error.is_none() && stages.len() > 0 && all_succeeded;
    let cancelled = match &execution_error {
        Some(e) => crate::text::contains_str(crate::text::chars_of(e.as_str()).as_slice(), "run cancelled"),
        None => false,
    };
    let status = if list_tests {
        None
    } else if cancelled {
        Some(AttemptStatus::Cancelled)
    } else if successful {
        Some(AttemptStatus::Passed)
    } else {
        Some(AttemptStatus::Failed)
    };
    TestRunDecision { stages: records, passed, failed, successful, status }
}

/// Whether every measured point of `records` produced a result.
pub open spec fn all_points_succeed(records: Seq<RecordOutcome>) -> bool {
    forall|i: int, j: int|
        0 <= i < records.len() && 0 <= j < records[i].points@.len() ==> (#[trigger] records[i].points@[j]).success
}

/// What a finished benchmark run decides: the outcome it reports, how the
/// attempt ended, and the attempt's passed and failed counts.
#[derive(Debug)]
pub struct BenchmarkRunDecision {
    pub outcome: BenchmarkRunOutcome,
    pub status: AttemptStatus,
    pub passed: usize,
    pub failed: usize,
}

/// Decide what a finished benchmark run records. Its records are saved to
/// history only when saving was asked, there is something to save and the
/// run was not stopped by an error. The attempt is cancelled when the error
/// says so, passed when the run succeeded and failed otherwise; it counts
/// the failed points, and as passed the records left over, never fewer
/// than none.
pub fn finish_benchmark_run(
    job_id: String,
    records: Vec<RecordOutcome>,
    execution_error: Option<String>,
    save: bool,
) -> (d: BenchmarkRunDecision)
    requires
        failures_across(records@) <= usize::MAX,
    ensures
        d.outcome.job_id@ == job_id@,
        d.outcome.records@ == records@,
        d.outcome.execution_error == execution_error,
        d.outcome.saved == (save && records@.len() > 0 && execution_error is None),
        d.status == if cancelled_by(execution_error) {
            AttemptStatus::Cancelled
        } else if execution_error is None && all_points_succeed(records@) {
            AttemptStatus::Passed
        } else {
            AttemptStatus::Failed
        },
        d.failed == failures_across(records@),
        d.passed == if failures_across(records@) < records@.len() {
            records@.len() - failures_across(records@)
        } else {
            0
        },
{
    let saved = save && records.len() > 0 && execution_error.is_none();
    let cancelled = match &execution_error {
        Some(e) => crate::text::contains_str(crate::text::chars_of(e.as_str()).as_slice(), "run cancelled"),
        None => false,
    };
    let outcome = BenchmarkRunOutcome { job_id, records, saved, execution_error };
    let successful = outcome.is_success();
    let failed = outcome.failed_points();
    let count = outcome.records.len();
    let passed = if failed < count {
        count - failed
    } else {
        0
    };
    let status = if cancelled {
        AttemptStatus::Cancelled
    } else if successful {
        AttemptStatus::Passed
    } else {
        AttemptStatus::Failed
    };
    BenchmarkRunDecision { outcome, status, passed, failed }
}

/// The latest attempt, as far as the failure the workbench leads with goes:
/// how it ended, the stages it covered, and the error that stopped it.
#[derive(Debug, Clone)]
pub struct AttemptSummary {
    pub status: AttemptStatus,
    pub stage_ids: Vec<String>,
    pub error: Option<String>,
}

/// The latest attempt covered `current`, failed, and was stopped by an
/// error: the build failed before any check ran.
pub open spec fn build_failed_on(a: AttemptSummary, current: Seq<char>) -> bool {
    &&& a.status == AttemptStatus::Failed
    &&& exists|k: int| 0 <= k < a.stage_ids@.len() && (#[trigger] a.stage_ids@[k])@ == current
    &&& a.error is Some
}

/// The failure shown for a project that did not build.
pub open spec fn build_failure(f: LastFailedTest, error: Seq<char>) -> bool {
    &&& f.name@ == "Build project"@
    &&& f.failures@.len() == 1
    &&& f.failures@[0]@ == error
    &&& f.diagnosis matches Some(d) && {
        &&& d.priority == 0
        &&& d.kind@ == "build"@
        &&& d.headline@ == "The project did not build"@
        &&& d.summary@ == "Checks could not start because the configured build command failed."@
        &&& opt_view(d.expected) == Some("A successful project build"@)
        &&& opt_view(d.actual) == Some(error)
        &&& d.contract@ == "The project must build before behavioral checks can run."@
        &&& d.fixture is None
        &&& d.fixture_entries@.len() == 0
        &&& d.command@.len() == 0
    }
}

/// The failure the workbench leads with for the current stage: a failed
/// build in the latest attempt on it, else the first failing check of its
/// latest run.
pub fn lead_failure(first_failed: Option<LastFailedTest>, last_attempt: Option<&AttemptSummary>, current: &str) -> (r: Option<LastFailedTest>)
    ensures
        (last_attempt matches Some(a) && build_failed_on(*a, current@)) ==> (r matches Some(f) && build_failure(
            f,
            last_attempt->0.error->0@,
        )),
        !(last_attempt matches Some(a) && build_failed_on(*a, current@)) ==> r == first_failed,
{
    let a = match last_attempt {
        Some(a) => a,
        None => return first_failed,
    };
    let error = match &a.error {
        Some(e) => e,
        None => return first_failed,
    };
    if a.status != AttemptStatus::Failed {
        return first_failed;
    }
    let mut covered = false;
    let mut k: usize = 0;
    while k < a.stage_ids.len()
        invariant
            k <= a.stage_ids@.len(),
            covered == exists|j: int| 0 <= j < k && (#[trigger] a.stage_ids@[j])@ == current@,
        decreases a.stage_ids@.len() - k,
    {
        let id = crate::text::chars_of(a.stage_ids[k].as_str());
        if crate::text::chars_eq_str(id.as_slice(), current) {
            covered = true;
        }
        k = k + 1;
    }
    if !covered {
        return first_failed;
    }
    let mut failures: Vec<String> = Vec::new();
    failures.push(crate::text::copy_string(error));
    let diagnosis = FailureDiagnosis {
        priority: 0,
        kind: String::from_str("build"),
        headline: String::from_str("The project did not build"),
        summary: String::from_str("Checks could not start because the configured build command failed."),
        expected: Some(String::from_str("A successful project build")),
        actual: Some(crate::text::copy_string(error)),
        contract: String::from_str("The project must build before behavioral checks can run."),
        fixture: None,
        fixture_entries: Vec::new(),
        command: Vec::new(),
    };
    Some(LastFailedTest { name: String::from_str("Build project"), failures, diagnosis: Some(diagnosis) })
}

/// With no diagnosis from the pack, a failing check whose first finding is
/// its exit code is fixed before one that merely behaved wrongly: recorded
/// at priority 50 against 1000, it comes first in the recorded order,
/// whichever of the two ran first.
pub proof fn law_exit_code_failures_are_fixed_first(
    behavior: TestResult,
    exit: TestResult,
    recorded_behavior: LastFailedTest,
    recorded_exit: LastFailedTest,
)
    requires
        !behavior.passed,
        !exit.passed,
        behavior.diagnosis is None,
        exit.diagnosis is None,
        behavior.diagnostics@.len() == 0,
        exit.diagnostics@.len() > 0,
        exit.diagnostics@[0].kind@ == "exit-code"@,
    ensures
        recorded(recorded_exit, exit) ==> (recorded_exit.diagnosis matches Some(d) && d.priority == 50),
        recorded(recorded_behavior, behavior) ==> (recorded_behavior.diagnosis matches Some(d) && d.priority == 1000),
        priority_order(seq![behavior, exit], 2) == seq![1int, 0int],
        priority_order(seq![exit, behavior], 2) == seq![0int, 1int],
{
    reveal_strlit("exit-code");
    reveal_strlit("runner");
    reveal_strlit("behavior");
    assert(crate::diagnosis::failure_kind(behavior) == "behavior"@);
    assert(crate::diagnosis::failure_kind(exit) == "exit-code"@);
    assert("behavior"@ != "runner"@) by {
        assert("behavior"@[0] != "runner"@[0]);
    }
    assert("exit-code"@ != "runner"@) by {
        assert("exit-code"@[0] != "runner"@[0]);
    }
    assert("behavior"@ != "exit-code"@) by {
        assert("behavior"@[0] != "exit-code"@[0]);
    }
    assert(failure_priority(exit) == 50);
    assert(failure_priority(behavior) == 1000);
    let a = seq![behavior, exit];
    assert(priority_order(a, 1) == insert_by_priority(priority_order(a, 0), 0, a));
    assert(priority_order(a, 1) =~= seq![0int]);
    assert(seq![0int].drop_last() =~= Seq::<int>::empty());
    assert(insert_by_priority(Seq::<int>::empty(), 1, a) == seq![1int]);
    assert(priority_order(a, 2) =~= seq![1int, 0int]);
    let b = seq![exit, behavior];
    assert(priority_order(b, 1) == insert_by_priority(priority_order(b, 0), 0, b));
    assert(priority_order(b, 1) =~= seq![0int]);
    assert(priority_order(b, 2) =~= seq![0int, 1int]);
}

/// The recorded priority of a failing check: a runner failure is fixed
/// first of all, at priority 1, whatever the pack says; otherwise the pack's
/// own diagnosis decides it.
pub proof fn law_recorded_priorities(result: TestResult, f: LastFailedTest)
    requires
        recorded(f, result),
    ensures
        crate::diagnosis::runner_failure(result) ==> (f.diagnosis matches Some(d) && d.priority == 1),
        !crate::diagnosis::runner_failure(result) && result.diagnosis is Some ==> (f.diagnosis matches Some(d)
            && d.priority == result.diagnosis->0.priority),
        result.diagnostics@.len() > 0 && result.diagnostics@[0].kind@ == "runner"@ ==> crate::diagnosis::runner_failure(
            result,
        ),
{
}

} // verus!
