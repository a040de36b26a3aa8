//! What the test command prints while a run goes on: the lines for each run
//! event, the listing of a run that only lists its checks, and the
//! way the command ends.
use vstd::prelude::*;

use crate::diagnosis::{strings_view, LastFailedTest, TestResult};
use crate::test_run::StageTestSummary;
use crate::text::{chars_of, decimal, join, lines, push_chars, push_str, string_of};

verus! {

/// The events of a run that the test command reports on.
#[derive(Debug, Clone)]
pub enum RunEvent {
    JobStarted { stage_ids: Vec<String> },
    BuildStarted { command: Vec<String> },
    BuildOutput { stream: String, text: String },
    TestPassed { result: TestResult },
    TestFailed { result: TestResult },
    RunCompleted { passed_tests: usize, failed_tests: usize },
    /// Any other event, which the command does not print.
    Other,
}

/// At most this many lines of a failing check's output are shown.
pub const STDOUT_EXCERPT_LINES: usize = 20;

/// A check's raw output streams, each under its name, where non-empty.
pub open spec fn stream_lines(r: TestResult) -> Seq<Seq<char>> {
    (if r.stdout@.len() > 0 {
        seq!["stdout:\n"@ + r.stdout@]
    } else {
        Seq::empty()
    }) + (if r.stderr@.len() > 0 {
        seq!["stderr:\n"@ + r.stderr@]
    } else {
        Seq::empty()
    })
}

/// Where a kept temporary directory is, if one was kept.
pub open spec fn kept_lines(r: TestResult) -> Seq<Seq<char>> {
    match r.kept_temp_dir {
        Some(p) => seq!["Kept temp dir: "@ + p@],
        None => Seq::empty(),
    }
}

/// The output shown for a failing check: the redacted form where there is
/// one, else the raw standard output.
pub open spec fn shown_stdout(r: TestResult) -> Seq<char> {
    match r.report_stdout {
        Some(s) => s@,
        None => r.stdout@,
    }
}

/// The first lines of the shown output, indented under a heading; nothing
/// where the output is empty.
pub open spec fn excerpt_lines(r: TestResult) -> Seq<Seq<char>> {
    let shown = shown_stdout(r);
    let all = lines(shown);
    let n = if all.len() < STDOUT_EXCERPT_LINES {
        all.len() as int
    } else {
        STDOUT_EXCERPT_LINES as int
    };
    if shown.len() == 0 {
        Seq::empty()
    } else {
        seq!["  actual stdout:"@] + all.take(n).map_values(|l: Seq<char>| "    "@ + l)
    }
}

/// Each failure message of a check, indented.
pub open spec fn failure_lines(r: TestResult) -> Seq<Seq<char>> {
    r.failures@.map_values(|f: String| "  "@ + f@)
}

/// The lines printed for `event`; `verbose` adds build output and raw
/// streams, and replaces the excerpt of a failing check's output.
pub open spec fn event_lines(event: RunEvent, verbose: bool) -> Seq<Seq<char>> {
    match event {
        RunEvent::JobStarted { stage_ids } => seq!["Checking "@ + join(strings_view(stage_ids@), ", "@), Seq::empty()],
        RunEvent::BuildStarted { command } => if verbose {
            seq!["Build: "@ + join(strings_view(command@), " "@)]
        } else {
            Seq::empty()
        },
        RunEvent::BuildOutput { stream, text } => if verbose {
            seq![stream@ + ":\n"@ + text@]
        } else {
            Seq::empty()
        },
        RunEvent::TestPassed { result } => seq!["PASS  "@ + result.name@] + (if verbose {
            stream_lines(result)
        } else {
            Seq::empty()
        }) + kept_lines(result),
        RunEvent::TestFailed { result } => seq!["FAIL  "@ + result.name@] + failure_lines(result) + (if verbose {
            stream_lines(result)
        } else {
            excerpt_lines(result)
        }) + kept_lines(result),
        RunEvent::RunCompleted { passed_tests, failed_tests } => seq![
            Seq::empty(),
            decimal(passed_tests as nat) + " passed, "@ + decimal(failed_tests as nat) + " failed"@,
        ],
        RunEvent::Other => Seq::empty(),
    }
}

/// Add one line to `out`.
fn push_line(out: &mut Vec<String>, line: &Vec<char>)
    ensures
        strings_view(final(out)@) == strings_view(old(out)@).push(line@),
{
    out.push(string_of(line.as_slice()));
    assert(strings_view(out@) =~= strings_view(old(out)@).push(line@));
}

/// `parts` joined by `sep`.
pub(crate) fn join_strings(parts: &Vec<String>, sep: &str) -> (out: Vec<char>)
    ensures
        out@ == join(strings_view(parts@), sep@),
{
    let mut pieces: Vec<Vec<char>> = Vec::new();
    let mut i: usize = 0;
    while i < parts.len()
        invariant
            i <= parts@.len(),
            crate::text::views(pieces@) == strings_view(parts@).take(i as int),
        decreases parts@.len() - i,
    {
        let ghost prev = pieces@;
        let piece = chars_of(parts[i].as_str());
        pieces.push(piece);
        assert(crate::text::views(pieces@) =~= crate::text::views(prev).push(piece@));
        i = i + 1;
        assert(strings_view(parts@).take(i as int) =~= strings_view(parts@).take(i - 1).push(parts@[i - 1]@));
    }
    assert(strings_view(parts@).take(i as int) =~= strings_view(parts@));
    let sep_chars = chars_of(sep);
    crate::text::join_chars(&pieces, sep_chars.as_slice())
}

/// A line made of a fixed label and a string.
fn labelled(label: &str, s: &str) -> (out: Vec<char>)
    ensures
        out@ == label@ + s@,
{
    let mut out: Vec<char> = Vec::new();
    push_str(&mut out, label);
    push_str(&mut out, s);
    out
}

fn push_streams(out: &mut Vec<String>, r: &TestResult)
    ensures
        strings_view(final(out)@) == strings_view(old(out)@) + stream_lines(*r),
{
    let ghost start = strings_view(out@);
    if r.stdout.as_str().unicode_len() > 0 {
        let line = labelled("stdout:\n", r.stdout.as_str());
        push_line(out, &line);
    }
    let ghost mid = strings_view(out@);
    if r.stderr.as_str().unicode_len() > 0 {
        let line = labelled("stderr:\n", r.stderr.as_str());
        push_line(out, &line);
    }
    assert(strings_view(out@) =~= start + stream_lines(*r));
}

fn push_kept(out: &mut Vec<String>, r: &TestResult)
    ensures
        strings_view(final(out)@) == strings_view(old(out)@) + kept_lines(*r),
{
    match &r.kept_temp_dir {
        Some(p) => {
            let line = labelled("Kept temp dir: ", p.as_str());
            push_line(out, &line);
        },
        None => {
            assert(strings_view(out@) =~= strings_view(out@) + kept_lines(*r));
        },
    }
}

fn push_failures(out: &mut Vec<String>, r: &TestResult)
    ensures
        strings_view(final(out)@) == strings_view(old(out)@) + failure_lines(*r),
{
    let ghost start = strings_view(out@);
    let mut i: usize = 0;
    while i < r.failures.len()
        invariant
            i <= r.failures@.len(),
            strings_view(out@) == start + failure_lines(*r).take(i as int),
        decreases r.failures@.len() - i,
    {
        let line = labelled("  ", r.failures[i].as_str());
        push_line(out, &line);
        i = i + 1;
        assert(failure_lines(*r).take(i as int) =~= failure_lines(*r).take(i - 1).push(line@));
        assert(strings_view(out@) =~= start + failure_lines(*r).take(i as int));
    }
    assert(failure_lines(*r).take(i as int) =~= failure_lines(*r));
}

fn push_excerpt(out: &mut Vec<String>, r: &TestResult)
    ensures
        strings_view(final(out)@) == strings_view(old(out)@) + excerpt_lines(*r),
{
    let ghost start = strings_view(out@);
    let shown = match &r.report_stdout {
        Some(s) => chars_of(s.as_str()),
        None => chars_of(r.stdout.as_str()),
    };
    if shown.len() == 0 {
        assert(strings_view(out@) =~= start + excerpt_lines(*r));
        return;
    }
    let heading = chars_of("  actual stdout:");
    push_line(out, &heading);
    let all = crate::text::lines_of(shown.as_slice());
    let n = if all.len() < STDOUT_EXCERPT_LINES {
        all.len()
    } else {
        STDOUT_EXCERPT_LINES
    };
    let ghost body = lines(shown@).take(n as int).map_values(|l: Seq<char>| "    "@ + l);
    let mut i: usize = 0;
    while i < n
        invariant
            i <= n <= all@.len(),
            crate::text::views(all@) == lines(shown@),
            body == lines(shown@).take(n as int).map_values(|l: Seq<char>| "    "@ + l),
            strings_view(out@) == start + seq!["  actual stdout:"@] + body.take(i as int),
        decreases n - i,
    {
        let mut line = chars_of("    ");
        push_chars(&mut line, all[i].as_slice());
        assert(all@[i as int]@ == crate::text::views(all@)[i as int]);
        push_line(out, &line);
        i = i + 1;
        assert(body.take(i as int) =~= body.take(i - 1).push(line@));
        assert(strings_view(out@) =~= start + seq!["  actual stdout:"@] + body.take(i as int));
    }
    assert(body.take(i as int) =~= body);
    assert(strings_view(out@) =~= start + excerpt_lines(*r));
}

/// The lines the test command prints for `event`, one string per line
/// printed (a string may itself hold line breaks, as a stream does).
pub fn event_output(event: &RunEvent, verbose: bool) -> (out: Vec<String>)
    ensures
        strings_view(out@) == event_lines(*event, verbose),
{
    let mut out: Vec<String> = Vec::new();
    match event {
        RunEvent::JobStarted { stage_ids } => {
            let mut line = chars_of("Checking ");
            let ids = join_strings(stage_ids, ", ");
            push_chars(&mut line, ids.as_slice());
            push_line(&mut out, &line);
            let empty: Vec<char> = Vec::new();
            push_line(&mut out, &empty);
        },
        RunEvent::BuildStarted { command } => {
            if verbose {
                let mut line = chars_of("Build: ");
                let words = join_strings(command, " ");
                push_chars(&mut line, words.as_slice());
                push_line(&mut out, &line);
            }
        },
        RunEvent::BuildOutput { stream, text } => {
            if verbose {
                let mut line = chars_of(stream.as_str());
                push_str(&mut line, ":\n");
                push_str(&mut line, text.as_str());
                push_line(&mut out, &line);
            }
        },
        RunEvent::TestPassed { result } => {
            let line = labelled("PASS  ", result.name.as_str());
            push_line(&mut out, &line);
            if verbose {
                push_streams(&mut out, result);
            }
            push_kept(&mut out, result);
        },
        RunEvent::TestFailed { result } => {
            let line = labelled("FAIL  ", result.name.as_str());
            push_line(&mut out, &line);
            push_failures(&mut out, result);
            if verbose {
                push_streams(&mut out, result);
            } else {
                push_excerpt(&mut out, result);
            }
            push_kept(&mut out, result);
        },
        RunEvent::RunCompleted { passed_tests, failed_tests } => {
            let empty: Vec<char> = Vec::new();
            push_line(&mut out, &empty);
            let mut line: Vec<char> = Vec::new();
            crate::text::push_decimal(&mut line, *passed_tests as u64);
            push_str(&mut line, " passed, ");
            crate::text::push_decimal(&mut line, *failed_tests as u64);
            push_str(&mut line, " failed");
            push_line(&mut out, &line);
        },
        RunEvent::Other => {},
    }
    assert(strings_view(out@) =~= event_lines(*event, verbose));
    out
}

/// What a listing prints: each stage's identifier, then its checks'
/// names, indented.
pub open spec fn listing_lines(summaries: Seq<StageTestSummary>) -> Seq<Seq<char>>
    decreases summaries.len(),
{
    if summaries.len() == 0 {
        Seq::empty()
    } else {
        let last = summaries.last();
        listing_lines(summaries.drop_last()) + seq![last.stage_id@ + ":"@] + last.results@.map_values(
            |r: TestResult| "  "@ + r.name@,
        )
    }
}

/// The lines a run that only lists its checks prints.
pub fn listing_output(summaries: &Vec<StageTestSummary>) -> (out: Vec<String>)
    ensures
        strings_view(out@) == listing_lines(summaries@),
{
    let mut out: Vec<String> = Vec::new();
    let mut i: usize = 0;
    while i < summaries.len()
        invariant
            i <= summaries@.len(),
            strings_view(out@) == listing_lines(summaries@.take(i as int)),
        decreases summaries@.len() - i,
    {
        let s = &summaries[i];
        let ghost before = strings_view(out@);
        let mut head = chars_of(s.stage_id.as_str());
        push_str(&mut head, ":");
        push_line(&mut out, &head);
        let ghost names = s.results@.map_values(|r: TestResult| "  "@ + r.name@);
        let mut j: usize = 0;
        while j < s.results.len()
            invariant
                j <= s.results@.len(),
                names == s.results@.map_values(|r: TestResult| "  "@ + r.name@),
                strings_view(out@) == before + seq![head@] + names.take(j as int),
            decreases s.results@.len() - j,
        {
            let line = labelled("  ", s.results[j].name.as_str());
            push_line(&mut out, &line);
            j = j + 1;
            assert(names.take(j as int) =~= names.take(j - 1).push(line@));
            assert(strings_view(out@) =~= before + seq![head@] + names.take(j as int));
        }
        assert(names.take(j as int) =~= names);
        assert(summaries@.take(i + 1).drop_last() =~= summaries@.take(i as int));
        i = i + 1;
    }
    assert(summaries@.take(i as int) =~= summaries@);
    out
}

/// How the test command ends: the error that stopped the run, else a
/// failure when checks failed, else success.
pub fn test_command_result(execution_error: Option<String>, tests_failed: bool) -> (r: Result<(), String>)
    ensures
        match execution_error {
            Some(e) => r matches Err(x) && x@ == e@,
            None => if tests_failed {
                r matches Err(x) && x@ == "tests failed"@
            } else {
                r is Ok
            },
        },
{
    match execution_error {
        Some(e) => Err(e),
        None => if tests_failed {
            Err(String::from_str("tests failed"))
        } else {
            Ok(())
        },
    }
}

/// Which advice a failure message calls for, by the first phrase it holds:
/// `0` compare the output, `1` check whitespace, `2` mind the exit code,
/// `3` check written files, `4` look for slow loops.
pub open spec fn advice_kind(failure: Seq<char>) -> Option<int> {
    if crate::text::contains(failure, "stdout to contain"@) {
        Some(0)
    } else if crate::text::contains(failure, "stdout exactly"@) {
        Some(1)
    } else if crate::text::contains(failure, "exit code"@) {
        Some(2)
    } else if crate::text::contains(failure, "file to exist"@) {
        Some(3)
    } else if crate::text::contains(failure, "timed out"@) {
        Some(4)
    } else {
        None
    }
}

/// The advice of each kind.
pub open spec fn advice_text(kind: int) -> Seq<char> {
    if kind == 0 {
        "Compare your program output with the expected lines and check ordering/path formatting."@
    } else if kind == 1 {
        "Check extra whitespace, trailing lines, and whether the command should print nothing."@
    } else if kind == 2 {
        "Make sure the command returns success for valid inputs and failure only for real errors."@
    } else if kind == 3 {
        "Verify the command writes output files under the provided temp/output path."@
    } else {
        "Look for infinite loops or unexpectedly slow scans before optimizing details."@
    }
}

/// Some failure of some test calls for advice of kind `kind`.
pub open spec fn advised(tests: Seq<LastFailedTest>, kind: int) -> bool {
    exists|i: int, j: int|
        0 <= i < tests.len() && 0 <= j < tests[i].failures@.len() && advice_kind(
            (#[trigger] tests[i].failures@[j])@,
        ) == Some(kind)
}

/// Advice called for, each once, in the order of its text: check,
/// compare, look, make, verify.
pub open spec fn advice_in_order(tests: Seq<LastFailedTest>) -> Seq<Seq<char>> {
    let pick = |k: int| if advised(tests, k) {
        seq![advice_text(k)]
    } else {
        Seq::empty()
    };
    pick(1) + pick(0) + pick(4) + pick(2) + pick(3)
}

/// What to try next after a run with `failed` failing checks.
pub open spec fn next_steps(failed: usize, tests: Seq<LastFailedTest>) -> Seq<Seq<char>> {
    if failed == 0 {
        seq!["Run `deltaforge next` to continue."@]
    } else if advice_in_order(tests).len() == 0 {
        seq!["Run `deltaforge test --verbose` to inspect stdout and stderr for the failing command."@]
    } else {
        advice_in_order(tests)
    }
}

fn advice_kind_of(failure: &str) -> (r: Option<usize>)
    ensures
        match advice_kind(failure@) {
            Some(k) => r matches Some(x) && x == k,
            None => r is None,
        },
{
    let f = chars_of(failure);
    if crate::text::contains_str(f.as_slice(), "stdout to contain") {
        Some(0)
    } else if crate::text::contains_str(f.as_slice(), "stdout exactly") {
        Some(1)
    } else if crate::text::contains_str(f.as_slice(), "exit code") {
        Some(2)
    } else if crate::text::contains_str(f.as_slice(), "file to exist") {
        Some(3)
    } else if crate::text::contains_str(f.as_slice(), "timed out") {
        Some(4)
    } else {
        None
    }
}

/// Some failure among the first `a` tests, or among the first `b` failures
/// of test `a`, calls for advice of kind `kind`.
pub open spec fn advised_before(tests: Seq<LastFailedTest>, a: int, b: int, kind: int) -> bool {
    exists|i: int, j: int|
        0 <= i <= a && i < tests.len() && 0 <= j < tests[i].failures@.len() && (i < a || j < b) && advice_kind(
            (#[trigger] tests[i].failures@[j])@,
        ) == Some(kind)
}

/// Which kinds of advice the failures of `tests` call for.
fn advice_flags(tests: &Vec<LastFailedTest>) -> (flags: Vec<bool>)
    ensures
        flags@.len() == 5,
        forall|k: int| 0 <= k < 5 ==> flags@[k] == advised(tests@, k),
{
    let mut flags: Vec<bool> = vec![false, false, false, false, false];
    let mut i: usize = 0;
    while i < tests.len()
        invariant
            i <= tests@.len(),
            flags@.len() == 5,
            forall|k: int| 0 <= k < 5 ==> flags@[k] == advised_before(tests@, i as int, 0, k),
        decreases tests@.len() - i,
    {
        let failures = &tests[i].failures;
        let mut j: usize = 0;
        while j < failures.len()
            invariant
                i < tests@.len(),
                failures@ == tests@[i as int].failures@,
                j <= failures@.len(),
                flags@.len() == 5,
                forall|k: int| 0 <= k < 5 ==> flags@[k] == advised_before(tests@, i as int, j as int, k),
            decreases failures@.len() - j,
        {
            let kind = advice_kind_of(failures[j].as_str());
            match kind {
                Some(k) => {
                    flags.set(k, true);
                },
                None => {},
            }
            proof {
                assert forall|k: int| 0 <= k < 5 implies flags@[k] == advised_before(tests@, i as int, j + 1, k) by {
                    if advice_kind(failures@[j as int]@) == Some(k) {
                        assert(tests@[i as int].failures@[j as int] == failures@[j as int]);
                    }
                    if advised_before(tests@, i as int, j + 1, k) && !advised_before(tests@, i as int, j as int, k) {
                        let (a, b) = choose|a: int, b: int|
                            0 <= a <= i && a < tests@.len() && 0 <= b < tests@[a].failures@.len() && (a < i || b < j + 1)
                                && advice_kind((#[trigger] tests@[a].failures@[b])@) == Some(k);
                        assert(a == i && b == j);
                    }
                }
            }
            j = j + 1;
        }
        proof {
            assert forall|k: int| 0 <= k < 5 implies flags@[k] == advised_before(tests@, i + 1, 0, k) by {
                if advised_before(tests@, i + 1, 0, k) {
                    let (a, b) = choose|a: int, b: int|
                        0 <= a <= i + 1 && a < tests@.len() && 0 <= b < tests@[a].failures@.len() && (a < i + 1 || b < 0)
                            && advice_kind((#[trigger] tests@[a].failures@[b])@) == Some(k);
                    assert(advised_before(tests@, i as int, j as int, k));
                }
                if advised_before(tests@, i as int, j as int, k) {
                    let (a, b) = choose|a: int, b: int|
                        0 <= a <= i && a < tests@.len() && 0 <= b < tests@[a].failures@.len() && (a < i || b < j)
                            && advice_kind((#[trigger] tests@[a].failures@[b])@) == Some(k);
                    assert(advised_before(tests@, i + 1, 0, k));
                }
            }
        }
        i = i + 1;
    }
    proof {
        assert forall|k: int| 0 <= k < 5 implies flags@[k] == advised(tests@, k) by {
            if advised(tests@, k) {
                let (a, b) = choose|a: int, b: int|
                    0 <= a < tests@.len() && 0 <= b < tests@[a].failures@.len() && advice_kind(
                        (#[trigger] tests@[a].failures@[b])@,
                    ) == Some(k);
                assert(advised_before(tests@, i as int, 0, k));
            }
            if advised_before(tests@, i as int, 0, k) {
                let (a, b) = choose|a: int, b: int|
                    0 <= a <= i && a < tests@.len() && 0 <= b < tests@[a].failures@.len() && (a < i || b < 0)
                        && advice_kind((#[trigger] tests@[a].failures@[b])@) == Some(k);
                assert(advised(tests@, k));
            }
        }
    }
    flags
}

fn push_advice(out: &mut Vec<String>, on: bool, k: usize)
    requires
        k < 5,
    ensures
        strings_view(final(out)@) == strings_view(old(out)@) + if on {
            seq![advice_text(k as int)]
        } else {
            Seq::empty()
        },
{
    if on {
        let text = if k == 0 {
            "Compare your program output with the expected lines and check ordering/path formatting."
        } else if k == 1 {
            "Check extra whitespace, trailing lines, and whether the command should print nothing."
        } else if k == 2 {
            "Make sure the command returns success for valid inputs and failure only for real errors."
        } else if k == 3 {
            "Verify the command writes output files under the provided temp/output path."
        } else {
            "Look for infinite loops or unexpectedly slow scans before optimizing details."
        };
        let line = chars_of(text);
        push_line(out, &line);
    } else {
        assert(strings_view(out@) =~= strings_view(out@) + Seq::<Seq<char>>::empty());
    }
}

/// What to try next after a run with `failed` failing checks, from the
/// failures it recorded: advice for the kinds of failure seen, each once
/// and in the order of its text, or a general pointer where none applies.
pub fn failure_suggestions(failed: usize, tests: &Vec<LastFailedTest>) -> (out: Vec<String>)
    ensures
        strings_view(out@) == next_steps(failed, tests@),
{
    let mut out: Vec<String> = Vec::new();
    if failed == 0 {
        let line = chars_of("Run `deltaforge next` to continue.");
        push_line(&mut out, &line);
        return out;
    }
    let flags = advice_flags(tests);
    push_advice(&mut out, flags[1], 1);
    push_advice(&mut out, flags[0], 0);
    push_advice(&mut out, flags[4], 4);
    push_advice(&mut out, flags[2], 2);
    push_advice(&mut out, flags[3], 3);
    assert(strings_view(out@) =~= advice_in_order(tests@));
    if out.len() == 0 {
        let line = chars_of("Run `deltaforge test --verbose` to inspect stdout and stderr for the failing command.");
        push_line(&mut out, &line);
    }
    out
}

/// The lines naming each failed check and its failures.
pub open spec fn failed_test_lines(tests: Seq<LastFailedTest>) -> Seq<Seq<char>>
    decreases tests.len(),
{
    if tests.len() == 0 {
        Seq::empty()
    } else {
        let t = tests.last();
        failed_test_lines(tests.drop_last()) + seq!["Failed: "@ + t.name@] + t.failures@.map_values(
            |f: String| "  - "@ + f@,
        )
    }
}

/// What explaining a stage's last run prints.
pub open spec fn explanation_lines(
    stage_id: Seq<char>,
    title: Seq<char>,
    passed: usize,
    failed: usize,
    timestamp: Seq<char>,
    tests: Seq<LastFailedTest>,
) -> Seq<Seq<char>> {
    seq![
        "Stage "@ + stage_id + ": "@ + title,
        "Last run: "@ + decimal(passed as nat) + " passed, "@ + decimal(failed as nat) + " failed at "@ + timestamp,
        Seq::empty(),
    ] + if failed == 0 {
        seq!["No failures recorded for this stage."@]
    } else {
        failed_test_lines(tests) + seq![Seq::empty(), "Suggested next steps:"@] + next_steps(failed, tests).map_values(
            |a: Seq<char>| "  - "@ + a,
        )
    }
}

/// The lines explaining a stage's last run: its totals, each failed check
/// with its failures, and what to try next.
pub fn explanation_output(
    stage_id: &str,
    title: &str,
    passed: usize,
    failed: usize,
    timestamp: &str,
    tests: &Vec<LastFailedTest>,
) -> (out: Vec<String>)
    ensures
        strings_view(out@) == explanation_lines(stage_id@, title@, passed, failed, timestamp@, tests@),
{
    let mut out: Vec<String> = Vec::new();
    let mut head = chars_of("Stage ");
    push_str(&mut head, stage_id);
    push_str(&mut head, ": ");
    push_str(&mut head, title);
    push_line(&mut out, &head);
    let mut totals = chars_of("Last run: ");
    crate::text::push_decimal(&mut totals, passed as u64);
    push_str(&mut totals, " passed, ");
    crate::text::push_decimal(&mut totals, failed as u64);
    push_str(&mut totals, " failed at ");
    push_str(&mut totals, timestamp);
    push_line(&mut out, &totals);
    let empty: Vec<char> = Vec::new();
    push_line(&mut out, &empty);
    let ghost start = strings_view(out@);
    if failed == 0 {
        let line = chars_of("No failures recorded for this stage.");
        push_line(&mut out, &line);
        return out;
    }
    let mut i: usize = 0;
    while i < tests.len()
        invariant
            i <= tests@.len(),
            strings_view(out@) == start + failed_test_lines(tests@.take(i as int)),
        decreases tests@.len() - i,
    {
        let t = &tests[i];
        let ghost before = strings_view(out@);
        let head = labelled("Failed: ", t.name.as_str());
        push_line(&mut out, &head);
        let ghost items = t.failures@.map_values(|f: String| "  - "@ + f@);
        let mut j: usize = 0;
        while j < t.failures.len()
            invariant
                j <= t.failures@.len(),
                items == t.failures@.map_values(|f: String| "  - "@ + f@),
                strings_view(out@) == before + seq![head@] + items.take(j as int),
            decreases t.failures@.len() - j,
        {
            let line = labelled("  - ", t.failures[j].as_str());
            push_line(&mut out, &line);
            j = j + 1;
            assert(items.take(j as int) =~= items.take(j - 1).push(line@));
            assert(strings_view(out@) =~= before + seq![head@] + items.take(j as int));
        }
        assert(items.take(j as int) =~= items);
        assert(tests@.take(i + 1).drop_last() =~= tests@.take(i as int));
        assert(tests@.take(i + 1).last() == *t);
        i = i + 1;
        assert(strings_view(out@) =~= start + failed_test_lines(tests@.take(i as int)));
    }
    assert(tests@.take(i as int) =~= tests@);
    push_line(&mut out, &empty);
    let heading = chars_of("Suggested next steps:");
    push_line(&mut out, &heading);
    let ghost mid = strings_view(out@);
    let advice = failure_suggestions(failed, tests);
    let ghost steps = next_steps(failed, tests@).map_values(|a: Seq<char>| "  - "@ + a);
    let mut k: usize = 0;
    while k < advice.len()
        invariant
            k <= advice@.len(),
            strings_view(advice@) == next_steps(failed, tests@),
            steps == next_steps(failed, tests@).map_values(|a: Seq<char>| "  - "@ + a),
            strings_view(out@) == mid + steps.take(k as int),
        decreases advice@.len() - k,
    {
        let line = labelled("  - ", advice[k].as_str());
        assert(advice@[k as int]@ == strings_view(advice@)[k as int]);
        push_line(&mut out, &line);
        k = k + 1;
        assert(steps.take(k as int) =~= steps.take(k - 1).push(line@));
        assert(strings_view(out@) =~= mid + steps.take(k as int));
    }
    assert(steps.take(k as int) =~= steps);
    assert(strings_view(out@) =~= explanation_lines(stage_id@, title@, passed, failed, timestamp@, tests@));
    out
}

/// Where a stage stands for the learner.
#[derive(Debug, Clone, Copy, PartialEq, Eq, Structural)]
pub enum StageStatus {
    Complete,
    NeedsRevalidation,
    Current,
    Locked,
}

/// A completed stage is complete, or needs its checks again when its proof
/// went stale; an incomplete one is current or locked.
pub fn stage_status(completed: bool, needs_revalidation: bool, is_current: bool) -> (st: StageStatus)
    ensures
        st == if completed {
            if needs_revalidation {
                StageStatus::NeedsRevalidation
            } else {
                StageStatus::Complete
            }
        } else if is_current {
            StageStatus::Current
        } else {
            StageStatus::Locked
        },
{
    if completed {
        if needs_revalidation {
            StageStatus::NeedsRevalidation
        } else {
            StageStatus::Complete
        }
    } else if is_current {
        StageStatus::Current
    } else {
        StageStatus::Locked
    }
}

impl StageStatus {
    /// The status as reports name it.
    pub fn label(self) -> (s: &'static str)
        ensures
            s@ == status_label(self),
    {
        match self {
            StageStatus::Complete => "complete",
            StageStatus::NeedsRevalidation => "needs_revalidation",
            StageStatus::Current => "current",
            StageStatus::Locked => "locked",
        }
    }
}

pub open spec fn status_label(st: StageStatus) -> Seq<char> {
    match st {
        StageStatus::Complete => "complete"@,
        StageStatus::NeedsRevalidation => "needs_revalidation"@,
        StageStatus::Current => "current"@,
        StageStatus::Locked => "locked"@,
    }
}

/// One stage as the status command lists it.
#[derive(Debug, Clone)]
pub struct StatusStage {
    pub id: String,
    pub title: String,
    pub status: StageStatus,
    pub performance: Option<String>,
}

pub open spec fn status_marker(st: StageStatus) -> Seq<char> {
    match st {
        StageStatus::Complete => "\u{2713}"@,
        StageStatus::NeedsRevalidation => "!"@,
        StageStatus::Current => "\u{2192}"@,
        StageStatus::Locked => "\u{25cb}"@,
    }
}

/// A stage's line: its marker, id and title, and its performance gate's
/// status with underscores read as spaces.
pub open spec fn status_line(st: StatusStage) -> Seq<char> {
    "  "@ + status_marker(st.status) + " "@ + st.id@ + " - "@ + st.title@ + match st.performance {
        Some(p) => " - performance: "@ + crate::text::replace(p@, "_"@, " "@),
        None => Seq::empty(),
    }
}

/// Some stage needs its checks again.
pub open spec fn any_stale(stages: Seq<StatusStage>) -> bool {
    exists|i: int| 0 <= i < stages.len() && (#[trigger] stages[i]).status == StageStatus::NeedsRevalidation
}

/// What the status command prints.
pub open spec fn status_lines(name: Seq<char>, language: Seq<char>, current: Seq<char>, stages: Seq<StatusStage>) -> Seq<Seq<char>> {
    seq!["Project: "@ + name, "Language: "@ + language, "Current stage: "@ + current, Seq::empty(), "Stages:"@]
        + stages.map_values(|st: StatusStage| status_line(st)) + if any_stale(stages) {
        seq![
            Seq::empty(),
            "Stages marked ! passed against an older version of this pack."@,
            "Run `deltaforge test --stage <id>` to revalidate them."@,
        ]
    } else {
        Seq::empty()
    }
}

pub fn status_output(name: &str, language: &str, current: &str, stages: &Vec<StatusStage>) -> (out: Vec<String>)
    ensures
        strings_view(out@) == status_lines(name@, language@, current@, stages@),
{
    let mut out: Vec<String> = Vec::new();
    let l1 = labelled("Project: ", name);
    push_line(&mut out, &l1);
    let l2 = labelled("Language: ", language);
    push_line(&mut out, &l2);
    let l3 = labelled("Current stage: ", current);
    push_line(&mut out, &l3);
    let empty: Vec<char> = Vec::new();
    push_line(&mut out, &empty);
    let l4 = chars_of("Stages:");
    push_line(&mut out, &l4);
    let ghost start = strings_view(out@);
    let ghost lines_all = stages@.map_values(|st: StatusStage| status_line(st));
    let mut stale = false;
    let mut i: usize = 0;
    while i < stages.len()
        invariant
            i <= stages@.len(),
            lines_all == stages@.map_values(|st: StatusStage| status_line(st)),
            strings_view(out@) == start + lines_all.take(i as int),
            stale == exists|j: int| 0 <= j < i && (#[trigger] stages@[j]).status == StageStatus::NeedsRevalidation,
        decreases stages@.len() - i,
    {
        let st = &stages[i];
        let marker = match st.status {
            StageStatus::Complete => "\u{2713}",
            StageStatus::NeedsRevalidation => "!",
            StageStatus::Current => "\u{2192}",
            StageStatus::Locked => "\u{25cb}",
        };
        if st.status == StageStatus::NeedsRevalidation {
            stale = true;
        }
        let mut line = chars_of("  ");
        push_str(&mut line, marker);
        push_str(&mut line, " ");
        push_str(&mut line, st.id.as_str());
        push_str(&mut line, " - ");
        push_str(&mut line, st.title.as_str());
        match &st.performance {
            Some(p) => {
                push_str(&mut line, " - performance: ");
                let pc = chars_of(p.as_str());
                let under = chars_of("_");
                let space = chars_of(" ");
                let readable = crate::text::replace_str(pc.as_slice(), under.as_slice(), space.as_slice());
                push_chars(&mut line, readable.as_slice());
            },
            None => {},
        }
        assert(line@ =~= status_line(*st));
        push_line(&mut out, &line);
        i = i + 1;
        assert(lines_all.take(i as int) =~= lines_all.take(i - 1).push(line@));
        assert(strings_view(out@) =~= start + lines_all.take(i as int));
    }
    assert(lines_all.take(i as int) =~= lines_all);
    if stale {
        push_line(&mut out, &empty);
        let a = chars_of("Stages marked ! passed against an older version of this pack.");
        push_line(&mut out, &a);
        let b = chars_of("Run `deltaforge test --stage <id>` to revalidate them.");
        push_line(&mut out, &b);
    }
    assert(strings_view(out@) =~= status_lines(name@, language@, current@, stages@));
    out
}

/// A pinned value before and after re-pinning.
#[derive(Debug, Clone)]
pub struct PinChange {
    pub old: String,
    pub new: String,
}

/// A pinned value as shown: `(unset)` where it is empty.
pub open spec fn shown_value(v: Seq<char>) -> Seq<char> {
    if v.len() == 0 {
        "(unset)"@
    } else {
        v
    }
}

pub open spec fn change_line(label: Seq<char>, c: PinChange) -> Seq<char> {
    if c.old@ == c.new@ {
        "  "@ + label + ": "@ + shown_value(c.new@) + " (unchanged)"@
    } else {
        "  "@ + label + ": "@ + shown_value(c.old@) + " \u{2192} "@ + shown_value(c.new@)
    }
}

/// A completed stage after re-pinning: its proof still stands, or not.
pub open spec fn synced_stage_line(st: (String, bool)) -> Seq<char> {
    if st.1 {
        "  \u{2713} "@ + st.0@
    } else {
        "  ! "@ + st.0@ + " (needs revalidation)"@
    }
}

/// What re-pinning a project to the installed pack prints.
pub open spec fn sync_lines(
    project: Seq<char>,
    version: PinChange,
    source: PinChange,
    digest: PinChange,
    migrated: usize,
    stages: Seq<(String, bool)>,
) -> Seq<Seq<char>> {
    seq![
        "Re-pinned project "@ + project + " to the current pack."@,
        change_line("version"@, version),
        change_line("source"@, source),
        change_line("digest"@, digest),
    ] + (if migrated > 0 {
        seq!["  migrated legacy completion proofs: "@ + decimal(migrated as nat)]
    } else {
        Seq::empty()
    }) + if stages.len() == 0 {
        Seq::empty()
    } else {
        seq![Seq::empty(), "Completed stages:"@] + stages.map_values(|st: (String, bool)| synced_stage_line(st)) + if exists|i: int|
            0 <= i < stages.len() && !(#[trigger] stages[i]).1 {
            seq![
                Seq::empty(),
                "Stages marked ! passed against an older version of this pack."@,
                "Run `deltaforge test --stage <id>` to revalidate them."@,
            ]
        } else {
            Seq::empty()
        }
    }
}

fn push_shown(out: &mut Vec<char>, v: &str)
    ensures
        final(out)@ == old(out)@ + shown_value(v@),
{
    if v.unicode_len() == 0 {
        push_str(out, "(unset)");
    } else {
        push_str(out, v);
    }
}

fn change_output(label: &str, c: &PinChange) -> (line: Vec<char>)
    ensures
        line@ == change_line(label@, *c),
{
    let mut line = chars_of("  ");
    push_str(&mut line, label);
    push_str(&mut line, ": ");
    let o = chars_of(c.old.as_str());
    if crate::text::chars_eq_str(o.as_slice(), c.new.as_str()) {
        push_shown(&mut line, c.new.as_str());
        push_str(&mut line, " (unchanged)");
    } else {
        push_shown(&mut line, c.old.as_str());
        push_str(&mut line, " \u{2192} ");
        push_shown(&mut line, c.new.as_str());
    }
    line
}

pub fn sync_output(
    project: &str,
    version: &PinChange,
    source: &PinChange,
    digest: &PinChange,
    migrated: usize,
    stages: &Vec<(String, bool)>,
) -> (out: Vec<String>)
    ensures
        strings_view(out@) == sync_lines(project@, *version, *source, *digest, migrated, stages@),
{
    let mut out: Vec<String> = Vec::new();
    let mut head = chars_of("Re-pinned project ");
    push_str(&mut head, project);
    push_str(&mut head, " to the current pack.");
    push_line(&mut out, &head);
    let v = change_output("version", version);
    push_line(&mut out, &v);
    let so = change_output("source", source);
    push_line(&mut out, &so);
    let d = change_output("digest", digest);
    push_line(&mut out, &d);
    if migrated > 0 {
        let mut m = chars_of("  migrated legacy completion proofs: ");
        crate::text::push_decimal(&mut m, migrated as u64);
        push_line(&mut out, &m);
    }
    let ghost start = strings_view(out@);
    if stages.len() == 0 {
        assert(strings_view(out@) =~= sync_lines(project@, *version, *source, *digest, migrated, stages@));
        return out;
    }
    let empty: Vec<char> = Vec::new();
    push_line(&mut out, &empty);
    let heading = chars_of("Completed stages:");
    push_line(&mut out, &heading);
    let ghost mid = strings_view(out@);
    let ghost all = stages@.map_values(|st: (String, bool)| synced_stage_line(st));
    let mut stale = false;
    let mut i: usize = 0;
    while i < stages.len()
        invariant
            i <= stages@.len(),
            all == stages@.map_values(|st: (String, bool)| synced_stage_line(st)),
            strings_view(out@) == mid + all.take(i as int),
            stale == exists|j: int| 0 <= j < i && !(#[trigger] stages@[j]).1,
        decreases stages@.len() - i,
    {
        let line = if stages[i].1 {
            labelled("  \u{2713} ", stages[i].0.as_str())
        } else {
            let mut l = labelled("  ! ", stages[i].0.as_str());
            push_str(&mut l, " (needs revalidation)");
            l
        };
        if !stages[i].1 {
            stale = true;
        }
        push_line(&mut out, &line);
        i = i + 1;
        assert(all.take(i as int) =~= all.take(i - 1).push(line@));
        assert(strings_view(out@) =~= mid + all.take(i as int));
    }
    assert(all.take(i as int) =~= all);
    if stale {
        push_line(&mut out, &empty);
        let a = chars_of("Stages marked ! passed against an older version of this pack.");
        push_line(&mut out, &a);
        let b = chars_of("Run `deltaforge test --stage <id>` to revalidate them.");
        push_line(&mut out, &b);
    }
    assert(strings_view(out@) =~= sync_lines(project@, *version, *source, *digest, migrated, stages@));
    out
}

} // verus!
