//! The checks a stage's tests and benchmarks files must pass: every test
//! asserts something, every path stays inside its scratch directory, and every
//! benchmark names a fixture the pack has.
use vstd::prelude::*;

use crate::fidelity::if_then;
use crate::pack::{blank, string_views, LoadedPack, StageSpec};
use crate::paths::{is_safe_relative_path, path_join, safe_expectation, safe_expectation_path, safe_relative};
use crate::text::{chars_of, push_str, string_of};

verus! {

/// What a test expects, as far as the pack checks read it.
#[derive(Debug, Clone)]
pub struct Expectations {
    pub exit_code: Option<i32>,
    pub stdout_exact: Option<String>,
    pub stdout_contains: Vec<String>,
    pub stdout_not_contains: Vec<String>,
    pub stderr_contains: Vec<String>,
    pub file_exists: Vec<String>,
    pub file_not_exists: Vec<String>,
    pub file_contains_paths: Vec<String>,
    pub regex_match: Vec<String>,
    pub json_equals: Option<String>,
    pub timeout_ms: Option<u64>,
}

/// One test of a stage's tests file.
#[derive(Debug, Clone)]
pub struct StageTest {
    pub name: String,
    pub command: Vec<String>,
    pub expect: Expectations,
    pub fixture: Option<String>,
}

/// One benchmark of a stage's benchmarks file, as written.
#[derive(Debug, Clone)]
pub struct ValidationBenchmark {
    pub name: Option<String>,
    pub fixture: Option<String>,
    pub command: Vec<String>,
    pub iterations: Option<u64>,
    pub warmup: Option<u64>,
    pub timeout_ms: Option<u64>,
}

pub open spec fn has_assertion(e: Expectations) -> bool {
    e.exit_code is Some || e.stdout_exact is Some || e.stdout_contains@.len() > 0
        || e.stdout_not_contains@.len() > 0 || e.stderr_contains@.len() > 0
        || e.file_exists@.len() > 0 || e.file_not_exists@.len() > 0
        || e.file_contains_paths@.len() > 0 || e.regex_match@.len() > 0 || e.json_equals is Some
}

/// The paths an expectation names, in the order they are checked.
pub open spec fn expectation_paths(e: Expectations) -> Seq<Seq<char>> {
    string_views(e.file_exists@) + string_views(e.file_not_exists@) + string_views(e.file_contains_paths@)
}

pub open spec fn unsafe_paths(prefix: Seq<char>, paths: Seq<Seq<char>>) -> Seq<Seq<char>>
    decreases paths.len(),
{
    if paths.len() == 0 {
        Seq::empty()
    } else {
        unsafe_paths(prefix, paths.drop_last()) + if_then(
            !safe_expectation(paths.last()),
            prefix + " expectation path is unsafe: "@ + paths.last(),
        )
    }
}

/// What is wrong with a test's expectations: none at all, a zero timeout,
/// or a path outside the scratch directory.
pub open spec fn expectation_problems(stage_id: Seq<char>, test_name: Seq<char>, e: Expectations) -> Seq<Seq<char>> {
    let prefix = "stage "@ + stage_id + " test "@ + test_name;
    if_then(!has_assertion(e), prefix + " defines no assertions"@) + if_then(
        e.timeout_ms == Some(0u64),
        prefix + " timeout_ms must be greater than 0"@,
    ) + unsafe_paths(prefix, expectation_paths(e))
}

fn note(out: &mut Vec<String>, c: bool, m: Vec<char>)
    ensures
        string_views(final(out)@) == string_views(old(out)@) + if_then(c, m@),
{
    let ghost before = string_views(out@);
    if c {
        out.push(string_of(m.as_slice()));
        assert(string_views(out@) =~= before.push(m@));
    } else {
        assert(string_views(out@) =~= before + Seq::<Seq<char>>::empty());
    }
}

fn cat(a: &[char], b: &str) -> (out: Vec<char>)
    ensures
        out@ == a@ + b@,
{
    let mut v = crate::text::slice_chars(a, 0, a.len());
    assert(v@ =~= a@);
    push_str(&mut v, b);
    v
}

fn cat_chars(a: &[char], b: &str, c: &[char]) -> (out: Vec<char>)
    ensures
        out@ == a@ + b@ + c@,
{
    let mut v = cat(a, b);
    crate::text::push_chars(&mut v, c);
    v
}

fn check_paths(out: &mut Vec<String>, prefix: &Vec<char>, paths: &Vec<String>)
    ensures
        string_views(final(out)@) == string_views(old(out)@) + unsafe_paths(prefix@, string_views(paths@)),
{
    let ghost start = string_views(out@);
    let ghost pv = string_views(paths@);
    let mut i: usize = 0;
    while i < paths.len()
        invariant
            i <= paths@.len(),
            pv == string_views(paths@),
            string_views(out@) == start + unsafe_paths(prefix@, pv.take(i as int)),
        decreases paths@.len() - i,
    {
        assert(pv.take(i + 1).drop_last() =~= pv.take(i as int));
        let p = chars_of(paths[i].as_str());
        let bad = !safe_expectation_path(paths[i].as_str());
        note(out, bad, cat_chars(prefix.as_slice(), " expectation path is unsafe: ", p.as_slice()));
        i = i + 1;
    }
    assert(pv.take(i as int) =~= pv);
}

proof fn lemma_unsafe_paths_append(prefix: Seq<char>, a: Seq<Seq<char>>, b: Seq<Seq<char>>)
    ensures
        unsafe_paths(prefix, a + b) == unsafe_paths(prefix, a) + unsafe_paths(prefix, b),
    decreases b.len(),
{
    if b.len() == 0 {
        assert(a + b =~= a);
    } else {
        lemma_unsafe_paths_append(prefix, a, b.drop_last());
        assert((a + b).drop_last() =~= a + b.drop_last());
    }
}

pub fn validate_expectations(out: &mut Vec<String>, stage_id: &str, test_name: &str, e: &Expectations)
    ensures
        string_views(final(out)@) == string_views(old(out)@) + expectation_problems(stage_id@, test_name@, *e),
{
    let ghost start = string_views(out@);
    let mut prefix: Vec<char> = Vec::new();
    push_str(&mut prefix, "stage ");
    push_str(&mut prefix, stage_id);
    push_str(&mut prefix, " test ");
    push_str(&mut prefix, test_name);
    let asserts = e.exit_code.is_some() || e.stdout_exact.is_some() || e.stdout_contains.len() > 0
        || e.stdout_not_contains.len() > 0 || e.stderr_contains.len() > 0 || e.file_exists.len() > 0
        || e.file_not_exists.len() > 0 || e.file_contains_paths.len() > 0 || e.regex_match.len() > 0
        || e.json_equals.is_some();
    note(out, !asserts, cat(prefix.as_slice(), " defines no assertions"));
    let zero = match e.timeout_ms {
        Some(t) => t == 0,
        None => false,
    };
    note(out, zero, cat(prefix.as_slice(), " timeout_ms must be greater than 0"));
    let ghost mid = string_views(out@);
    check_paths(out, &prefix, &e.file_exists);
    check_paths(out, &prefix, &e.file_not_exists);
    check_paths(out, &prefix, &e.file_contains_paths);
    proof {
        let p = prefix@;
        lemma_unsafe_paths_append(p, string_views(e.file_exists@), string_views(e.file_not_exists@));
        lemma_unsafe_paths_append(
            p,
            string_views(e.file_exists@) + string_views(e.file_not_exists@),
            string_views(e.file_contains_paths@),
        );
    }
    assert(string_views(out@) =~= start + expectation_problems(stage_id@, test_name@, *e));
}

/// Where a stage's fixture lives.
pub open spec fn fixture_dir(pack: LoadedPack, stage: StageSpec, fixture: Seq<char>) -> Seq<char> {
    path_join(path_join(pack.stage_dir_spec(stage), "fixtures"@), fixture)
}

pub open spec fn test_problems(pack: LoadedPack, stage: StageSpec, t: StageTest, fixture_present: bool) -> Seq<Seq<char>> {
    let id = stage.id@;
    let prefix = "stage "@ + id + " test "@ + t.name@;
    if_then(blank(t.name@), "stage "@ + id + " contains a test with an empty name"@) + if_then(
        t.command@.len() == 0,
        prefix + " command is empty"@,
    ) + expectation_problems(id, t.name@, t.expect) + match t.fixture {
        Some(f) => if !safe_relative(f@) {
            seq![prefix + " fixture path is unsafe: "@ + f@]
        } else {
            if_then(!fixture_present, "stage "@ + id + " references missing fixture "@ + fixture_dir(pack, stage, f@))
        },
        None => Seq::empty(),
    }
}

pub open spec fn tests_problems(pack: LoadedPack, stage: StageSpec, tests: Seq<StageTest>, present: Seq<bool>) -> Seq<Seq<char>>
    decreases tests.len(),
{
    if tests.len() == 0 {
        Seq::empty()
    } else {
        tests_problems(pack, stage, tests.drop_last(), present) + test_problems(
            pack,
            stage,
            tests.last(),
            present[tests.len() - 1],
        )
    }
}

/// Everything wrong with a stage's tests file, given how it parsed (or the
/// parser's complaint) and, for each test, whether its fixture directory is
/// there.
pub open spec fn stage_tests_problems(
    pack: LoadedPack,
    stage: StageSpec,
    parsed: Result<Seq<StageTest>, Seq<char>>,
    present: Seq<bool>,
) -> Seq<Seq<char>> {
    match parsed {
        Err(e) => seq!["stage "@ + stage.id@ + " tests file is invalid YAML: "@ + e],
        Ok(tests) => if_then(tests.len() == 0, "stage "@ + stage.id@ + " defines no tests"@) + tests_problems(
            pack,
            stage,
            tests,
            present,
        ),
    }
}

fn fixture_problem(
    out: &mut Vec<String>,
    pack: &LoadedPack,
    stage: &StageSpec,
    prefix: &Vec<char>,
    unsafe_note: &str,
    missing_prefix: &Vec<char>,
    fixture: &Option<String>,
    present: bool,
    absent_note: Option<&str>,
)
    ensures
        string_views(final(out)@) == string_views(old(out)@) + match *fixture {
            Some(f) => if !safe_relative(f@) {
                seq![prefix@ + unsafe_note@ + f@]
            } else {
                if_then(!present, missing_prefix@ + fixture_dir(*pack, *stage, f@))
            },
            None => match absent_note {
                Some(n) => seq![prefix@ + n@],
                None => Seq::empty(),
            },
        },
{
    let ghost start = string_views(out@);
    match fixture {
        Some(f) => {
            let fc = chars_of(f.as_str());
            if !is_safe_relative_path(f.as_str()) {
                note(out, true, cat_chars(prefix.as_slice(), unsafe_note, fc.as_slice()));
            } else {
                let path = pack.fixture_path(stage, f.as_str());
                let pc = chars_of(path.as_str());
                let mut m = crate::text::slice_chars(missing_prefix.as_slice(), 0, missing_prefix.len());
                assert(m@ =~= missing_prefix@);
                crate::text::push_chars(&mut m, pc.as_slice());
                note(out, !present, m);
            }
        },
        None => match absent_note {
            Some(n) => note(out, true, cat(prefix.as_slice(), n)),
            None => {
                assert(string_views(out@) =~= start + Seq::<Seq<char>>::empty());
            },
        },
    }
}

fn check_test(out: &mut Vec<String>, pack: &LoadedPack, stage: &StageSpec, t: &StageTest, present: bool)
    ensures
        string_views(final(out)@) == string_views(old(out)@) + test_problems(*pack, *stage, *t, present),
{
    let ghost start = string_views(out@);
    let id = chars_of(stage.id.as_str());
    let mut head: Vec<char> = Vec::new();
    push_str(&mut head, "stage ");
    push_str(&mut head, stage.id.as_str());
    let mut prefix = cat(head.as_slice(), " test ");
    push_str(&mut prefix, t.name.as_str());
    let name = chars_of(t.name.as_str());
    let blank_name = crate::text::trim_chars(name.as_slice()).len() == 0;
    note(out, blank_name, cat(head.as_slice(), " contains a test with an empty name"));
    note(out, t.command.len() == 0, cat(prefix.as_slice(), " command is empty"));
    validate_expectations(out, stage.id.as_str(), t.name.as_str(), &t.expect);
    let missing = cat(head.as_slice(), " references missing fixture ");
    fixture_problem(out, pack, stage, &prefix, " fixture path is unsafe: ", &missing, &t.fixture, present, None);
    assert(string_views(out@) =~= start + test_problems(*pack, *stage, *t, present));
}

/// Everything wrong with a stage's tests file.
pub fn validate_stage_tests_source(
    pack: &LoadedPack,
    stage: &StageSpec,
    parsed: &Result<Vec<StageTest>, String>,
    fixture_present: &Vec<bool>,
) -> (out: Vec<String>)
    requires
        parsed matches Ok(tests) ==> fixture_present@.len() == tests@.len(),
    ensures
        string_views(out@) == stage_tests_problems(
            *pack,
            *stage,
            match parsed {
                Ok(t) => Ok(t@),
                Err(e) => Err(e@),
            },
            fixture_present@,
        ),
{
    let mut out: Vec<String> = Vec::new();
    let mut head: Vec<char> = Vec::new();
    push_str(&mut head, "stage ");
    push_str(&mut head, stage.id.as_str());
    assert(string_views(out@) =~= Seq::<Seq<char>>::empty());
    match parsed {
        Err(e) => {
            let ec = chars_of(e.as_str());
            note(&mut out, true, cat_chars(head.as_slice(), " tests file is invalid YAML: ", ec.as_slice()));
        },
        Ok(tests) => {
            note(&mut out, tests.len() == 0, cat(head.as_slice(), " defines no tests"));
            let ghost base = string_views(out@);
            let mut i: usize = 0;
            while i < tests.len()
                invariant
                    i <= tests@.len(),
                    fixture_present@.len() == tests@.len(),
                    string_views(out@) == base + tests_problems(
                        *pack,
                        *stage,
                        tests@.take(i as int),
                        fixture_present@,
                    ),
                decreases tests@.len() - i,
            {
                assert(tests@.take(i + 1).drop_last() =~= tests@.take(i as int));
                check_test(&mut out, pack, stage, &tests[i], fixture_present[i]);
                i = i + 1;
            }
            assert(tests@.take(i as int) =~= tests@);
        },
    }
    out
}

pub open spec fn benchmark_name(b: ValidationBenchmark) -> Seq<char> {
    match b.name {
        Some(n) => n@,
        None => "<unnamed>"@,
    }
}

pub open spec fn benchmark_problems(pack: LoadedPack, stage: StageSpec, b: ValidationBenchmark, fixture_present: bool) -> Seq<Seq<char>> {
    let id = stage.id@;
    let name = benchmark_name(b);
    let prefix = "stage "@ + id + " benchmark "@ + name;
    if_then(blank(name), "stage "@ + id + " benchmark name is empty"@) + if_then(
        b.command@.len() == 0,
        prefix + " command is empty"@,
    ) + if_then(b.iterations == Some(0u64), prefix + " iterations must be greater than 0"@) + if_then(
        b.timeout_ms == Some(0u64),
        prefix + " timeout_ms must be greater than 0"@,
    ) + match b.fixture {
        Some(f) => if !safe_relative(f@) {
            seq![prefix + " fixture path is unsafe: "@ + f@]
        } else {
            if_then(!fixture_present, prefix + " references missing fixture "@ + fixture_dir(pack, stage, f@))
        },
        None => seq![prefix + " fixture is missing"@],
    }
}

pub open spec fn benchmarks_problems(
    pack: LoadedPack,
    stage: StageSpec,
    bs: Seq<ValidationBenchmark>,
    present: Seq<bool>,
) -> Seq<Seq<char>>
    decreases bs.len(),
{
    if bs.len() == 0 {
        Seq::empty()
    } else {
        benchmarks_problems(pack, stage, bs.drop_last(), present) + benchmark_problems(
            pack,
            stage,
            bs.last(),
            present[bs.len() - 1],
        )
    }
}

/// Everything wrong with a stage's benchmarks file, given how it parsed
/// (or the parser's complaint) and, for each benchmark, whether its fixture
/// directory is there.
pub open spec fn stage_benchmarks_problems(
    pack: LoadedPack,
    stage: StageSpec,
    parsed: Result<Seq<ValidationBenchmark>, Seq<char>>,
    present: Seq<bool>,
) -> Seq<Seq<char>> {
    match parsed {
        Err(e) => seq!["stage "@ + stage.id@ + " benchmarks file is invalid YAML: "@ + e],
        Ok(bs) => if_then(bs.len() == 0, "stage "@ + stage.id@ + " defines no benchmarks"@)
            + benchmarks_problems(pack, stage, bs, present),
    }
}

fn check_benchmark(out: &mut Vec<String>, pack: &LoadedPack, stage: &StageSpec, b: &ValidationBenchmark, present: bool)
    ensures
        string_views(final(out)@) == string_views(old(out)@) + benchmark_problems(*pack, *stage, *b, present),
{
    let ghost start = string_views(out@);
    let name: Vec<char> = match &b.name {
        Some(n) => chars_of(n.as_str()),
        None => chars_of("<unnamed>"),
    };
    let mut head: Vec<char> = Vec::new();
    push_str(&mut head, "stage ");
    push_str(&mut head, stage.id.as_str());
    let mut prefix = cat(head.as_slice(), " benchmark ");
    crate::text::push_chars(&mut prefix, name.as_slice());
    let blank_name = crate::text::trim_chars(name.as_slice()).len() == 0;
    note(out, blank_name, cat(head.as_slice(), " benchmark name is empty"));
    note(out, b.command.len() == 0, cat(prefix.as_slice(), " command is empty"));
    let zero_iterations = match b.iterations {
        Some(n) => n == 0,
        None => false,
    };
    note(out, zero_iterations, cat(prefix.as_slice(), " iterations must be greater than 0"));
    let zero_timeout = match b.timeout_ms {
        Some(n) => n == 0,
        None => false,
    };
    note(out, zero_timeout, cat(prefix.as_slice(), " timeout_ms must be greater than 0"));
    let missing = cat(prefix.as_slice(), " references missing fixture ");
    fixture_problem(
        out,
        pack,
        stage,
        &prefix,
        " fixture path is unsafe: ",
        &missing,
        &b.fixture,
        present,
        Some(" fixture is missing"),
    );
    assert(string_views(out@) =~= start + benchmark_problems(*pack, *stage, *b, present));
}

/// Everything wrong with a stage's benchmarks file.
pub fn validate_stage_benchmarks_source(
    pack: &LoadedPack,
    stage: &StageSpec,
    parsed: &Result<Vec<ValidationBenchmark>, String>,
    fixture_present: &Vec<bool>,
) -> (out: Vec<String>)
    requires
        parsed matches Ok(bs) ==> fixture_present@.len() == bs@.len(),
    ensures
        string_views(out@) == stage_benchmarks_problems(
            *pack,
            *stage,
            match parsed {
                Ok(b) => Ok(b@),
                Err(e) => Err(e@),
            },
            fixture_present@,
        ),
{
    let mut out: Vec<String> = Vec::new();
    let mut head: Vec<char> = Vec::new();
    push_str(&mut head, "stage ");
    push_str(&mut head, stage.id.as_str());
    assert(string_views(out@) =~= Seq::<Seq<char>>::empty());
    match parsed {
        Err(e) => {
            let ec = chars_of(e.as_str());
            note(&mut out, true, cat_chars(head.as_slice(), " benchmarks file is invalid YAML: ", ec.as_slice()));
        },
        Ok(bs) => {
            note(&mut out, bs.len() == 0, cat(head.as_slice(), " defines no benchmarks"));
            let ghost base = string_views(out@);
            let mut i: usize = 0;
            while i < bs.len()
                invariant
                    i <= bs@.len(),
                    fixture_present@.len() == bs@.len(),
                    string_views(out@) == base + benchmarks_problems(*pack, *stage, bs@.take(i as int), fixture_present@),
                decreases bs@.len() - i,
            {
                assert(bs@.take(i + 1).drop_last() =~= bs@.take(i as int));
                check_benchmark(&mut out, pack, stage, &bs[i], fixture_present[i]);
                i = i + 1;
            }
            assert(bs@.take(i as int) =~= bs@);
        },
    }
    out
}

} // verus!
