use deltaforge::authoring::{
    check_fixture_deletion, check_fixture_target, fixture_listing, fixture_read_report, write_fixture_file,
    DeleteFixtureFileRequest, FixtureDirEntry, WriteFixtureFileRequest,
};
use deltaforge::capability::{parse_inline, to_markdown, InlineSpan};
use deltaforge::console::{
    event_output, explanation_output, failure_suggestions, listing_output, stage_status, status_output,
    sync_output, test_command_result, PinChange, RunEvent, StageStatus, StatusStage,
};
use deltaforge::project::{migrate_legacy_proofs, CompletionProof};
use deltaforge::diagnosis::{TestDiagnosis, TestResult};
use deltaforge::digest::{digest_named_contents, sort_names, tree_digest, TreeFile};
use deltaforge::health::{ProjectHealth, ProjectHealthIssue, ProjectHealthStatus};
use deltaforge::pack::{
    accept_pack, check_pack_id, discovered_packs, CommandSpec, LanguageSpec, LoadedPack, ProjectPack, StageSpec,
};
use deltaforge::session::{
    hint_output, next_command, plan_hints, repin_current_pack, reveal_next_hint, HintPlan, PackPin, PointOutcome, RecordOutcome,
};
use deltaforge::diagnosis::LastFailedTest;
use deltaforge::test_run::{
    finish_benchmark_run, finish_test_run, lead_failure, AttemptStatus, AttemptSummary, StageTestSummary,
};

fn result(name: &str, passed: bool, priority: Option<u32>) -> TestResult {
    TestResult {
        name: name.to_string(),
        passed,
        diagnosis: priority.map(|p| TestDiagnosis {
            priority: p,
            headline: format!("{name} headline"),
            contract: "contract".to_string(),
        }),
        failures: if passed { Vec::new() } else { vec![format!("{name} failed")] },
        diagnostics: Vec::new(),
        expectations: Vec::new(),
        actual_exit_code: None,
        duration_ms: None,
        stdout: String::new(),
        stderr: String::new(),
        report_stdout: None,
        report_stderr: None,
        input: None,
        kept_temp_dir: None,
    }
}

fn summary(id: &str, results: Vec<TestResult>, succeeded: bool) -> StageTestSummary {
    let passed = results.iter().filter(|r| r.passed).count();
    let failed = results.len() - passed;
    StageTestSummary {
        stage_id: id.to_string(),
        passed,
        failed,
        total_defined: results.len(),
        completion_eligible: succeeded,
        succeeded,
        results,
    }
}

fn manifest(id: &str) -> ProjectPack {
    ProjectPack {
        schema_version: 1,
        id: id.to_string(),
        name: "Demo".to_string(),
        version: "0.1.0".to_string(),
        description: "d".to_string(),
        topics: Vec::new(),
        languages: vec![(
            "rust".to_string(),
            LanguageSpec { template: "t".to_string(), build: None, run: CommandSpec { command: vec!["run".to_string()] } },
        )],
        ignored_paths: Vec::new(),
        stages: vec![StageSpec { id: "01".to_string(), title: "One".to_string(), path: "stages/01".to_string() }],
    }
}

#[test]
fn failures_are_recorded_first_to_fix_first() {
    let stages = vec![summary(
        "01",
        vec![result("late", false, Some(50)), result("ok", true, None), result("undiagnosed", false, None), result("early", false, Some(5))],
        false,
    )];
    let d = finish_test_run(stages, None, false, false);
    assert_eq!(d.passed, 1);
    assert_eq!(d.failed, 3);
    assert!(!d.successful);
    assert_eq!(d.status, Some(AttemptStatus::Failed));
    let names: Vec<String> = d.stages[0].failures.as_ref().unwrap().iter().map(|f| f.name.clone()).collect();
    assert_eq!(names, vec!["early", "late", "undiagnosed"]);
    assert!(!d.stages[0].record_proof);
}

#[test]
fn a_cancelled_run_is_cancelled_whatever_passed() {
    let stages = vec![summary("01", vec![result("ok", true, None)], true)];
    let d = finish_test_run(stages, Some("stage 01: run cancelled".to_string()), false, false);
    assert_eq!(d.status, Some(AttemptStatus::Cancelled));
    assert!(!d.successful);
    assert!(d.stages[0].record_proof);
}

#[test]
fn listings_and_filtered_runs_record_no_failures() {
    let listed = finish_test_run(vec![summary("01", vec![result("x", false, None)], false)], None, true, false);
    assert_eq!(listed.status, None);
    assert!(listed.stages[0].failures.is_none());
    let filtered = finish_test_run(vec![summary("01", vec![result("x", true, None)], true)], None, false, true);
    assert_eq!(filtered.status, Some(AttemptStatus::Passed));
    assert!(filtered.stages[0].failures.is_none());
    let empty = finish_test_run(Vec::new(), None, false, false);
    assert_eq!(empty.status, Some(AttemptStatus::Failed));
}

fn record(points: &[bool]) -> RecordOutcome {
    RecordOutcome {
        benchmark: "scan".to_string(),
        points: points.iter().map(|s| PointOutcome { success: *s }).collect(),
    }
}

#[test]
fn benchmark_runs_save_only_complete_results() {
    let d = finish_benchmark_run("job-1".to_string(), vec![record(&[true, true]), record(&[true])], None, true);
    assert!(d.outcome.saved);
    assert_eq!(d.status, AttemptStatus::Passed);
    assert_eq!((d.passed, d.failed), (2, 0));

    let failed = finish_benchmark_run("job-2".to_string(), vec![record(&[false, false, false])], None, true);
    assert!(failed.outcome.saved);
    assert_eq!(failed.status, AttemptStatus::Failed);
    assert_eq!((failed.passed, failed.failed), (0, 3));

    let cancelled = finish_benchmark_run("job-3".to_string(), vec![record(&[true])], Some("run cancelled".to_string()), true);
    assert!(!cancelled.outcome.saved);
    assert_eq!(cancelled.status, AttemptStatus::Cancelled);

    let unsaved = finish_benchmark_run("job-4".to_string(), Vec::new(), None, true);
    assert!(!unsaved.outcome.saved);
    assert_eq!(unsaved.status, AttemptStatus::Passed);
}

#[test]
fn the_test_command_prints_each_event() {
    assert_eq!(
        event_output(&RunEvent::JobStarted { stage_ids: vec!["01".to_string(), "02".to_string()] }, false),
        vec!["Checking 01, 02".to_string(), String::new()]
    );
    assert!(event_output(&RunEvent::BuildStarted { command: vec!["cargo".to_string(), "build".to_string()] }, false).is_empty());
    assert_eq!(
        event_output(&RunEvent::BuildStarted { command: vec!["cargo".to_string(), "build".to_string()] }, true),
        vec!["Build: cargo build".to_string()]
    );
    let mut failing = result("scans", false, None);
    failing.stdout = "raw /tmp/x\r\nsecond\n".to_string();
    failing.report_stdout = Some("a\nb\n".to_string());
    failing.kept_temp_dir = Some("/tmp/keep".to_string());
    assert_eq!(
        event_output(&RunEvent::TestFailed { result: failing.clone() }, false),
        vec!["FAIL  scans", "  scans failed", "  actual stdout:", "    a", "    b", "Kept temp dir: /tmp/keep"]
    );
    assert_eq!(
        event_output(&RunEvent::TestFailed { result: failing }, true),
        vec!["FAIL  scans", "  scans failed", "stdout:\nraw /tmp/x\r\nsecond\n", "Kept temp dir: /tmp/keep"]
    );
    assert_eq!(event_output(&RunEvent::TestPassed { result: result("ok", true, None) }, false), vec!["PASS  ok"]);
    assert_eq!(
        event_output(&RunEvent::RunCompleted { passed_tests: 3, failed_tests: 1 }, false),
        vec![String::new(), "3 passed, 1 failed".to_string()]
    );
    assert!(event_output(&RunEvent::Other, true).is_empty());
}

#[test]
fn a_failing_check_shows_at_most_twenty_lines() {
    let mut failing = result("long", false, None);
    failing.stdout = (1..=25).map(|n| format!("{n}\n")).collect();
    let out = event_output(&RunEvent::TestFailed { result: failing }, false);
    assert_eq!(out.len(), 2 + 1 + 20);
    assert_eq!(out[3], "    1");
    assert_eq!(out[22], "    20");
}

#[test]
fn listings_name_each_stage_and_check() {
    let stages = vec![summary("01", vec![result("a", true, None), result("b", true, None)], true)];
    assert_eq!(listing_output(&stages), vec!["01:", "  a", "  b"]);
    assert_eq!(test_command_result(None, true).unwrap_err(), "tests failed");
    assert_eq!(test_command_result(Some("boom".to_string()), true).unwrap_err(), "boom");
    assert!(test_command_result(None, false).is_ok());
}

fn dir(name: &str) -> FixtureDirEntry {
    FixtureDirEntry { name: Some(name.to_string()), is_dir: true, is_symlink: false }
}

#[test]
fn fixtures_are_listed_in_name_order() {
    let r = fixture_listing("demo".to_string(), "/p/stages/01/fixtures", vec![dir("zeta"), dir("alpha"), dir("beta")]);
    assert_eq!(r.report.status, "ok");
    assert_eq!(r.fixtures.unwrap(), vec!["alpha", "beta", "zeta"]);
    assert_eq!(r.report.path.as_deref(), Some("/p/stages/01/fixtures"));
    assert_eq!(r.report.next_actions, vec!["Choose a fixture and list its files before reading content."]);
    assert!(r.files.is_none());
}

#[test]
fn fixture_listing_blocks_on_the_first_bad_entry() {
    let link = FixtureDirEntry { name: Some("linked".to_string()), is_dir: true, is_symlink: true };
    let r = fixture_listing("demo".to_string(), "/p/f", vec![dir("ok"), link, dir("bad:name")]);
    assert_eq!(r.report.status, "blocked");
    assert_eq!(r.report.path.as_deref(), Some("/p/f/linked"));
    assert_eq!(
        r.report.problems,
        vec!["fixture entries must be real directories; symlinks and special files are forbidden"]
    );
    assert_eq!(r.report.next_actions, vec!["Inspect the reported path and fix the pack before retrying."]);
    assert!(r.fixtures.is_none());

    let unnamed = FixtureDirEntry { name: None, is_dir: true, is_symlink: false };
    let r = fixture_listing("demo".to_string(), "/p/f", vec![unnamed]);
    assert_eq!(r.report.path.as_deref(), Some("/p/f"));
    assert_eq!(r.report.problems, vec!["fixture name is not valid UTF-8"]);

    let r = fixture_listing("demo".to_string(), "/p/f", vec![dir("..")]);
    assert_eq!(r.report.path.as_deref(), Some("/p/f/.."));
    assert_eq!(r.report.problems, vec!["unsafe fixture name: .."]);
}

#[test]
fn names_sort_by_code_point() {
    let sorted = sort_names(vec!["b".to_string(), "B".to_string(), "a".to_string(), "ab".to_string()]);
    assert_eq!(sorted, vec!["B", "a", "ab", "b"]);
}

#[test]
fn packs_are_accepted_only_when_safe_and_matching() {
    assert!(check_pack_id("flashindex").is_ok());
    assert_eq!(check_pack_id("../x").unwrap_err(), "unsafe project pack id: ../x");
    assert_eq!(check_pack_id("a/b").unwrap_err(), "unsafe project pack id: a/b");
    let m = manifest("demo");
    assert!(accept_pack("demo", "/p/demo/project.yaml", &m, &vec!["manifest name is empty".to_string()]).is_ok());
    assert_eq!(
        accept_pack("other", "/p/demo/project.yaml", &m, &Vec::new()).unwrap_err(),
        "pack manifest id mismatch: requested other, found demo"
    );
    let problems = vec!["template path is unsafe: ../t".to_string(), "fine".to_string(), "unsafe x".to_string()];
    assert_eq!(
        accept_pack("demo", "/p/demo/project.yaml", &m, &problems).unwrap_err(),
        "pack contains unsafe paths:\ntemplate path is unsafe: ../t\nunsafe x"
    );
    let mut old = manifest("demo");
    old.schema_version = 2;
    assert_eq!(
        accept_pack("demo", "/p/demo/project.yaml", &old, &Vec::new()).unwrap_err(),
        "unsupported pack schema_version 2 in /p/demo/project.yaml; expected 1"
    );
}

#[test]
fn discovery_keeps_the_first_pack_of_each_id_in_id_order() {
    let found = vec![
        LoadedPack { root: "/a/zeta".to_string(), manifest: manifest("zeta") },
        LoadedPack { root: "/a/alpha".to_string(), manifest: manifest("alpha") },
        LoadedPack { root: "/b/zeta".to_string(), manifest: manifest("zeta") },
    ];
    let packs = discovered_packs(found);
    let roots: Vec<&str> = packs.iter().map(|p| p.root.as_str()).collect();
    assert_eq!(roots, vec!["/a/alpha", "/a/zeta"]);
}

fn health(code: Option<&str>) -> ProjectHealth {
    ProjectHealth {
        status: ProjectHealthStatus::Unhealthy,
        project: None,
        issue: code.map(|c| ProjectHealthIssue {
            code: c.to_string(),
            title: String::new(),
            detail: String::new(),
            guidance: String::new(),
        }),
        actions: Vec::new(),
    }
}

#[test]
fn repinning_adopts_the_installed_pack_only_when_it_changed() {
    let installed = PackPin {
        pack_version: "0.2.0".to_string(),
        pack_source: "builtin".to_string(),
        pack_digest: "fnv1a64:0000000000000001".to_string(),
    };
    let mut pin = PackPin {
        pack_version: "0.1.0".to_string(),
        pack_source: "builtin".to_string(),
        pack_digest: "fnv1a64:0000000000000000".to_string(),
    };
    assert_eq!(
        repin_current_pack(&health(None), &mut pin, &installed).unwrap_err(),
        "the project does not require pack recovery"
    );
    assert_eq!(pin.pack_version, "0.1.0");
    assert!(repin_current_pack(&health(Some("pack_changed")), &mut pin, &installed).is_ok());
    assert_eq!(pin.pack_version, "0.2.0");
    assert_eq!(pin.pack_digest, "fnv1a64:0000000000000001");
}

#[test]
fn an_existing_fixture_file_is_replaced_only_on_request() {
    let pack = LoadedPack { root: "/packs/demo".to_string(), manifest: manifest("demo") };
    let mut request = WriteFixtureFileRequest {
        project: "demo".to_string(),
        packs_dir: "/packs".to_string(),
        stage: "01".to_string(),
        fixture: "basic".to_string(),
        path: "a.txt".to_string(),
        content: "x".to_string(),
        overwrite: false,
    };
    assert_eq!(
        write_fixture_file(&request, &pack, true).unwrap_err(),
        "fixture file already exists: /packs/demo/stages/01/fixtures/basic/a.txt; set overwrite=true to replace it"
    );
    let planned = write_fixture_file(&request, &pack, false).unwrap();
    assert_eq!(planned.relative, "stages/01/fixtures/basic/a.txt");
    request.overwrite = true;
    assert!(write_fixture_file(&request, &pack, true).is_ok());
    request.path = "../x".to_string();
    assert_eq!(write_fixture_file(&request, &pack, false).unwrap_err(), "unsafe fixture file path: ../x");
}

#[test]
fn the_retrospective_stays_gated_until_the_step_is_complete() {
    assert_eq!(reveal_next_hint(1, 3, false).unwrap(), 2);
    assert_eq!(
        reveal_next_hint(2, 3, false).unwrap_err(),
        "the retrospective unlocks after this capability is acquired"
    );
    assert_eq!(reveal_next_hint(2, 3, true).unwrap(), 3);
    assert_eq!(reveal_next_hint(0, 1, false).unwrap(), 1);
}

#[test]
fn a_code_span_holding_a_backtick_survives_a_round_trip() {
    let spans = vec![InlineSpan::Code { text: "a`b".to_string() }];
    let md = to_markdown(&spans);
    assert_eq!(md, "``a`b``");
    assert_eq!(parse_inline(&md), spans);
    assert_eq!(parse_inline("`` `x` ``"), vec![InlineSpan::Code { text: "`x`".to_string() }]);
}

#[test]
fn digests_do_not_depend_on_entry_order() {
    let a = digest_named_contents(vec![("x".to_string(), vec![1u8]), ("y".to_string(), vec![2u8]), ("z".to_string(), Vec::new())]);
    let b = digest_named_contents(vec![("z".to_string(), Vec::new()), ("x".to_string(), vec![1u8]), ("y".to_string(), vec![2u8])]);
    assert_eq!(a, b);
    assert_eq!(a.len(), 24);
    assert!(a.starts_with("fnv1a64:"));
    assert_eq!(digest_named_contents(Vec::new()), "fnv1a64:cbf29ce484222325");
}

#[test]
fn a_failed_build_leads_the_workbench() {
    let first = LastFailedTest { name: "scans".to_string(), failures: vec!["x".to_string()], diagnosis: None };
    let attempt = AttemptSummary {
        status: AttemptStatus::Failed,
        stage_ids: vec!["01".to_string()],
        error: Some("cargo build failed".to_string()),
    };
    let lead = lead_failure(Some(first.clone()), Some(&attempt), "01").unwrap();
    assert_eq!(lead.name, "Build project");
    assert_eq!(lead.failures, vec!["cargo build failed"]);
    let diagnosis = lead.diagnosis.unwrap();
    assert_eq!(diagnosis.priority, 0);
    assert_eq!(diagnosis.kind, "build");
    assert_eq!(diagnosis.actual.as_deref(), Some("cargo build failed"));

    assert_eq!(lead_failure(Some(first.clone()), Some(&attempt), "02").unwrap().name, "scans");
    let passed = AttemptSummary { status: AttemptStatus::Passed, ..attempt.clone() };
    assert_eq!(lead_failure(Some(first.clone()), Some(&passed), "01").unwrap().name, "scans");
    assert!(lead_failure(None, None, "01").is_none());
}

fn failed(name: &str, failures: &[&str]) -> LastFailedTest {
    LastFailedTest {
        name: name.to_string(),
        failures: failures.iter().map(|f| f.to_string()).collect(),
        diagnosis: None,
    }
}

#[test]
fn suggestions_follow_the_kinds_of_failure_once_each_in_order() {
    let tests = vec![
        failed("a", &["expected stdout to contain x", "command timed out"]),
        failed("b", &["expected stdout to contain y", "expected exit code 0, got 1"]),
    ];
    assert_eq!(
        failure_suggestions(2, &tests),
        vec![
            "Compare your program output with the expected lines and check ordering/path formatting.",
            "Look for infinite loops or unexpectedly slow scans before optimizing details.",
            "Make sure the command returns success for valid inputs and failure only for real errors.",
        ]
    );
    assert_eq!(
        failure_suggestions(1, &vec![failed("c", &["expected stdout exactly \"\"", "expected file to exist: out"])]),
        vec![
            "Check extra whitespace, trailing lines, and whether the command should print nothing.",
            "Verify the command writes output files under the provided temp/output path.",
        ]
    );
    assert_eq!(
        failure_suggestions(1, &vec![failed("d", &["something else"])]),
        vec!["Run `deltaforge test --verbose` to inspect stdout and stderr for the failing command."]
    );
    assert_eq!(failure_suggestions(0, &Vec::new()), vec!["Run `deltaforge next` to continue."]);
}

#[test]
fn explanations_list_failures_then_next_steps() {
    let tests = vec![failed("scans", &["command timed out"])];
    assert_eq!(
        explanation_output("01", "Scan", 2, 1, "2026-01-01T00:00:00Z", &tests),
        vec![
            "Stage 01: Scan",
            "Last run: 2 passed, 1 failed at 2026-01-01T00:00:00Z",
            "",
            "Failed: scans",
            "  - command timed out",
            "",
            "Suggested next steps:",
            "  - Look for infinite loops or unexpectedly slow scans before optimizing details.",
        ]
    );
    assert_eq!(
        explanation_output("01", "Scan", 3, 0, "t", &Vec::new()),
        vec!["Stage 01: Scan", "Last run: 3 passed, 0 failed at t", "", "No failures recorded for this stage."]
    );
}

fn shown(plan: HintPlan) -> (Vec<usize>, usize) {
    match plan {
        HintPlan::Show { levels, revealed } => (levels, revealed),
        HintPlan::NoHints => panic!("expected hints to show"),
    }
}

#[test]
fn the_hint_command_never_passes_the_published_ceiling() {
    assert_eq!(plan_hints(Some(0), false, 0, 5, false).unwrap_err(), "hint level must be greater than 0");
    assert!(matches!(plan_hints(None, false, 0, 0, false).unwrap(), HintPlan::NoHints));
    assert_eq!(shown(plan_hints(None, true, 0, 5, false).unwrap()), (vec![1, 2, 3, 4], 4));
    assert_eq!(shown(plan_hints(None, true, 0, 5, true).unwrap()), (vec![1, 2, 3, 4, 5], 5));
    assert_eq!(shown(plan_hints(None, false, 1, 3, false).unwrap()), (vec![2], 2));
    assert_eq!(shown(plan_hints(Some(1), false, 2, 3, false).unwrap()), (vec![1], 2));
    assert_eq!(
        plan_hints(None, false, 2, 3, false).unwrap_err(),
        "the retrospective unlocks after this capability is acquired"
    );
    assert_eq!(plan_hints(Some(4), false, 0, 3, true).unwrap_err(), "all help levels are already revealed");
    assert_eq!(hint_output(5, 2, "  Look closer.\n"), vec!["Hint 2/5:", "Look closer.", ""]);
}

#[test]
fn status_marks_each_stage_and_points_at_stale_ones() {
    assert_eq!(stage_status(true, true, false), StageStatus::NeedsRevalidation);
    assert_eq!(stage_status(true, false, true), StageStatus::Complete);
    assert_eq!(stage_status(false, true, true), StageStatus::Current);
    assert_eq!(stage_status(false, false, false), StageStatus::Locked);
    assert_eq!(StageStatus::NeedsRevalidation.label(), "needs_revalidation");
    let stages = vec![
        StatusStage {
            id: "01".to_string(),
            title: "Scan".to_string(),
            status: StageStatus::NeedsRevalidation,
            performance: Some("not_measured".to_string()),
        },
        StatusStage { id: "02".to_string(), title: "Filter".to_string(), status: StageStatus::Current, performance: None },
        StatusStage { id: "03".to_string(), title: "Index".to_string(), status: StageStatus::Locked, performance: None },
    ];
    assert_eq!(
        status_output("FlashIndex", "rust", "02", &stages),
        vec![
            "Project: FlashIndex",
            "Language: rust",
            "Current stage: 02",
            "",
            "Stages:",
            "  ! 01 - Scan - performance: not measured",
            "  \u{2192} 02 - Filter",
            "  \u{25cb} 03 - Index",
            "",
            "Stages marked ! passed against an older version of this pack.",
            "Run `deltaforge test --stage <id>` to revalidate them.",
        ]
    );
}

#[test]
fn next_unlocks_the_following_stage_only_after_a_valid_pass() {
    let mut m = manifest("demo");
    m.stages.push(StageSpec { id: "02".to_string(), title: "Two".to_string(), path: "stages/02".to_string() });
    let waiting = next_command(&m, "01", false, None, false, false, None).unwrap();
    assert_eq!(waiting.lines, vec!["Current stage has not passed yet.", "Run: deltaforge test"]);
    assert!(waiting.new_current.is_none());
    assert_eq!(next_command(&m, "01", true, Some("stale".to_string()), false, false, None).unwrap_err(), "stale");
    assert_eq!(next_command(&m, "01", true, None, true, true, Some("slow".to_string())).unwrap_err(), "slow");
    let skipped = next_command(&m, "01", true, None, true, false, Some("slow".to_string())).unwrap();
    assert_eq!(skipped.lines, vec!["performance gates skipped: gates.enforce = false", "Unlocked Stage 02: Two"]);
    assert_eq!(skipped.new_current.as_deref(), Some("02"));
    let done = next_command(&m, "02", true, None, false, true, None).unwrap();
    assert_eq!(done.lines, vec!["All stages complete."]);
    assert!(done.new_current.is_none());
}

fn recorded_proof(pack: &str, behavior: &str) -> CompletionProof {
    CompletionProof {
        pack_digest: pack.to_string(),
        behavioral_digest: behavior.to_string(),
        project_digest: "p".to_string(),
    }
}

#[test]
fn only_legacy_proofs_of_the_same_pack_are_migrated() {
    let mut proofs = vec![
        ("01".to_string(), recorded_proof("new", "")),
        ("02".to_string(), recorded_proof("old", "")),
        ("03".to_string(), recorded_proof("new", "b3")),
        ("04".to_string(), recorded_proof("new", "")),
    ];
    let behavioral = vec![Some("b1".to_string()), Some("b2".to_string()), Some("x".to_string()), None];
    assert_eq!(migrate_legacy_proofs(&mut proofs, "new", &behavioral), 1);
    let digests: Vec<&str> = proofs.iter().map(|(_, p)| p.behavioral_digest.as_str()).collect();
    assert_eq!(digests, vec!["b1", "", "b3", ""]);
}

#[test]
fn repinning_reports_each_change_and_stale_stage() {
    let change = |old: &str, new: &str| PinChange { old: old.to_string(), new: new.to_string() };
    assert_eq!(
        sync_output(
            "flashindex",
            &change("0.1.0", "0.2.0"),
            &change("builtin", "builtin"),
            &change("", "fnv1a64:1"),
            1,
            &vec![("01".to_string(), true), ("02".to_string(), false)],
        ),
        vec![
            "Re-pinned project flashindex to the current pack.",
            "  version: 0.1.0 \u{2192} 0.2.0",
            "  source: builtin (unchanged)",
            "  digest: (unset) \u{2192} fnv1a64:1",
            "  migrated legacy completion proofs: 1",
            "",
            "Completed stages:",
            "  \u{2713} 01",
            "  ! 02 (needs revalidation)",
            "",
            "Stages marked ! passed against an older version of this pack.",
            "Run `deltaforge test --stage <id>` to revalidate them.",
        ]
    );
}

#[test]
fn fixture_reads_report_text_or_why_not() {
    assert_eq!(check_fixture_target("basic", "../x").unwrap_err(), "unsafe fixture file path: ../x");
    assert_eq!(check_fixture_target("a/b", "x").unwrap_err(), "unsafe fixture name: a/b");
    assert!(check_fixture_target("basic", "dir/x.txt").is_ok());
    let ok = fixture_read_report("demo".to_string(), "/p/x.txt", Ok(5), Some("hello".to_string()));
    assert_eq!(ok.report.status, "ok");
    assert_eq!(ok.content.as_deref(), Some("hello"));
    let binary = fixture_read_report("demo".to_string(), "/p/x.bin", Ok(3), None);
    assert_eq!(binary.report.status, "blocked");
    assert_eq!(
        binary.report.problems,
        vec!["fixture file is not valid UTF-8; binary fixtures are not supported by this tool"]
    );
    let missing = fixture_read_report("demo".to_string(), "/p/y", Err("not found".to_string()), None);
    assert_eq!(missing.report.problems, vec!["not found"]);
    assert!(missing.content.is_none());
    let large = fixture_read_report("demo".to_string(), "/p/big", Ok(1048577), Some("x".to_string()));
    assert_eq!(large.report.status, "blocked");
    assert_eq!(large.report.problems, vec!["file exceeds the 1048576 byte authored-text limit"]);
    assert!(large.content.is_none());
    let at_limit = fixture_read_report("demo".to_string(), "/p/edge", Ok(1048576), Some("y".repeat(1048576)));
    assert_eq!(at_limit.report.status, "ok");
    let grown = fixture_read_report("demo".to_string(), "/p/grown", Ok(10), Some("z".repeat(1048577)));
    assert_eq!(grown.report.problems, vec!["file exceeds the 1048576 byte authored-text limit"]);
}

#[test]
fn fixture_deletions_must_be_confirmed() {
    let mut request = DeleteFixtureFileRequest {
        project: "demo".to_string(),
        packs_dir: "/packs".to_string(),
        stage: "01".to_string(),
        fixture: "basic".to_string(),
        path: "a.txt".to_string(),
        confirm: false,
    };
    let blocked = check_fixture_deletion(&request).unwrap().unwrap();
    assert_eq!(blocked.status, "blocked");
    assert_eq!(blocked.path.as_deref(), Some("/packs/demo/stages/01/fixtures/basic/a.txt"));
    assert_eq!(blocked.problems, vec!["delete_fixture_file requires confirm=true"]);
    request.confirm = true;
    assert!(check_fixture_deletion(&request).unwrap().is_none());
    request.path = "/etc/passwd".to_string();
    assert_eq!(check_fixture_deletion(&request).unwrap_err(), "unsafe fixture file path: /etc/passwd");
}

fn file(relative: &str, contents: &[u8]) -> TreeFile {
    TreeFile { relative: relative.to_string(), symlink_target: None, contents: Some(contents.to_vec()) }
}

fn fnv_framed(parts: &[&[u8]]) -> String {
    let mut hash: u64 = 0xcbf29ce484222325;
    for part in parts {
        for byte in *part {
            hash ^= u64::from(*byte);
            hash = hash.wrapping_mul(0x100000001b3);
        }
    }
    format!("fnv1a64:{hash:016x}")
}

#[test]
fn tree_digests_frame_files_in_path_order() {
    let plain = tree_digest(vec![file("b/c.txt", b"2"), file("a.txt", b"1")]);
    assert_eq!(
        plain,
        digest_named_contents(vec![("a.txt".to_string(), b"1".to_vec()), ("b/c.txt".to_string(), b"2".to_vec())])
    );
    let forward = tree_digest(vec![file("a/b", b"x"), file("a-b", b"y")]);
    let backward = tree_digest(vec![file("a-b", b"y"), file("a/b", b"x")]);
    assert_eq!(forward, backward);
    assert_eq!(forward, fnv_framed(&[b"a/b", &[0], b"x", &[0xff], b"a-b", &[0], b"y", &[0xff]]));
    let linked = TreeFile {
        relative: "l".to_string(),
        symlink_target: Some("t".to_string()),
        contents: Some(b"z".to_vec()),
    };
    assert_eq!(tree_digest(vec![linked]), fnv_framed(&[b"l", &[1], b"t", &[0], b"z", &[0xff]]));
    let vanished = TreeFile { relative: "gone".to_string(), symlink_target: None, contents: None };
    assert_eq!(tree_digest(vec![vanished]), fnv_framed(&[b"gone", &[0]]));
    assert_eq!(tree_digest(Vec::new()), "fnv1a64:cbf29ce484222325");
}

use deltaforge::test_run::TestRunOutcome;

#[test]
fn an_outcome_succeeds_only_when_every_stage_ran_clean() {
    let mut outcome = TestRunOutcome {
        job_id: "job-1".to_string(),
        summaries: Vec::new(),
        newly_completed_current: false,
        execution_error: None,
    };
    assert!(!outcome.is_success());
    outcome.summaries.push(summary("01", vec![result("a", true, None)], true));
    outcome.summaries.push(summary("02", vec![result("b", false, None), result("c", true, None)], false));
    assert!(!outcome.is_success());
    assert_eq!((outcome.passed(), outcome.failed()), (2, 1));
    outcome.summaries.pop();
    assert!(outcome.is_success());
    outcome.execution_error = Some("build failed".to_string());
    assert!(!outcome.is_success());
}
