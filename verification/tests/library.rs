use deltaforge::authoring::{
    check_fixture_request, stage_document_file, validate_fixture_name, validate_identifier,
    validate_nonempty_text, write_stage_document, AuthoringReport, WriteFixtureFileRequest,
    WriteStageDocumentRequest,
};
use deltaforge::bench::{history_path, metric_name, PerformanceMetric};
use deltaforge::capability::{parse_inline, to_markdown, InlineSpan, RichText};
use deltaforge::config::ProjectConfig;
use deltaforge::content::{capability_sections, missing_stage_sections, prediction_prompt};
use deltaforge::creation::validate_name;
use deltaforge::digest::digest_named_contents;
use deltaforge::fidelity::unrepresentable_markdown;
use deltaforge::gate::GateStatus;
use deltaforge::health::{
    bounded_text, cancellation_path, load_project_health, ProjectHealthActionKind,
    ProjectHealthStatus,
};
use deltaforge::journal::{append, cursor, entries_after, Journal};
use deltaforge::matrix::{expand_variables, params_label, sanitize_name};
use deltaforge::pack::{
    CommandSpec, LanguageSpec, LoadedPack, PackFacts, ProjectPack, StageFacts, StageSpec,
};
use deltaforge::pack_checks::{validate_stage_benchmarks_source, ValidationBenchmark};
use deltaforge::page::{escape_html, inline_html, markdown_to_html, plain_text};
use deltaforge::paths::{join_path, safe_expectation_path};
use deltaforge::project::{add_exclusion, digest_exclusions, verify_gate_record};
use deltaforge::registry::{
    application_home_for, list, project_id, register, resolve, HomeEnv, Platform,
};
use deltaforge::reporting::ReportFormat;
use deltaforge::session::{
    primary_action, resumption_summary, reveal_next_hint, PrimaryActionKind, ResultFreshness,
    ResumptionKind,
};

fn pack_with(stages: Vec<StageSpec>) -> LoadedPack {
    LoadedPack {
        root: "/packs/demo".to_string(),
        manifest: ProjectPack {
            schema_version: 1,
            id: "demo".to_string(),
            name: "Demo".to_string(),
            version: "0.1.0".to_string(),
            description: "A demo pack".to_string(),
            topics: Vec::new(),
            languages: vec![(
                "rust".to_string(),
                LanguageSpec {
                    template: "templates/rust".to_string(),
                    build: None,
                    run: CommandSpec {
                        command: vec!["cargo".to_string(), "run".to_string()],
                    },
                },
            )],
            ignored_paths: Vec::new(),
            stages,
        },
    }
}

fn stage(id: &str, title: &str, path: &str) -> StageSpec {
    StageSpec {
        id: id.to_string(),
        title: title.to_string(),
        path: path.to_string(),
    }
}

#[test]
fn escaped_prose_round_trips_through_markdown() {
    let spans = vec![InlineSpan::Text {
        text: "a*b_c [x](y) #1".to_string(),
    }];
    let md = to_markdown(&spans);
    assert_eq!(parse_inline(&md), spans);
}

#[test]
fn html_escaping_leaves_no_markup() {
    let escaped = escape_html("<a href=\"x\">'&'</a>");
    assert_eq!(
        escaped,
        "&lt;a href=&quot;x&quot;&gt;&#39;&amp;&#39;&lt;/a&gt;"
    );
    assert!(!escaped.contains('<') && !escaped.contains('"'));
    assert_eq!(inline_html("`a<b` and **c**"), "<code>a&lt;b</code> and <strong>c</strong>");
    assert_eq!(inline_html("`open"), "<code>open</code>");
}

#[test]
fn markdown_page_renders_lists_headings_and_code() {
    assert_eq!(
        markdown_to_html("# Title\n\n- one\n- two\n\n1. first\n\ntext\nmore\n\n```\nx < y\n```\n"),
        "<h1>Title</h1><ul><li>one</li><li>two</li></ul><ol><li>first</li></ol><p>text more</p><div class=\"code-block\"><button class=\"copy-button\" type=\"button\">Copy</button><pre><code>x &lt; y</code></pre></div>"
    );
    assert_eq!(plain_text("# Heading\n- `a` **b**\n  c"), "a b c");
}

#[test]
fn journal_replays_from_a_cursor() {
    let mut journal = Journal::new();
    assert_eq!(cursor(&journal), 0);
    let first = append(&mut journal, "{\"type\":\"a\"}".to_string());
    assert_eq!(first, 1);
    let mark = cursor(&journal);
    let second = append(&mut journal, "{\"type\":\"b\"}".to_string());
    assert_eq!(second, 2);
    assert_eq!(cursor(&journal), 2);
    let replay = entries_after(&journal, mark);
    assert_eq!(replay.len(), 1);
    assert_eq!(replay[0].id, 2);
    for _ in 0..300 {
        append(&mut journal, "{}".to_string());
    }
    assert_eq!(journal.events.len(), 256);
    assert_eq!(entries_after(&journal, 0).len(), 256);
    assert_eq!(cursor(&journal), journal.events.last().unwrap().id);
}

#[test]
fn registry_keeps_the_newest_first_and_replaces_by_id() {
    let mut projects = Vec::new();
    let a = register(&mut projects, "/work/alpha", None, 10);
    let b = register(&mut projects, "/work/beta", None, 20);
    assert_eq!(projects[0].id, b.id);
    assert_eq!(projects[1].id, a.id);
    let again = register(&mut projects, "/work/alpha", Some("/packs".to_string()), 30);
    assert_eq!(projects.len(), 2);
    assert_eq!(projects[0].id, again.id);
    assert_eq!(projects[0].packs_dir.as_deref(), Some("/packs"));
    assert_eq!(resolve(&projects, &b.id).unwrap().path, "/work/beta");
    assert_eq!(
        resolve(&projects, "missing").unwrap_err(),
        "unknown registered project missing"
    );
    let (kept, changed) = list(projects, &vec![true, false]);
    assert_eq!(kept.len(), 1);
    assert!(changed);
}

#[test]
fn project_ids_hash_the_root() {
    assert_eq!(
        project_id("/tmp/example/flashindex"),
        "flashindex-4db5cfe90b6b036d"
    );
    assert!(project_id("/").starts_with("project-"));
    assert!(project_id("/tmp/My App!").starts_with("my-app-"));
}

#[test]
fn application_home_follows_each_platform() {
    let env = |home: Option<&str>, xdg: Option<&str>, explicit: Option<&str>| HomeEnv {
        deltaforge_home: explicit.map(str::to_string),
        local_app_data: None,
        user_profile: Some("/profile".to_string()),
        home: home.map(str::to_string),
        xdg_data_home: xdg.map(str::to_string),
    };
    assert_eq!(
        application_home_for(Platform::LinuxOrUnix, &env(Some("/home/l"), Some("/data"), None))
            .unwrap(),
        "/data/deltaforge"
    );
    assert_eq!(
        application_home_for(Platform::LinuxOrUnix, &env(Some("/home/l"), None, None)).unwrap(),
        "/home/l/.local/share/deltaforge"
    );
    assert_eq!(
        application_home_for(Platform::MacOs, &env(Some("/Users/l"), None, None)).unwrap(),
        "/Users/l/Library/Application Support/DeltaForge"
    );
    assert_eq!(
        application_home_for(Platform::Windows, &env(Some("/ignored"), None, None)).unwrap(),
        "/profile/AppData/Local/DeltaForge"
    );
    assert_eq!(
        application_home_for(Platform::MacOs, &env(None, None, Some("/explicit"))).unwrap(),
        "/explicit"
    );
    assert_eq!(
        application_home_for(Platform::MacOs, &env(None, None, Some(""))).unwrap_err(),
        "DELTAFORGE_HOME must not be empty"
    );
    assert_eq!(
        application_home_for(Platform::MacOs, &env(None, None, None)).unwrap_err(),
        "could not locate the user home directory; set DELTAFORGE_HOME"
    );
}

#[test]
fn named_contents_digest_ignores_order() {
    assert_eq!(digest_named_contents(Vec::new()), "fnv1a64:cbf29ce484222325");
    let forward = digest_named_contents(vec![
        ("a".to_string(), b"1".to_vec()),
        ("b".to_string(), b"2".to_vec()),
    ]);
    let backward = digest_named_contents(vec![
        ("b".to_string(), b"2".to_vec()),
        ("a".to_string(), b"1".to_vec()),
    ]);
    assert_eq!(forward, "fnv1a64:af0c9d66d4ac0abd");
    assert_eq!(forward, backward);
}

#[test]
fn project_names_report_each_rule() {
    assert_eq!(validate_name("  ok-name  ").unwrap(), "ok-name");
    assert_eq!(validate_name(" ").unwrap_err(), "choose a name for the project");
    assert_eq!(
        validate_name(&"b".repeat(65)).unwrap_err(),
        "the project name is longer than 64 characters"
    );
    assert_eq!(
        validate_name("-x").unwrap_err(),
        "the project name must start with a letter or a digit"
    );
    assert_eq!(
        validate_name("a b").unwrap_err(),
        "the project name cannot contain ' '; use letters, digits, hyphens, or underscores"
    );
    assert_eq!(
        validate_name("Lpt1").unwrap_err(),
        "Lpt1 is a reserved name on Windows; choose another"
    );
}

#[test]
fn configuration_rules_name_the_file() {
    let config = ProjectConfig::default();
    assert!(config.validate("cfg.toml").is_ok());
    let mut broken = ProjectConfig::default();
    broken.runner.timeout_ms = 0;
    assert_eq!(
        broken.validate("cfg.toml").unwrap_err(),
        "invalid config cfg.toml: runner.timeout_ms must be greater than 0"
    );
    let mut old = ProjectConfig::default();
    old.schema_version = 7;
    assert_eq!(
        old.validate("cfg.toml").unwrap_err(),
        "unsupported config schema_version 7 in cfg.toml; expected 1"
    );
    let mut excluded = ProjectConfig::default();
    excluded.integrity.exclude = vec!["ok".to_string(), "a/b".to_string()];
    assert_eq!(
        excluded.validate("cfg.toml").unwrap_err(),
        "invalid config cfg.toml: integrity.exclude entries must be plain file or directory names, got \"a/b\""
    );
}

#[test]
fn pack_validation_lists_every_problem_in_order() {
    let mut pack = pack_with(vec![
        stage("01", "First", "stages/01"),
        stage("01", " ", "../escape"),
    ]);
    pack.manifest.description = "  ".to_string();
    let facts = PackFacts {
        templates_present: vec![false],
        stages: vec![
            StageFacts {
                dir_present: true,
                instructions_present: true,
                hints_present: false,
                tests_present: true,
                tests_problems: vec!["stage 01 defines no tests".to_string()],
                benchmark_problems: Vec::new(),
            },
            StageFacts {
                dir_present: true,
                instructions_present: true,
                hints_present: true,
                tests_present: true,
                tests_problems: Vec::new(),
                benchmark_problems: Vec::new(),
            },
        ],
    };
    assert_eq!(
        deltaforge::pack::validate_pack(&pack, &facts),
        vec![
            "manifest description is empty",
            "language rust template directory is missing: /packs/demo/templates/rust",
            "stage 01 missing required file /packs/demo/stages/01/hints.md",
            "stage 01 defines no tests",
            "duplicate stage id 01",
            "stage 01 title is empty",
            "stage 01 path is unsafe: ../escape",
        ]
    );
}

#[test]
fn pack_navigation_follows_the_stage_order() {
    let pack = pack_with(vec![stage("01", "One", "s/01"), stage("02", "Two", "s/02")]);
    let m = &pack.manifest;
    assert!(m.language("rust").is_some());
    assert!(m.language("go").is_none());
    assert_eq!(m.first_stage().unwrap().id, "01");
    assert_eq!(m.next_stage("01").unwrap().id, "02");
    assert!(m.next_stage("02").is_none());
    assert_eq!(m.stage_index("02"), Some(1));
    let s = m.stage("02").unwrap();
    assert_eq!(pack.fixture_path(s, "basic"), "/packs/demo/s/02/fixtures/basic");
    assert_eq!(pack.hints_path(s), "/packs/demo/s/02/hints.md");
}

#[test]
fn benchmark_files_are_checked_entry_by_entry() {
    let pack = pack_with(vec![stage("03", "Three", "s/03")]);
    let s = &pack.manifest.stages[0];
    let parsed: Result<Vec<ValidationBenchmark>, String> = Ok(vec![
        ValidationBenchmark {
            name: None,
            fixture: None,
            command: Vec::new(),
            iterations: Some(0),
            warmup: None,
            timeout_ms: None,
        },
        ValidationBenchmark {
            name: Some("scan".to_string()),
            fixture: Some("big".to_string()),
            command: vec!["run".to_string()],
            iterations: None,
            warmup: None,
            timeout_ms: Some(0),
        },
    ]);
    assert_eq!(
        validate_stage_benchmarks_source(&pack, s, &parsed, &vec![true, false]),
        vec![
            "stage 03 benchmark <unnamed> command is empty",
            "stage 03 benchmark <unnamed> iterations must be greater than 0",
            "stage 03 benchmark <unnamed> fixture is missing",
            "stage 03 benchmark scan timeout_ms must be greater than 0",
            "stage 03 benchmark scan references missing fixture /packs/demo/s/03/fixtures/big",
        ]
    );
    let invalid: Result<Vec<ValidationBenchmark>, String> = Err("bad indent".to_string());
    assert_eq!(
        validate_stage_benchmarks_source(&pack, s, &invalid, &Vec::new()),
        vec!["stage 03 benchmarks file is invalid YAML: bad indent"]
    );
}

#[test]
fn health_reports_recovery_actions() {
    let healthy = load_project_health(Ok("demo".to_string()), "/p");
    assert_eq!(healthy.status, ProjectHealthStatus::Healthy);
    assert_eq!(healthy.actions.len(), 2);
    let broken = load_project_health(
        Err("pack contents changed at /p/x. Run `deltaforge sync-pack`".to_string()),
        "/p",
    );
    assert_eq!(broken.status, ProjectHealthStatus::Unhealthy);
    let issue = broken.issue.unwrap();
    assert_eq!(issue.code, "pack_changed");
    assert_eq!(
        issue.detail,
        "pack contents changed at {project_root}/x. Run `deltaforge sync-pack`"
    );
    let kinds: Vec<_> = broken.actions.iter().map(|a| a.kind).collect();
    assert_eq!(
        kinds,
        vec![
            ProjectHealthActionKind::Recheck,
            ProjectHealthActionKind::RepinPack,
            ProjectHealthActionKind::OpenEditor,
            ProjectHealthActionKind::OpenFolder,
        ]
    );
}

#[test]
fn bounded_text_cuts_at_a_character_boundary() {
    assert_eq!(bounded_text("short", 10), "short");
    assert_eq!(
        bounded_text("h\u{e9}llo", 2),
        "h\n[deltaforge: detail truncated]"
    );
}

#[test]
fn cancellation_sentinels_need_plain_job_ids() {
    assert_eq!(
        cancellation_path("/p", "job-1").unwrap(),
        "/p/.deltaforge/cancel-job-1"
    );
    assert_eq!(
        cancellation_path("/p", "../x").unwrap_err(),
        "active job identifier is invalid"
    );
    assert!(cancellation_path("/p", "").is_err());
}

#[test]
fn hints_are_revealed_one_at_a_time() {
    assert_eq!(reveal_next_hint(0, 5, false).unwrap(), 1);
    assert_eq!(
        reveal_next_hint(4, 5, false).unwrap_err(),
        "the retrospective unlocks after this capability is acquired"
    );
    assert_eq!(reveal_next_hint(4, 5, true).unwrap(), 5);
    assert_eq!(
        reveal_next_hint(5, 5, true).unwrap_err(),
        "all help levels are already revealed"
    );
    assert_eq!(
        reveal_next_hint(0, 0, true).unwrap_err(),
        "this capability has no help levels"
    );
}

#[test]
fn the_primary_action_follows_the_learner() {
    let cancel = primary_action(true, false, ResultFreshness::Fresh, true, None);
    assert_eq!(cancel.kind, PrimaryActionKind::CancelRun);
    let next = primary_action(false, true, ResultFreshness::Fresh, true, None);
    assert_eq!(next.label, "Begin next step");
    let done = primary_action(false, true, ResultFreshness::Fresh, false, None);
    assert_eq!(done.kind, PrimaryActionKind::JourneyComplete);
    assert!(!done.enabled);
    let first = primary_action(false, false, ResultFreshness::NeverRun, true, None);
    assert_eq!(first.label, "Run initial checks");
    let summary = resumption_summary(
        None,
        true,
        None,
        ResultFreshness::Stale,
        false,
        false,
        true,
    )
    .unwrap();
    assert_eq!(summary.kind, ResumptionKind::Interrupted);
    let resume = primary_action(false, false, ResultFreshness::Stale, true, Some(&summary));
    assert_eq!(resume.kind, PrimaryActionKind::ResumeChecks);
    assert_eq!(resume.label, "Run checks again");
    assert!(resumption_summary(None, false, None, ResultFreshness::Fresh, false, false, true).is_none());
}

#[test]
fn stage_guides_need_every_panel() {
    let source = "## Goal\n\nDo it.\n\n## Background\n\nWhy.\n\n## Requirements\n\n- a\n\n## Example\n\nx\n\n## Success criteria\n\n\n## Edge cases\n\ny\n";
    assert_eq!(missing_stage_sections(source), vec!["Success criteria", "Non-goals"]);
    let sections = deltaforge::capability::markdown_sections(source);
    assert_eq!(
        capability_sections(&sections).unwrap_err(),
        "capability instructions are missing the Non-goals section"
    );
    let prompt = prediction_prompt("# Predict\n\nWhat happens at `n = 0`?\n").unwrap();
    assert_eq!(prompt.source, "What happens at `n = 0`?");
    assert!(!prompt.is_empty());
    assert!(prediction_prompt("# Only a heading\n\n").is_none());
    assert_eq!(RichText::parse(String::new()).blocks.len(), 0);
}

#[test]
fn unrepresentable_constructs_are_reported_by_line() {
    assert_eq!(
        unrepresentable_markdown("> quote\n"),
        vec!["line 1: a block quotation has no block in the workbench renderer: > quote"]
    );
    assert_eq!(
        unrepresentable_markdown("text\n\n---\n"),
        vec!["line 3: a rule or underlined heading renders as punctuation: ---"]
    );
}

#[test]
fn matrix_points_and_names_read_plainly() {
    let params = vec![
        ("mode".to_string(), "fast".to_string()),
        ("threads".to_string(), "2".to_string()),
    ];
    assert_eq!(params_label(&params), "mode=fast, threads=2");
    assert_eq!(params_label(&Vec::new()), "");
    assert_eq!(sanitize_name("scan big/files!"), "scan-big-files-");
    assert_eq!(
        expand_variables("{fixture_path}/in -o {temp_dir}/out", "/f", "/t"),
        "/f/in -o /t/out"
    );
    assert_eq!(metric_name(PerformanceMetric::ThroughputMbS), "throughput_mb_s");
    assert_eq!(history_path("/p"), "/p/.deltaforge/benchmark_history.json");
}

#[test]
fn exclusions_are_listed_once() {
    let list = digest_exclusions(
        &vec!["target".to_string(), "dist".to_string()],
        &vec!["dist".to_string(), "out".to_string()],
    );
    assert_eq!(list.len(), 13);
    assert_eq!(list[11], "dist");
    assert_eq!(list[12], "out");
    let mut exclude = vec!["a".to_string()];
    assert!(add_exclusion(&mut exclude, "report.md"));
    assert!(!add_exclusion(&mut exclude, "report.md"));
    assert_eq!(exclude.len(), 2);
}

#[test]
fn gate_states_have_names_and_consequences() {
    assert_eq!(GateStatus::NotYet.label(), "not_yet");
    assert!(verify_gate_record("02", Some(GateStatus::Passed)).is_ok());
    assert!(verify_gate_record("02", None).is_ok());
    assert_eq!(
        verify_gate_record("02", Some(GateStatus::NotMeasured)).unwrap_err(),
        "the performance target for stage 02 has not been measured against the current source; run the benchmarks"
    );
    assert_eq!(ReportFormat::Html.export_file_name(), "deltaforge-report.html");
}

#[test]
fn authoring_inputs_are_checked_before_writing() {
    assert!(validate_identifier("flash_index-2").is_ok());
    assert_eq!(
        validate_identifier("Bad").unwrap_err(),
        "identifier must use lowercase ascii letters, digits, '_' or '-': Bad"
    );
    assert!(validate_fixture_name("basic").is_ok());
    assert_eq!(
        validate_fixture_name("a/b").unwrap_err(),
        "unsafe fixture name: a/b"
    );
    assert_eq!(
        validate_nonempty_text("name", " ").unwrap_err(),
        "name must not be empty"
    );
    assert_eq!(
        validate_nonempty_text("name", &"x".repeat(4097)).unwrap_err(),
        "name exceeds the 4096 byte authoring limit"
    );
    assert_eq!(stage_document_file("hints").unwrap(), ("hints.md", false));
    assert!(stage_document_file("readme").is_err());
    let pack = pack_with(vec![stage("01", "One", "s/01")]);
    let request = WriteStageDocumentRequest {
        project: "demo".to_string(),
        packs_dir: "/packs".to_string(),
        stage: "01".to_string(),
        document: "instructions".to_string(),
        content: "# One\n".to_string(),
    };
    let plan = write_stage_document(&request, &pack).unwrap();
    assert_eq!(plan.path, "/packs/demo/s/01/instructions.md");
    assert!(plan.report.is_ok());
    let fixture = WriteFixtureFileRequest {
        project: "demo".to_string(),
        packs_dir: "/packs".to_string(),
        stage: "01".to_string(),
        fixture: "basic".to_string(),
        path: "../x".to_string(),
        content: String::new(),
        overwrite: false,
    };
    assert_eq!(
        check_fixture_request(&fixture).unwrap_err(),
        "unsafe fixture file path: ../x"
    );
    let blocked = AuthoringReport::blocked(None, None, vec!["p".to_string()], Vec::new());
    assert!(!blocked.is_ok());
    assert_eq!(join_path("a/", "b"), "a/b");
    assert_eq!(join_path("a", "/abs"), "/abs");
    assert!(safe_expectation_path("{temp_dir}/out.txt"));
    assert!(!safe_expectation_path("/etc/passwd"));
}
