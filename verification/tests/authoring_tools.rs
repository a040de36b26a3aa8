use deltaforge::authoring::{
    fixture_deletion_report, pack_tools, plan_stage_data, stage_data_read_report, DataPlan,
    StageData, ToolArguments,
};
use deltaforge::digest::{project_tree_files, tree_digest, TreeEntry, TreeEntryKind};
use deltaforge::pack::{CommandSpec, LanguageSpec, LoadedPack, ProjectPack, StageSpec};

fn demo_pack() -> LoadedPack {
    LoadedPack {
        root: "/packs/demo".to_string(),
        manifest: ProjectPack {
            schema_version: 1,
            id: "demo".to_string(),
            name: "Demo".to_string(),
            version: "0.1.0".to_string(),
            description: "d".to_string(),
            topics: Vec::new(),
            languages: vec![(
                "rust".to_string(),
                LanguageSpec { template: "t".to_string(), build: None, run: CommandSpec { command: vec!["run".to_string()] } },
            )],
            ignored_paths: Vec::new(),
            stages: vec![StageSpec { id: "01".to_string(), title: "One".to_string(), path: "stages/01".to_string() }],
        },
    }
}

#[test]
fn the_catalogue_lists_nineteen_annotated_tools() {
    let tools = pack_tools();
    assert_eq!(tools.len(), 19);
    assert_eq!(tools[0].name, "create_pack");
    assert_eq!(tools[0].required_args, vec!["id", "name", "description", "dest"]);
    assert_eq!(tools[0].arguments, ToolArguments::Open);
    let delete = &tools[14];
    assert_eq!(delete.name, "delete_fixture_file");
    assert!(delete.destructive && !delete.idempotent && !delete.read_only);
    assert_eq!(delete.arguments, ToolArguments::Authoring);
    let read_only: Vec<&str> = tools.iter().filter(|t| t.read_only).map(|t| t.name.as_str()).collect();
    assert_eq!(
        read_only,
        vec![
            "read_pack_manifest",
            "read_stage_document",
            "read_stage_tests",
            "read_stage_benchmarks",
            "list_fixture_files",
            "read_fixture_file",
            "diagnose_pack",
            "validate_pack",
            "inspect_packs",
        ]
    );
    assert!(tools.iter().all(|t| !(t.read_only && t.destructive)));
    let check = tools.iter().find(|t| t.name == "check_reference").unwrap();
    assert!(!check.read_only && !check.destructive && !check.idempotent);
}

#[test]
fn deletions_report_the_first_open_that_failed() {
    let dir = fixture_deletion_report("demo".to_string(), "/p/f/a", Some("no dir".to_string()), None, None);
    assert_eq!(dir.status, "blocked");
    assert_eq!(dir.problems, vec!["no dir"]);
    assert_eq!(dir.next_actions, vec!["Fix the fixture path and retry without symbolic links."]);
    let parent = fixture_deletion_report("demo".to_string(), "/p/f/a", None, Some("link".to_string()), Some("x".to_string()));
    assert_eq!(parent.problems, vec!["fixture file cannot be opened safely: link"]);
    let file = fixture_deletion_report("demo".to_string(), "/p/f/a", None, None, Some("a directory".to_string()));
    assert_eq!(file.problems, vec!["delete target is not a regular file: a directory"]);
    assert_eq!(file.next_actions, vec!["Choose one existing regular file beneath the named fixture."]);
    let done = fixture_deletion_report("demo".to_string(), "/p/f/a", None, None, None);
    assert_eq!(done.status, "ok");
    assert_eq!(done.next_actions, vec!["Re-list the fixture and update tests or benchmarks that referenced this file."]);
}

#[test]
fn replacing_stage_data_plans_a_write_or_blocks() {
    let pack = demo_pack();
    match plan_stage_data(&pack, "demo", "01", StageData::Tests, "tests:\n- name: a\n", Vec::new()).unwrap() {
        DataPlan::Write(w) => {
            assert_eq!(w.relative, "stages/01/tests.yaml");
            assert_eq!(w.path, "/packs/demo/stages/01/tests.yaml");
            assert_eq!(w.report.next_actions, vec!["Run check_reference after the test suite is complete."]);
        }
        DataPlan::Blocked(_) => panic!("expected a write"),
    }
    match plan_stage_data(&pack, "demo", "01", StageData::Benchmarks, "benchmarks: []\n", vec!["bad".to_string()]).unwrap() {
        DataPlan::Blocked(b) => {
            assert_eq!(b.path.as_deref(), Some("/packs/demo"));
            assert_eq!(b.problems, vec!["bad"]);
            assert_eq!(b.next_actions, vec!["Fix the structured definitions; no file was changed."]);
        }
        DataPlan::Write(_) => panic!("expected a refusal"),
    }
    assert_eq!(
        plan_stage_data(&pack, "demo", "09", StageData::Tests, "x", Vec::new()).err().unwrap(),
        "pack demo does not contain stage 09"
    );
    assert_eq!(
        plan_stage_data(&pack, "demo", "01", StageData::Tests, "  ", Vec::new()).err().unwrap(),
        "tests YAML must not be empty"
    );
}

#[test]
fn reading_stage_data_reports_each_failure() {
    let (absent, with_data) =
        stage_data_read_report("demo".to_string(), "/p/b.yaml", StageData::Benchmarks, false, Err("x".to_string()), Err(String::new()), Ok(0));
    assert_eq!(absent.status, "ok");
    assert_eq!(absent.next_actions, vec!["This optional stage has no benchmarks.yaml file."]);
    assert!(!with_data);
    let (missing, _) = stage_data_read_report(
        "demo".to_string(),
        "/p/t.yaml",
        StageData::Tests,
        false,
        Err("required file is missing: /p/t.yaml".to_string()),
        Err(String::new()),
        Ok(0),
    );
    assert_eq!(missing.problems, vec!["required file is missing: /p/t.yaml"]);
    let (empty, _) = stage_data_read_report("demo".to_string(), "/p/t.yaml", StageData::Tests, true, Ok(9), Ok("tests: []".to_string()), Ok(0));
    assert_eq!(empty.problems, vec!["tests.yaml must contain at least one test"]);
    let (bad, _) = stage_data_read_report(
        "demo".to_string(),
        "/p/b.yaml",
        StageData::Benchmarks,
        true,
        Ok(3),
        Ok("[[".to_string()),
        Err("unexpected end".to_string()),
    );
    assert_eq!(bad.problems, vec!["benchmarks.yaml is malformed: unexpected end"]);
    let (ok, with_data) =
        stage_data_read_report("demo".to_string(), "/p/t.yaml", StageData::Tests, true, Ok(9), Ok("tests: [a]".to_string()), Ok(1));
    assert_eq!(ok.status, "ok");
    assert!(with_data);
    assert_eq!(ok.next_actions, vec!["Modify this tests array and pass it unchanged otherwise to replace_stage_tests."]);
}

fn file(relative: &str, contents: &[u8]) -> TreeEntry {
    TreeEntry { relative: relative.to_string(), kind: TreeEntryKind::File { contents: Some(contents.to_vec()) } }
}

#[test]
fn excluded_names_apply_only_at_the_project_root() {
    let excluded = vec!["target".to_string()];
    let digest = |cache: &[u8], nested: &[u8]| {
        let entries = vec![file("src/main.rs", b"fn main() {}"), file("target/cache.o", cache), file("src/target/cache.o", nested)];
        tree_digest(project_tree_files("/p", true, entries, &excluded).unwrap())
    };
    let d0 = digest(b"one", b"one");
    assert_eq!(digest(b"two", b"one"), d0);
    assert_ne!(digest(b"two", b"two"), d0);
}

use deltaforge::authoring::{check_tool_arguments, negotiate_protocol, validation_report};
use deltaforge::capability::{blocks_to_markdown, parse_blocks, InlineSpan, OverviewBlock};
use deltaforge::config::ProjectConfig;
use deltaforge::project::exclude_generated_root_file;

#[test]
fn the_server_speaks_the_asked_protocol_or_the_newest() {
    assert_eq!(negotiate_protocol(Some("2025-03-26")).unwrap(), "2025-03-26");
    assert_eq!(negotiate_protocol(Some("1999-01-01")).unwrap(), "2025-11-25");
    assert_eq!(negotiate_protocol(None).unwrap_err(), "initialize params.protocolVersion is required");
}

#[test]
fn closed_tools_refuse_unknown_arguments() {
    let tools = pack_tools();
    let read = tools.iter().find(|t| t.name == "read_fixture_file").unwrap();
    let keys = |names: &[&str]| names.iter().map(|n| n.to_string()).collect::<Vec<_>>();
    assert!(check_tool_arguments(read, &keys(&["fixture", "packs_dir", "path", "project", "stage"])).is_ok());
    assert_eq!(
        check_tool_arguments(read, &keys(&["project", "overwrite", "zzz"])).unwrap_err(),
        "unknown tool argument overwrite"
    );
    let open = tools.iter().find(|t| t.name == "diagnose_pack").unwrap();
    assert!(check_tool_arguments(open, &keys(&["anything"])).is_ok());
}

#[test]
fn validation_reports_ok_only_without_problems() {
    let ok = validation_report("demo".to_string(), "/packs/demo", Vec::new());
    assert_eq!(ok.status, "ok");
    assert_eq!(ok.next_actions, vec!["Run check_reference with a known-good implementation."]);
    let bad = validation_report("demo".to_string(), "/packs/demo", vec!["manifest name is empty".to_string()]);
    assert_eq!(bad.status, "blocked");
    assert_eq!(bad.problems, vec!["manifest name is empty"]);
    assert_eq!(bad.next_actions, vec!["Fix validation problems before adding more stages."]);
}

#[test]
fn exported_reports_at_the_root_are_excluded_once() {
    let mut config = ProjectConfig::default();
    let before = config.integrity.exclude.clone();
    assert!(exclude_generated_root_file(&mut config, true, Some("deltaforge-report.md")));
    assert!(!exclude_generated_root_file(&mut config, true, Some("deltaforge-report.md")));
    assert_eq!(config.integrity.exclude.len(), before.len() + 1);
    assert!(!exclude_generated_root_file(&mut config, false, Some("elsewhere.md")));
    assert!(!exclude_generated_root_file(&mut config, true, None));
    assert_eq!(config.integrity.exclude.len(), before.len() + 1);
}

#[test]
fn a_heading_survives_being_written_and_read() {
    let blocks = vec![OverviewBlock::Heading { level: 3, spans: vec![InlineSpan::Text { text: "Edge *cases*".to_string() }] }];
    let md = blocks_to_markdown(&blocks);
    let lines: Vec<&str> = md.lines().collect();
    let parsed = parse_blocks(&lines);
    assert_eq!(parsed.len(), 1);
    match &parsed[0] {
        OverviewBlock::Heading { level, spans } => {
            assert_eq!(*level, 3);
            assert_eq!(spans, &vec![InlineSpan::Text { text: "Edge *cases*".to_string() }]);
        }
        other => panic!("expected a heading, got {other:?}"),
    }
}

#[test]
fn a_one_line_code_block_survives_being_written_and_read() {
    let blocks = vec![OverviewBlock::Code { language: "bash".to_string(), content: "flashindex scan ./src".to_string() }];
    let md = blocks_to_markdown(&blocks);
    let lines: Vec<&str> = md.lines().collect();
    match &parse_blocks(&lines)[..] {
        [OverviewBlock::Code { language, content }] => {
            assert_eq!(language, "bash");
            assert_eq!(content, "flashindex scan ./src");
        }
        other => panic!("expected one code block, got {other:?}"),
    }
}
