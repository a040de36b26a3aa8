use deltaforge::digest::{pack_tree_files, project_tree_files, tree_digest, TreeEntry, TreeEntryKind};
use deltaforge::session::{check_pack_pin, PackPin};

fn file(relative: &str, contents: &[u8]) -> TreeEntry {
    TreeEntry { relative: relative.to_string(), kind: TreeEntryKind::File { contents: Some(contents.to_vec()) } }
}

fn entry(relative: &str, kind: TreeEntryKind) -> TreeEntry {
    TreeEntry { relative: relative.to_string(), kind }
}

#[test]
fn generated_directories_are_skipped_only_at_the_project_root() {
    let excluded = vec!["target".to_string(), ".git".to_string()];
    let entries = vec![
        file("src/main.rs", b"fn main() {}"),
        file("target/debug/app", b"binary"),
        file("src/target/keep.rs", b"kept"),
        entry("target/link", TreeEntryKind::LinkToDirectory),
        entry("fifo", TreeEntryKind::Special),
        entry("notes", TreeEntryKind::LinkToFile { target: "../notes.txt".to_string(), contents: Some(b"n".to_vec()) }),
    ];
    let files = project_tree_files("/p", true, entries, &excluded).unwrap();
    let paths: Vec<&str> = files.iter().map(|f| f.relative.as_str()).collect();
    assert_eq!(paths, vec!["src/main.rs", "src/target/keep.rs", "notes"]);
    assert_eq!(files[2].symlink_target.as_deref(), Some("../notes.txt"));
}

#[test]
fn a_link_to_a_directory_stops_a_project_digest() {
    let entries = vec![file("a.txt", b"a"), entry("vendor", TreeEntryKind::LinkToDirectory)];
    assert_eq!(
        project_tree_files("/p", true, entries, &Vec::new()).unwrap_err(),
        "cannot create an integrity digest: /p/vendor is a symbolic link to a directory.\nCopy the directory into the project, remove the link, or add its name to integrity.exclude in .deltaforge/config.toml."
    );
    let broken = vec![entry("dangling", TreeEntryKind::UnreadableLink { error: "No such file or directory".to_string() })];
    assert_eq!(
        project_tree_files("/p", true, broken, &Vec::new()).unwrap_err(),
        "cannot create an integrity digest: /p/dangling is a symbolic link with an unreadable target.\nRemove or repair the link.: No such file or directory"
    );
    assert_eq!(
        project_tree_files("/missing", false, Vec::new(), &Vec::new()).unwrap_err(),
        "cannot digest missing directory /missing"
    );
}

#[test]
fn a_pack_must_be_self_contained() {
    let linked = vec![
        file("project.yaml", b"id: demo"),
        entry("stages/01/tests.yaml", TreeEntryKind::LinkToFile { target: "/tmp/t".to_string(), contents: None }),
    ];
    assert_eq!(
        pack_tree_files("/packs/demo", true, linked).unwrap_err(),
        "pack content must be self-contained: /packs/demo/stages/01/tests.yaml is a symbolic link. Replace it with a regular copy of its target."
    );
    let special = vec![entry("pipe", TreeEntryKind::Special)];
    assert_eq!(
        pack_tree_files("/packs/demo", true, special).unwrap_err(),
        "pack content must be self-contained: /packs/demo/pipe is a special file"
    );
    let files = pack_tree_files("/packs/demo", true, vec![file("b", b"2"), file("a", b"1")]).unwrap();
    assert_eq!(files.len(), 2);
    assert_eq!(
        tree_digest(files),
        tree_digest(pack_tree_files("/packs/demo", true, vec![file("a", b"1"), file("b", b"2")]).unwrap())
    );
}

fn pin(version: &str, source: &str, digest: &str) -> PackPin {
    PackPin { pack_version: version.to_string(), pack_source: source.to_string(), pack_digest: digest.to_string() }
}

#[test]
fn a_project_uses_only_the_pack_it_is_pinned_to() {
    assert!(check_pack_pin("demo", &pin("", "", ""), "0.2.0", "/packs/demo", false, "/packs/demo", None).is_ok());
    assert_eq!(
        check_pack_pin("demo", &pin("0.1.0", "", ""), "0.2.0", "/packs/demo", true, "/packs/demo", None).unwrap_err(),
        "project is pinned to pack demo version 0.1.0, but discovery selected version 0.2.0 from /packs/demo. Adopt the currently discovered pack definition to continue."
    );
    assert_eq!(
        check_pack_pin("demo", &pin("0.2.0", "/old", ""), "0.2.0", "/packs/demo", false, "/packs/demo", None).unwrap_err(),
        "project is pinned to pack source /old, but discovery selected /packs/demo. Restore the original pack source or adopt the currently discovered pack definition."
    );
    assert_eq!(
        check_pack_pin("demo", &pin("0.2.0", "/packs/demo", "fnv1a64:1"), "0.2.0", "/packs/demo", true, "/packs/demo", Some("fnv1a64:2"))
            .unwrap_err(),
        "pack contents changed since project initialization. Adopt the currently discovered pack definition to continue."
    );
    assert!(check_pack_pin("demo", &pin("0.2.0", "/packs/demo", "fnv1a64:1"), "0.2.0", "/packs/demo", true, "/packs/demo", Some("fnv1a64:1")).is_ok());
}

use deltaforge::authoring::{fixture_files_listing, FixtureNode, FixtureNodeKind};

fn node(parent: &str, name: &str, kind: FixtureNodeKind) -> FixtureNode {
    FixtureNode { parent: parent.to_string(), name: Some(name.to_string()), kind }
}

#[test]
fn fixture_files_are_listed_by_path_with_sizes() {
    let nodes = vec![
        node("", "zeta.txt", FixtureNodeKind::File { size: 3 }),
        node("", "dir", FixtureNodeKind::Directory { opened: true }),
        node("dir", "b.txt", FixtureNodeKind::File { size: 1 }),
        node("", "a.txt", FixtureNodeKind::File { size: 7 }),
    ];
    let listing = fixture_files_listing("demo".to_string(), "basic", "/p/fixtures/basic", nodes).unwrap();
    assert_eq!(listing.report.status, "ok");
    assert_eq!(listing.report.next_actions, vec!["Use read_fixture_file with one listed relative path."]);
    let files: Vec<(String, u64)> = listing.files.unwrap().into_iter().map(|f| (f.path, f.size)).collect();
    assert_eq!(
        files,
        vec![("a.txt".to_string(), 7), ("dir/b.txt".to_string(), 1), ("zeta.txt".to_string(), 3)]
    );
}

#[test]
fn fixture_trees_with_links_or_special_files_are_blocked() {
    let nodes = vec![
        node("", "ok.txt", FixtureNodeKind::File { size: 1 }),
        node("", "dir", FixtureNodeKind::Directory { opened: true }),
        node("dir", "link", FixtureNodeKind::Symlink),
        node("", "pipe", FixtureNodeKind::Special),
    ];
    let listing = fixture_files_listing("demo".to_string(), "basic", "/p/f", nodes).unwrap();
    assert_eq!(listing.report.status, "blocked");
    assert_eq!(listing.report.path.as_deref(), Some("/p/f"));
    assert_eq!(listing.report.problems, vec!["fixture tree contains a symbolic link: dir/link"]);
    assert!(listing.files.is_none());
    let special = fixture_files_listing("demo".to_string(), "basic", "/p/f", vec![node("", "pipe", FixtureNodeKind::Special)]).unwrap();
    assert_eq!(special.report.problems, vec!["fixture tree contains a special file: pipe"]);
    let unnamed = FixtureNode { parent: String::new(), name: None, kind: FixtureNodeKind::File { size: 1 } };
    let bad = fixture_files_listing("demo".to_string(), "basic", "/p/f", vec![unnamed]).unwrap();
    assert_eq!(bad.report.problems, vec!["fixture path component is not valid UTF-8"]);
    assert_eq!(
        fixture_files_listing("demo".to_string(), "../x", "/p/f", Vec::new()).unwrap_err(),
        "unsafe fixture name: ../x"
    );
}

use deltaforge::bench::{benchmark_settings, BenchmarkOptions};
use deltaforge::config::{BenchConfig, RunnerConfig};

#[test]
fn benchmark_settings_follow_options_then_benchmark_then_defaults() {
    let bench = BenchConfig { iterations: 7, warmup: 2 };
    let runner = RunnerConfig { timeout_ms: 5000, build_timeout_ms: 120000, keep_temp: false };
    let none = BenchmarkOptions { iterations: None, warmup: None, cancellation_path: None };
    let cmd = vec!["scan".to_string()];
    let defaults = benchmark_settings("scan", &cmd, &Vec::new(), "basic", &none, None, None, None, &bench, &runner).unwrap();
    assert_eq!((defaults.iterations, defaults.warmup, defaults.timeout_ms), (7, 2, 5000));
    let own = benchmark_settings("scan", &cmd, &Vec::new(), "basic", &none, Some(3), Some(1), Some(900), &bench, &runner).unwrap();
    assert_eq!((own.iterations, own.warmup, own.timeout_ms), (3, 1, 900));
    let forced = BenchmarkOptions { iterations: Some(10), warmup: Some(0), cancellation_path: None };
    let run = benchmark_settings("scan", &cmd, &Vec::new(), "basic", &forced, Some(3), Some(1), None, &bench, &runner).unwrap();
    assert_eq!((run.iterations, run.warmup, run.timeout_ms), (10, 0, 5000));
}

#[test]
fn benchmarks_that_cannot_run_say_why() {
    let bench = BenchConfig { iterations: 7, warmup: 2 };
    let runner = RunnerConfig { timeout_ms: 5000, build_timeout_ms: 120000, keep_temp: false };
    let none = BenchmarkOptions { iterations: None, warmup: None, cancellation_path: None };
    let cmd = vec!["scan".to_string()];
    assert_eq!(
        benchmark_settings("scan", &Vec::new(), &Vec::new(), "basic", &none, None, None, None, &bench, &runner).unwrap_err(),
        "benchmark scan command is empty"
    );
    let problems = vec!["threads has no values".to_string(), "temp_dir shadows a built-in".to_string()];
    assert_eq!(
        benchmark_settings("scan", &cmd, &problems, "../x", &none, None, None, None, &bench, &runner).unwrap_err(),
        "benchmark scan has an invalid matrix: threads has no values; temp_dir shadows a built-in"
    );
    assert_eq!(
        benchmark_settings("scan", &cmd, &Vec::new(), "../x", &none, None, None, None, &bench, &runner).unwrap_err(),
        "benchmark scan fixture path is unsafe: ../x"
    );
    assert_eq!(
        benchmark_settings("scan", &cmd, &Vec::new(), "basic", &none, Some(0), None, None, &bench, &runner).unwrap_err(),
        "benchmark scan iterations must be greater than 0"
    );
}

use deltaforge::authoring::{stage_document_report, stage_document_target, ReadStageDocumentRequest};
use deltaforge::pack::{CommandSpec, LanguageSpec, LoadedPack, ProjectPack, StageSpec};

fn demo_pack() -> LoadedPack {
    LoadedPack {
        root: "/packs/demo".to_string(),
        manifest: ProjectPack {
            schema_version: 1,
            id: "demo".to_string(),
            name: "Demo".to_string(),
            version: "0.1.0".to_string(),
            description: "d".to_string(),
            topics: Vec::new(),
            languages: vec![(
                "rust".to_string(),
                LanguageSpec { template: "t".to_string(), build: None, run: CommandSpec { command: vec!["run".to_string()] } },
            )],
            ignored_paths: Vec::new(),
            stages: vec![StageSpec { id: "01".to_string(), title: "One".to_string(), path: "stages/01".to_string() }],
        },
    }
}

fn read_request(stage: &str, document: &str) -> ReadStageDocumentRequest {
    ReadStageDocumentRequest {
        project: "demo".to_string(),
        packs_dir: None,
        stage: stage.to_string(),
        document: document.to_string(),
    }
}

#[test]
fn stage_documents_are_found_by_stage_and_name() {
    let pack = demo_pack();
    let (relative, path, optional) = stage_document_target(&pack, &read_request("01", "design_prompt")).unwrap();
    assert_eq!(relative, "stages/01/design_prompt.md");
    assert_eq!(path, "/packs/demo/stages/01/design_prompt.md");
    assert!(optional);
    assert!(!stage_document_target(&pack, &read_request("01", "hints")).unwrap().2);
    assert_eq!(
        stage_document_target(&pack, &read_request("09", "hints")).unwrap_err(),
        "pack demo does not contain stage 09"
    );
    assert_eq!(
        stage_document_target(&pack, &read_request("01", "readme")).unwrap_err(),
        "unsupported stage document readme; expected instructions, hints, or design_prompt"
    );
}

#[test]
fn a_missing_optional_document_is_no_error_but_a_missing_required_one_is() {
    let absent = stage_document_report(
        "demo".to_string(),
        "/p/design_prompt.md",
        "design_prompt",
        true,
        false,
        Err("required file is missing: /p/design_prompt.md".to_string()),
        Err(String::new()),
    );
    assert_eq!(absent.report.status, "ok");
    assert_eq!(
        absent.report.next_actions,
        vec!["The optional design_prompt document is not present; write it only if the stage needs it."]
    );
    assert!(absent.content.is_none());
    let missing = stage_document_report(
        "demo".to_string(),
        "/p/hints.md",
        "hints",
        false,
        false,
        Err("required file is missing: /p/hints.md".to_string()),
        Err(String::new()),
    );
    assert_eq!(missing.report.status, "blocked");
    assert_eq!(missing.report.problems, vec!["required file is missing: /p/hints.md"]);
    let binary = stage_document_report(
        "demo".to_string(),
        "/p/hints.md",
        "hints",
        false,
        true,
        Ok(2),
        Err("invalid utf-8 sequence of 1 bytes from index 0".to_string()),
    );
    assert_eq!(binary.report.problems, vec!["stage document is not valid UTF-8: invalid utf-8 sequence of 1 bytes from index 0"]);
    let large = stage_document_report("demo".to_string(), "/p/hints.md", "hints", false, true, Ok(2_000_000), Err(String::new()));
    assert_eq!(large.report.problems, vec!["file exceeds the 1048576 byte authored-text limit"]);
    let read = stage_document_report("demo".to_string(), "/p/hints.md", "hints", false, true, Ok(5), Ok("# H\n".to_string()));
    assert_eq!(read.report.status, "ok");
    assert_eq!(read.content.as_deref(), Some("# H\n"));
    assert_eq!(read.report.next_actions, vec!["Use write_stage_document to replace this exact document if needed."]);
}

use deltaforge::location::{doctor_tools, ToolStatus};

fn tool(program: &str, required: bool, version: Option<&str>) -> ToolStatus {
    ToolStatus {
        program: program.to_string(),
        label: program.to_uppercase(),
        found: version.is_some(),
        version: version.map(str::to_string),
        install_url: None,
        required,
    }
}

#[test]
fn doctor_lists_each_tool_once_in_program_order() {
    let found = vec![
        tool("rustc", true, Some("rustc 1.80")),
        tool("cargo", true, Some("cargo 1.80")),
        tool("rustc", false, None),
        tool("python3", true, None),
    ];
    let tools = doctor_tools(found, Some("git version 2.45".to_string()));
    let programs: Vec<&str> = tools.iter().map(|t| t.program.as_str()).collect();
    assert_eq!(programs, vec!["cargo", "git", "python3", "rustc"]);
    assert!(tools[3].required);
    assert_eq!(tools[1].label, "Git");
    assert!(!tools[1].required);
    assert_eq!(tools[1].version.as_deref(), Some("git version 2.45"));
    assert_eq!(tools[1].install_url.as_deref(), Some("https://git-scm.com/downloads"));

    let with_git = doctor_tools(vec![tool("git", false, None), tool("cargo", true, None)], Some("ignored".to_string()));
    let programs: Vec<&str> = with_git.iter().map(|t| t.program.as_str()).collect();
    assert_eq!(programs, vec!["cargo", "git"]);
    assert_eq!(with_git[1].label, "GIT");
}
