use deltaforge::authoring::{
    diagnose_pack, update_pack_metadata, update_stage_metadata, AddStageRequest, NewPackRequest,
    UpdatePackMetadataRequest,
};
use deltaforge::location::{
    first_version_line, language_tools, preflight, CreationPolicy, LocationFacts, ParentState,
    ToolRequirement,
};
use deltaforge::pack::{CommandSpec, LanguageSpec, LoadedPack, ProjectPack, StageSpec};
use deltaforge::pack_checks::{validate_stage_tests_source, Expectations, StageTest};
use deltaforge::scaffold::{add_stage, create_pack};
use deltaforge::scratch::{scratch_dir_name, scratch_name};
use deltaforge::stage_view::{load_current, project_overview, roadmap, RoadmapStatus};

fn stage(id: &str, title: &str, path: &str) -> StageSpec {
    StageSpec {
        id: id.to_string(),
        title: title.to_string(),
        path: path.to_string(),
    }
}

fn demo_pack() -> LoadedPack {
    LoadedPack {
        root: "/packs/demo".to_string(),
        manifest: ProjectPack {
            schema_version: 1,
            id: "demo".to_string(),
            name: "Demo".to_string(),
            version: "0.1.0".to_string(),
            description: "A demo pack".to_string(),
            topics: vec!["systems".to_string()],
            languages: vec![(
                "rust".to_string(),
                LanguageSpec {
                    template: "templates/rust".to_string(),
                    build: None,
                    run: CommandSpec {
                        command: vec!["cargo".to_string(), "run".to_string()],
                    },
                },
            )],
            ignored_paths: Vec::new(),
            stages: vec![stage("01", "Scan Files", "s/01"), stage("02", "Filter", "s/02")],
        },
    }
}

fn policy() -> CreationPolicy {
    CreationPolicy {
        default_parent: "/home/l/DeltaForge".to_string(),
        permitted_roots: vec!["/home/l".to_string()],
    }
}

fn facts(canonical: &str) -> LocationFacts {
    LocationFacts {
        requested_is_dir: true,
        requested_exists: true,
        canonical_parent: Ok(canonical.to_string()),
        canonical_roots: vec![Some("/home/l".to_string())],
        enclosing_project: None,
        target_exists: false,
    }
}

#[test]
fn a_location_inside_the_home_directory_resolves() {
    let resolved = policy()
        .resolve(Some("/home/l/work"), "flash", &facts("/home/l/work"))
        .unwrap();
    assert_eq!(resolved.target, "/home/l/work/flash");
    assert_eq!(resolved.parent_state, ParentState::Exists);
}

#[test]
fn locations_are_refused_for_each_reason() {
    assert_eq!(
        policy().resolve(Some("work"), "flash", &facts("/x")).unwrap_err(),
        "the location must be an absolute path"
    );
    assert_eq!(
        policy()
            .resolve(Some("/etc"), "flash", &facts("/etc"))
            .unwrap_err(),
        "DeltaForge only creates projects inside your home directory, or the directory named by DELTAFORGE_WORKSPACE; /etc is outside both"
    );
    assert_eq!(
        policy()
            .resolve(Some("/home/l/.ssh"), "flash", &facts("/home/l/.ssh"))
            .unwrap_err(),
        "DeltaForge does not create projects inside the hidden directory .ssh"
    );
    let mut nested = facts("/home/l/proj");
    nested.enclosing_project = Some("/home/l/proj".to_string());
    assert_eq!(
        policy().resolve(Some("/home/l/proj"), "flash", &nested).unwrap_err(),
        "/home/l/proj is inside the DeltaForge project at /home/l/proj; choose a location outside it"
    );
    let mut taken = facts("/home/l/work");
    taken.target_exists = true;
    assert_eq!(
        policy().resolve(Some("/home/l/work"), "flash", &taken).unwrap_err(),
        "/home/l/work/flash already exists"
    );
    assert!(policy().resolve(None, "..", &facts("/home/l")).is_err());
}

#[test]
fn the_default_workspace_may_be_created() {
    let missing = LocationFacts {
        requested_is_dir: false,
        requested_exists: false,
        canonical_parent: Ok("/home/l/DeltaForge".to_string()),
        canonical_roots: vec![Some("/home/l".to_string())],
        enclosing_project: None,
        target_exists: false,
    };
    let resolved = policy().resolve(None, "flash", &missing).unwrap();
    assert_eq!(resolved.parent_state, ParentState::Creatable);
    assert_eq!(
        policy()
            .resolve(Some("/home/l/typo"), "flash", &missing)
            .unwrap_err(),
        "/home/l/typo is not an existing directory"
    );
}

#[test]
fn preflight_needs_every_required_tool() {
    let requirements = vec![ToolRequirement {
        program: "cargo".to_string(),
        label: Some("Cargo".to_string()),
        install_url: None,
    }];
    let tools = language_tools(&requirements, vec![None], Some("git version 2".to_string()));
    assert_eq!(tools.len(), 2);
    assert_eq!(tools[1].label, "Git");
    let resolved = policy().resolve(Some("/home/l/work"), "flash", &facts("/home/l/work"));
    let check = preflight(tools, "/home/l/work".to_string(), resolved);
    assert!(check.location.ok);
    assert!(!check.ok);
    assert_eq!(
        first_version_line("  cargo 1.80.0 (abc)\nmore\n").as_deref(),
        Some("cargo 1.80.0 (abc)")
    );
    assert!(first_version_line("\n").is_none());
}

#[test]
fn scratch_names_carry_thirty_two_hex_digits() {
    let name = scratch_name("deltaforge-test", &[0xab; 16]);
    assert_eq!(name, format!("deltaforge-test-{}", "ab".repeat(16)));
    let fresh = scratch_dir_name("p").unwrap();
    assert_eq!(fresh.len(), 2 + 32);
    assert!(fresh[2..].chars().all(|c| c.is_ascii_hexdigit()));
}

#[test]
fn overview_and_roadmap_come_from_the_guides() {
    let pack = demo_pack();
    let readme = "# Demo\n\n## What you are building\n\nA scanner.\n\nIt has parts:\n\n## Why this is useful\n\nBecause.\n";
    let overview = project_overview(&pack.manifest, readme);
    assert_eq!(overview.context, vec!["A scanner."]);
    assert_eq!(overview.why, vec!["Because."]);
    assert_eq!(overview.capability_count, 2);
    let guides = vec![
        "## Goal\n\nList every file.\n".to_string(),
        "## Goal\n\nKeep some.\n".to_string(),
    ];
    let steps = roadmap(&pack.manifest.stages, "02", &vec![true, false], &guides).unwrap();
    assert_eq!(steps[0].status, RoadmapStatus::Complete);
    assert_eq!(steps[1].status, RoadmapStatus::Current);
    assert!(steps[1].current);
    assert_eq!(steps[1].summary, "Keep some.");
    assert!(roadmap(&pack.manifest.stages, "02", &vec![true, false], &vec![String::new(), String::new()]).is_err());
}

#[test]
fn current_content_reveals_help_up_to_the_recorded_level() {
    let pack = demo_pack();
    let full = "## Goal\n\nList every file.\n\n## Background\n\nb\n\n## Requirements\n\nr\n\n## Example\n\ne\n\n## Success criteria\n\ns\n\n## Edge cases\n\nc\n\n## Non-goals\n\nn\n";
    let guides = vec![full.to_string(), "## Goal\n\nKeep some.\n".to_string()];
    let hints = "# Hint 1 — One\n\nFirst.\n\n# Hint 2 — Two\n\nSecond.\n\n# Hint 3 — Three\n\nThird.\n";
    let content = load_current(&pack, "01", &vec![false, false], 1, &guides, hints, "").unwrap();
    assert_eq!(content.mission, "List every file.");
    assert_eq!(content.help_levels, 3);
    assert_eq!(content.available_help_levels, 2);
    assert_eq!(content.revealed_help.len(), 1);
    assert_eq!(content.capability_statement, "Your program can now scan files.");
    assert_eq!(content.next.unwrap().summary, "Keep some.");
    assert_eq!(
        load_current(&pack, "09", &vec![false, false], 0, &guides, hints, "").unwrap_err(),
        "pack does not contain current stage 09"
    );
}

#[test]
fn metadata_updates_apply_only_when_every_value_is_acceptable() {
    let mut manifest = demo_pack().manifest;
    let request = UpdatePackMetadataRequest {
        project: "demo".to_string(),
        packs_dir: "/packs".to_string(),
        name: Some("Renamed".to_string()),
        description: None,
        version: Some(" ".to_string()),
        topics: None,
    };
    assert_eq!(
        update_pack_metadata(&mut manifest, &request).unwrap_err(),
        "pack version must not be empty"
    );
    assert_eq!(manifest.name, "Demo");
    let good = UpdatePackMetadataRequest {
        version: Some("0.2.0".to_string()),
        topics: Some(vec!["cli".to_string()]),
        ..request
    };
    update_pack_metadata(&mut manifest, &good).unwrap();
    assert_eq!(manifest.name, "Renamed");
    assert_eq!(manifest.version, "0.2.0");
    assert_eq!(manifest.topics, vec!["cli"]);
    update_stage_metadata(&mut manifest, "demo", "02", "Keep Some").unwrap();
    assert_eq!(manifest.stages[1].title, "Keep Some");
    assert_eq!(
        update_stage_metadata(&mut manifest, "demo", "07", "X").unwrap_err(),
        "pack demo does not contain stage 07"
    );
}

#[test]
fn scaffolds_plan_every_file() {
    let request = NewPackRequest {
        id: "demo".to_string(),
        name: "Demo".to_string(),
        description: "d".to_string(),
        dest: "/packs".to_string(),
        language: "rust".to_string(),
        force: false,
    };
    let plan = create_pack(&request, false).unwrap();
    assert_eq!(plan.root, "/packs/demo");
    assert_eq!(plan.files.len(), 8);
    assert!(plan.files[1].1.contains("name = \"demo\""));
    assert_eq!(
        plan.report.next_actions[3],
        "Run: deltaforge --packs-dir /packs validate-pack demo"
    );
    assert_eq!(
        create_pack(&request, true).unwrap_err(),
        "pack directory already exists: /packs/demo\nUse --force to replace it."
    );
    let stage_request = AddStageRequest {
        pack_dir: "/packs/demo".to_string(),
        id: "02_next".to_string(),
        title: "Next".to_string(),
        force: false,
    };
    let stage_plan = add_stage(&stage_request, &vec!["01_first_stage".to_string()], false).unwrap();
    assert_eq!(stage_plan.stage_dir, "/packs/demo/stages/02_next");
    assert!(stage_plan.files[0].1.starts_with("# Next\n"));
    assert_eq!(
        add_stage(&stage_request, &vec!["02_next".to_string()], false).unwrap_err(),
        "stage 02_next already exists"
    );
}

#[test]
fn the_doctor_finds_scaffold_placeholders() {
    let pack = demo_pack();
    let report = diagnose_pack(
        &pack,
        Vec::new(),
        true,
        &vec![
            (Some("Replace Me with the behaviour".to_string()), None),
            (None, Some("command: [replace-me]".to_string())),
        ],
    );
    assert_eq!(report.status, "blocked");
    assert_eq!(
        report.problems,
        vec![
            "stage 01 instructions still contain scaffold placeholder text",
            "stage 02 tests still contain scaffold placeholder text",
        ]
    );
    let clean = diagnose_pack(&pack, Vec::new(), true, &vec![(None, None), (None, None)]);
    assert!(clean.is_ok());
}

#[test]
fn test_files_need_assertions_and_safe_paths() {
    let pack = demo_pack();
    let s = &pack.manifest.stages[0];
    let empty = Expectations {
        exit_code: None,
        stdout_exact: None,
        stdout_contains: Vec::new(),
        stdout_not_contains: Vec::new(),
        stderr_contains: Vec::new(),
        file_exists: vec!["../out".to_string()],
        file_not_exists: Vec::new(),
        file_contains_paths: Vec::new(),
        regex_match: Vec::new(),
        json_equals: None,
        timeout_ms: Some(0),
    };
    let parsed: Result<Vec<StageTest>, String> = Ok(vec![StageTest {
        name: "t".to_string(),
        command: Vec::new(),
        expect: empty,
        fixture: Some("/abs".to_string()),
    }]);
    assert_eq!(
        validate_stage_tests_source(&pack, s, &parsed, &vec![true]),
        vec![
            "stage 01 test t command is empty",
            "stage 01 test t timeout_ms must be greater than 0",
            "stage 01 test t expectation path is unsafe: ../out",
            "stage 01 test t fixture path is unsafe: /abs",
        ]
    );
}
