use deltaforge::pack::{
    accept_pack, check_pack_id, validate_pack, CommandSpec, LanguageSpec, LoadedPack, PackFacts, ProjectPack,
    StageFacts, StageSpec,
};

/// The bundled flashindex pack as its manifest describes it: a Rust pack
/// whose first stages scan and then filter files.
fn flashindex() -> LoadedPack {
    let stage = |id: &str, title: &str| StageSpec {
        id: id.to_string(),
        title: title.to_string(),
        path: format!("stages/{id}"),
    };
    let pack = LoadedPack {
        root: "packs/flashindex".to_string(),
        manifest: ProjectPack {
            schema_version: 1,
            id: "flashindex".to_string(),
            name: "FlashIndex".to_string(),
            version: "0.1.0".to_string(),
            description: "Build a fast file indexer.".to_string(),
            topics: vec!["filesystems".to_string()],
            languages: vec![(
                "rust".to_string(),
                LanguageSpec {
                    template: "templates/rust".to_string(),
                    build: Some(CommandSpec { command: vec!["cargo".to_string(), "build".to_string()] }),
                    run: CommandSpec { command: vec!["{project_root}/target/debug/flashindex".to_string()] },
                },
            )],
            ignored_paths: vec!["target".to_string()],
            stages: vec![stage("01_scan_files", "Scan files"), stage("02_filter_files", "Filter files")],
        },
    };
    check_pack_id("flashindex").unwrap();
    let problems = validate_pack(&pack, &present(&pack));
    accept_pack("flashindex", "packs/flashindex/project.yaml", &pack.manifest, &problems).unwrap();
    pack
}

fn present(pack: &LoadedPack) -> PackFacts {
    PackFacts {
        templates_present: vec![true; pack.manifest.languages.len()],
        stages: pack
            .manifest
            .stages
            .iter()
            .map(|_| StageFacts {
                dir_present: true,
                instructions_present: true,
                hints_present: true,
                tests_present: true,
                tests_problems: Vec::new(),
                benchmark_problems: Vec::new(),
            })
            .collect(),
    }
}

#[test]
fn loads_flashindex_pack() {
    let pack = flashindex();

    assert_eq!(pack.manifest.id, "flashindex");
    assert!(pack.manifest.language("rust").is_some());
    assert_eq!(pack.manifest.first_stage().unwrap().id, "01_scan_files");
    assert_eq!(pack.manifest.next_stage("01_scan_files").unwrap().id, "02_filter_files");
}

#[test]
fn flashindex_pack_validates() {
    let pack = flashindex();
    assert_eq!(validate_pack(&pack, &present(&pack)), Vec::<String>::new());
}
