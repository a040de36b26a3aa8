use deltaforge::pack::{CommandSpec, LanguageSpec, ProjectPack, StageSpec};
use deltaforge::project::{stage_needs_revalidation, verify_completion_proof, CompletionProof};
use deltaforge::session::{begin_next_capability, learner_note, source_baseline, source_observation_needed};

fn manifest() -> ProjectPack {
    ProjectPack {
        schema_version: 1,
        id: "demo".to_string(),
        name: "Demo".to_string(),
        version: "0.1.0".to_string(),
        description: "d".to_string(),
        topics: Vec::new(),
        languages: vec![(
            "rust".to_string(),
            LanguageSpec {
                template: "t".to_string(),
                build: None,
                run: CommandSpec { command: vec!["run".to_string()] },
            },
        )],
        ignored_paths: Vec::new(),
        stages: vec![
            StageSpec { id: "01".to_string(), title: "One".to_string(), path: "s/01".to_string() },
            StageSpec { id: "02".to_string(), title: "Two".to_string(), path: "s/02".to_string() },
        ],
    }
}

#[test]
fn notes_are_trimmed_and_bounded() {
    assert_eq!(learner_note("  guess  ", false).unwrap(), "guess");
    assert_eq!(learner_note("   ", true).unwrap(), "");
    assert_eq!(learner_note(" ", false).unwrap_err(), "write a prediction or skip it");
    assert_eq!(
        learner_note(&"x".repeat(4097), false).unwrap_err(),
        "the note is longer than DeltaForge stores for one step"
    );
}

#[test]
fn source_observation_starts_from_the_last_run() {
    assert!(source_observation_needed("", "d1", 0, 0));
    assert!(source_observation_needed("d0", "d1", 0, 0));
    assert!(source_observation_needed("d1", "d1", 1, 2));
    assert!(!source_observation_needed("d1", "d1", 2, 2));
    assert_eq!(source_baseline(Some("run"), "now"), "run");
    assert_eq!(source_baseline(Some(""), "now"), "now");
    assert_eq!(source_baseline(None, "now"), "now");
}

#[test]
fn moving_on_needs_a_standing_completion() {
    let m = manifest();
    assert_eq!(begin_next_capability(&m, "01", true, None, true, None).unwrap(), "02");
    assert_eq!(
        begin_next_capability(&m, "01", false, None, true, None).unwrap_err(),
        "the current capability has not been acquired yet"
    );
    assert_eq!(
        begin_next_capability(&m, "01", true, None, true, Some("gate".to_string())).unwrap_err(),
        "gate"
    );
    assert_eq!(begin_next_capability(&m, "01", true, None, false, Some("gate".to_string())).unwrap(), "02");
    assert_eq!(
        begin_next_capability(&m, "02", true, None, true, None).unwrap_err(),
        "the project has no later capability"
    );
}

#[test]
fn completion_proofs_go_stale_with_the_pack_or_the_project() {
    let legacy = CompletionProof {
        pack_digest: "p1".to_string(),
        behavioral_digest: String::new(),
        project_digest: "w1".to_string(),
    };
    assert!(!stage_needs_revalidation(Some(&legacy), Some("p1"), None));
    assert!(stage_needs_revalidation(Some(&legacy), Some("p2"), None));
    let modern = CompletionProof {
        pack_digest: "p1".to_string(),
        behavioral_digest: "b1".to_string(),
        project_digest: "w1".to_string(),
    };
    assert!(!stage_needs_revalidation(Some(&modern), None, Some("b1")));
    assert!(stage_needs_revalidation(None, None, None));
    assert!(verify_completion_proof("01", Some(&modern), false, "w1").is_ok());
    assert_eq!(
        verify_completion_proof("01", Some(&modern), false, "w2").unwrap_err(),
        "learner project changed since stage 01 passed; its checks need to pass again"
    );
    assert_eq!(
        verify_completion_proof("01", None, false, "w1").unwrap_err(),
        "stage 01 has no current completion record; its checks need to pass again"
    );
    assert_eq!(
        verify_completion_proof("01", Some(&modern), true, "w1").unwrap_err(),
        "stage 01 passed against an older version of this pack and must be revalidated by passing its checks again"
    );
}
