use deltaforge::diagnosis::{record_failed_test, TestDiagnosis, TestDiagnostic, TestInput, TestResult};
use deltaforge::health::{classify_project_health_error, sanitize_project_text};

#[test]
fn extended_length_roots_do_not_leak_the_ordinary_windows_path() {
    let root = r"\\?\C:\Users\learner\AppData\Local\Temp\project";

    assert_eq!(
        sanitize_project_text(
            &[
                r"Compiling flashindex (C:\Users\learner\AppData\Local\Temp\project)",
                "\n",
                r"canonical \\?\C:\Users\learner\AppData\Local\Temp\project",
                "\n",
                r#"json "C:\\Users\\learner\\AppData\\Local\\Temp\\project""#,
                "\nportable C:/Users/learner/AppData/Local/Temp/project",
            ].concat(),
            root,
        ),
        [
            "Compiling flashindex ({project_root})\n",
            "canonical {project_root}\n",
            r#"json "{project_root}""#,
            "\nportable {project_root}",
        ].concat()
    );
    assert!(
        !sanitize_project_text(r"at C:\Users\learner\AppData\Local\Temp\project\src", root)
            .contains("learner")
    );
}

#[test]
fn unc_and_plain_roots_are_still_redacted() {
    assert_eq!(
        sanitize_project_text(r"at \\server\share\project\src", r"\\?\UNC\server\share\project"),
        "at {project_root}\\src"
    );
    assert_eq!(
        sanitize_project_text("at /home/learner/project/src", "/home/learner/project"),
        "at {project_root}/src"
    );
}

#[test]
fn project_health_errors_choose_actionable_recovery() {
    let config = classify_project_health_error(
        "failed to parse project/.deltaforge/config.toml: invalid value",
    );
    assert_eq!(config.0, "configuration_invalid");
    assert!(!config.3);

    let pack = classify_project_health_error(
        "pack contents changed since project initialization. Run `deltaforge sync-pack`",
    );
    assert_eq!(pack.0, "pack_changed");
    assert!(pack.3);
}

#[test]
fn a_runner_failure_precedes_pack_behavior_priorities() {
    let result = TestResult {
        name: "scans files in a basic project".to_string(),
        passed: false,
        diagnosis: Some(TestDiagnosis {
            priority: 10,
            headline: "Your scanner did not report required files".to_string(),
            contract: "Every regular file must be reported.".to_string(),
        }),
        failures: vec!["command timed out".to_string()],
        diagnostics: vec![TestDiagnostic {
            kind: "runner",
            title: "The test command did not finish".to_string(),
            summary: "command timed out".to_string(),
            expected: None,
            actual: None,
        }],
        expectations: Vec::new(),
        actual_exit_code: None,
        duration_ms: Some(100),
        stdout: String::new(),
        stderr: String::new(),
        report_stdout: None,
        report_stderr: None,
        input: Some(TestInput {
            command: vec!["{project_root}/target/debug/flashindex".to_string()],
            stdin: None,
            env: Vec::new(),
            timeout_ms: 100,
            working_directory: "{project_root}".to_string(),
            fixture_name: Some("basic_project".to_string()),
            fixture: None,
        }),
        kept_temp_dir: None,
    };

    let failure = record_failed_test(&result);
    let diagnosis = failure.diagnosis.unwrap();
    assert_eq!(diagnosis.priority, 1);
    assert_eq!(diagnosis.headline, "The test command did not finish");
    assert!(diagnosis.contract.contains("configured timeout"));
    assert_eq!(
        diagnosis.expected.as_deref(),
        Some("The command finishes successfully within 100 ms")
    );
    assert_eq!(diagnosis.actual.as_deref(), Some("command timed out"));
}
