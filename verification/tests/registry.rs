use deltaforge::registry::{application_home_for, HomeEnv, Platform};

fn locate(platform: Platform, values: &[(&str, &str)]) -> Result<String, String> {
    let get = |name: &str| {
        values
            .iter()
            .find(|(key, _)| *key == name)
            .map(|(_, value)| value.to_string())
    };
    let env = HomeEnv {
        deltaforge_home: get("DELTAFORGE_HOME"),
        local_app_data: get("LOCALAPPDATA"),
        user_profile: get("USERPROFILE"),
        home: get("HOME"),
        xdg_data_home: get("XDG_DATA_HOME"),
    };
    application_home_for(platform, &env)
}

#[test]
fn application_home_uses_each_platforms_data_directory() {
    assert_eq!(
        locate(
            Platform::LinuxOrUnix,
            &[("XDG_DATA_HOME", "/data"), ("HOME", "/home/learner")]
        )
        .unwrap(),
        "/data/deltaforge"
    );
    assert_eq!(
        locate(Platform::LinuxOrUnix, &[("HOME", "/home/learner")]).unwrap(),
        "/home/learner/.local/share/deltaforge"
    );
    assert_eq!(
        locate(Platform::MacOs, &[("HOME", "/Users/learner")]).unwrap(),
        "/Users/learner/Library/Application Support/DeltaForge"
    );
    assert_eq!(
        locate(
            Platform::Windows,
            &[("LOCALAPPDATA", r"C:\Users\learner\AppData\Local")]
        )
        .unwrap(),
        std::path::Path::new(r"C:\Users\learner\AppData\Local")
            .join("DeltaForge")
            .to_string_lossy()
    );
}

#[test]
fn windows_never_uses_git_bash_home_for_application_data() {
    let found = locate(
        Platform::Windows,
        &[
            ("HOME", r"C:\msys64\home\learner"),
            ("USERPROFILE", r"C:\Users\learner"),
        ],
    )
    .unwrap();
    assert_eq!(
        found,
        std::path::Path::new(r"C:\Users\learner")
            .join("AppData")
            .join("Local")
            .join("DeltaForge")
            .to_string_lossy()
    );
}

#[test]
fn explicit_application_home_wins_on_every_platform() {
    for platform in [Platform::LinuxOrUnix, Platform::MacOs, Platform::Windows] {
        assert_eq!(
            locate(
                platform,
                &[
                    ("DELTAFORGE_HOME", "/explicit"),
                    ("HOME", "/ignored"),
                    ("LOCALAPPDATA", "/also-ignored"),
                ],
            )
            .unwrap(),
            "/explicit"
        );
    }
}
