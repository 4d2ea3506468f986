use works_after_reinstall::manifest::{
    current_version, App, AppDetail, FileCopy, Files, Manifest, ManifestError, WindowsSettings,
    CURRENT_VERSION,
};

#[test]
fn rejects_newer_manifest_versions() {
    let manifest = Manifest {
        version: CURRENT_VERSION + 1,
        ..Default::default()
    };
    assert!(manifest.validate().is_err());
}

#[test]
fn spots_empty_settings_sections() {
    let settings = WindowsSettings {
        dark_mode: Some(true),
        ..Default::default()
    };
    assert!(!settings.is_empty());
    assert!(WindowsSettings::default().is_empty());
}

#[test]
fn reads_the_parts_of_an_app_entry() {
    let plain = App::Id("Git.Git".to_string());
    assert_eq!(plain.id(), "Git.Git");
    assert_eq!(plain.source(), None);
    assert_eq!(plain.arguments(), None);

    let store = App::Detailed(AppDetail {
        id: "XP89DCGQ3K6VLD".to_string(),
        source: Some("msstore".to_string()),
        arguments: None,
    });
    assert_eq!(store.id(), "XP89DCGQ3K6VLD");
    assert_eq!(store.source(), Some("msstore"));
    assert_eq!(store.arguments(), None);
}

#[test]
fn validation_names_the_first_problem() {
    let mut manifest = Manifest {
        version: current_version(),
        apps: vec![App::Id("Git.Git".to_string()), App::Id("  ".to_string())],
        ..Default::default()
    };
    assert_eq!(manifest.validate(), Err(ManifestError::AppWithoutId));

    manifest.apps.pop();
    manifest.files = Files {
        copy: vec![FileCopy {
            source: "files/gitconfig".to_string(),
            destination: " ".to_string(),
        }],
    };
    assert_eq!(manifest.validate(), Err(ManifestError::CopyWithoutDestination));
    assert_eq!(
        ManifestError::CopyWithoutDestination.message(),
        "files.copy contains an entry without a destination"
    );

    manifest.files.copy[0].destination = r"%USERPROFILE%\.gitconfig".to_string();
    assert_eq!(manifest.validate(), Ok(()));
}

#[test]
fn newer_versions_are_named_in_the_message() {
    let manifest = Manifest {
        version: 7,
        ..Default::default()
    };
    let error = manifest.validate().unwrap_err();
    assert_eq!(error, ManifestError::NewerVersion { version: 7, max: 1 });
    assert_eq!(
        error.message(),
        "manifest version 7 is newer than this build understands (max 1)"
    );
}
