use std::collections::BTreeSet;

use works_after_reinstall::catalog::{catalog_apps, categories, starter_manifest, StarterChoices};
use works_after_reinstall::manifest::App;

#[test]
fn every_app_has_a_category_from_the_list() {
    let known: BTreeSet<&str> = categories().into_iter().collect();
    for app in catalog_apps() {
        assert!(
            known.contains(app.category),
            "{} uses unknown category {}",
            app.id,
            app.category
        );
    }
}

#[test]
fn app_ids_are_unique_and_look_like_package_ids() {
    let mut seen = BTreeSet::new();
    for app in catalog_apps() {
        assert!(seen.insert(app.id), "duplicate id {}", app.id);
        assert!(!app.id.contains(' '), "{} looks wrong", app.id);
        assert!(!app.name.is_empty());
    }
}

#[test]
fn every_category_has_at_least_one_app() {
    for category in categories() {
        assert!(
            catalog_apps().iter().any(|app| app.category == category),
            "{category} is empty"
        );
    }
}

#[test]
fn starter_manifest_carries_the_chosen_apps_and_defaults() {
    let ids = vec!["Git.Git".to_string(), "VideoLAN.VLC".to_string()];
    let manifest = starter_manifest(
        &ids,
        StarterChoices {
            windows_settings: true,
            environment: true,
        },
    );

    assert_eq!(manifest.apps.len(), 2);
    assert_eq!(manifest.apps[0], App::Id("Git.Git".to_string()));
    assert_eq!(manifest.windows.show_file_extensions, Some(true));
    assert_eq!(manifest.windows.developer_mode, Some(true));
    assert_eq!(manifest.windows.show_hidden_files, None);
    assert_eq!(
        manifest
            .environment
            .variables
            .iter()
            .find(|(name, _)| name == "EDITOR")
            .map(|(_, value)| value),
        Some(&"code".to_string())
    );
    assert!(manifest.files.copy.is_empty());
}

#[test]
fn starter_manifest_can_leave_the_extras_out() {
    let manifest = starter_manifest(
        &[],
        StarterChoices {
            windows_settings: false,
            environment: false,
        },
    );

    assert!(manifest.windows.is_empty());
    assert!(manifest.environment.is_empty());
    assert!(manifest.apps.is_empty());
}

#[test]
fn the_starter_manifest_passes_validation_and_is_stamped() {
    let ids = vec!["Git.Git".to_string()];
    let manifest = starter_manifest(
        &ids,
        StarterChoices {
            windows_settings: true,
            environment: true,
        },
    );
    assert_eq!(manifest.validate(), Ok(()));
    let stamp = manifest.exported_at.unwrap();
    assert_eq!(stamp.len(), "2026-09-18T18:54:27Z".len());
    assert!(stamp.ends_with('Z'));
}

#[test]
fn catalog_entries_keep_their_names_and_ids() {
    let apps = catalog_apps();
    assert_eq!(apps.len(), 48);
    assert_eq!((apps[0].category, apps[0].name, apps[0].id), ("Browsers", "Chrome", "Google.Chrome"));
    assert_eq!((apps[1].name, apps[1].id), ("Firefox", "Mozilla.Firefox"));
    assert_eq!((apps[47].category, apps[47].name, apps[47].id), ("Gaming", "GOG Galaxy", "GOG.Galaxy"));
}
