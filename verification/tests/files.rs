use std::collections::BTreeSet;

use works_after_reinstall::files::{
    destination_for, destination_for_home, file_name, file_step, known_files, nothing_to_restore, plan_capture,
    resolve_source, unique_name, IncludedFile,
};
use works_after_reinstall::manifest::FileCopy;

fn test_vars() -> Vec<(String, String)> {
    vec![
        ("USERPROFILE".to_string(), r"C:\Users\tester".to_string()),
        ("APPDATA".to_string(), r"C:\Users\tester\AppData\Roaming".to_string()),
    ]
}

#[test]
fn turns_home_paths_into_portable_destinations() {
    let home = r"C:\Users\tester";
    assert_eq!(
        destination_for_home(r"C:\Users\tester\.ssh\config", Some(home)),
        r"%USERPROFILE%\.ssh\config"
    );
}

#[test]
fn keeps_paths_outside_home_absolute() {
    let home = r"C:\Users\tester";
    assert_eq!(
        destination_for_home(r"D:\shared\tool.config", Some(home)),
        r"D:\shared\tool.config"
    );
}

#[test]
fn falls_back_when_home_is_unknown() {
    assert_eq!(
        destination_for_home(r"C:\Users\tester\.gitconfig", None),
        r"C:\Users\tester\.gitconfig"
    );
}

#[test]
fn avoids_bundle_name_collisions() {
    let mut used = Vec::new();
    assert_eq!(unique_name("config", &mut used), "config");
    assert_eq!(unique_name("config", &mut used), "config.2");
    assert_eq!(unique_name("config", &mut used), "config.3");
}

#[test]
fn known_files_have_unique_bundle_names_and_destinations() {
    let mut names = BTreeSet::new();
    let mut destinations = BTreeSet::new();
    for known in known_files() {
        assert!(
            names.insert(known.bundle_name),
            "duplicate {}",
            known.bundle_name
        );
        assert!(
            destinations.insert(known.destination.to_ascii_lowercase()),
            "duplicate {}",
            known.destination
        );
    }
}

#[test]
fn resolves_bundle_relative_sources() {
    assert_eq!(
        resolve_source(r"D:\bundle", "files/gitconfig", &test_vars()).replace('/', "\\"),
        r"D:\bundle\files\gitconfig"
    );
}

#[test]
fn absolute_sources_stay_where_they_are() {
    assert_eq!(
        resolve_source(r"D:\bundle", r"%USERPROFILE%\x.txt", &test_vars()),
        r"C:\Users\tester\x.txt"
    );
    assert_eq!(
        resolve_source(r"D:\bundle\", "a", &test_vars()),
        r"D:\bundle\a"
    );
}

#[test]
fn home_prefix_is_matched_by_whole_components() {
    let home = r"C:\Users\tester";
    assert_eq!(
        destination_for_home(r"C:\Users\tester2\x", Some(home)),
        r"C:\Users\tester2\x"
    );
    assert_eq!(
        destination_for_home(r"C:/Users/tester/a/b", Some(home)),
        r"%USERPROFILE%\a/b"
    );
    assert_eq!(
        destination_for(r"C:\Users\tester\notes.txt", &test_vars()),
        r"%USERPROFILE%\notes.txt"
    );
}

#[test]
fn names_files_by_their_last_component() {
    let name = |path: &str| file_name(&path.chars().collect::<Vec<_>>()).map(|n| n.into_iter().collect::<String>());
    assert_eq!(name(r"C:\x\settings.json"), Some("settings.json".to_string()));
    assert_eq!(name(r"C:\x\dir\"), Some("dir".to_string()));
    assert_eq!(name(r"C:\x\.."), None);
    assert_eq!(name(""), None);
}

#[test]
fn capture_plan_takes_present_files_and_skips_taken_destinations() {
    let known = known_files();
    let mut present = vec![false; known.len()];
    present[0] = true;
    let includes = vec![
        IncludedFile { path: r"%USERPROFILE%\.gitconfig".to_string(), is_file: true },
        IncludedFile { path: r"D:\tools\gitconfig".to_string(), is_file: true },
        IncludedFile { path: r"D:\missing".to_string(), is_file: false },
        IncludedFile { path: r"D:\later".to_string(), is_file: true },
    ];
    let plan = plan_capture(&present, &includes, &test_vars());
    assert_eq!(plan.copies.len(), 2);
    assert_eq!(plan.copies[0].entry.source, "files/gitconfig");
    assert_eq!(plan.copies[0].entry.destination, r"%USERPROFILE%\.gitconfig");
    assert_eq!(plan.copies[0].from, r"C:\Users\tester/.gitconfig");
    assert_eq!(plan.copies[1].name, "gitconfig.2");
    assert_eq!(plan.copies[1].entry.destination, r"D:\tools\gitconfig");
    assert_eq!(plan.error, Some(r"cannot include D:\missing: not a file".to_string()));
}

#[test]
fn restoring_no_files_reports_nothing_to_restore() {
    assert_eq!(nothing_to_restore(&[]), Some("  nothing to restore".to_string()));
    let one = vec![FileCopy { source: "files/a".to_string(), destination: r"C:\a".to_string() }];
    assert_eq!(nothing_to_restore(&one), None);
}

#[test]
fn each_file_step_reports_and_copies_as_the_files_stand() {
    let missing = file_step("files/a", r"B:\files/a", r"C:\a", false, false, false);
    assert_eq!(missing.error.as_deref(), Some(r"bundle is missing B:\files/a"));
    assert_eq!(missing.line, None);
    assert!(!missing.copy);

    let same = file_step("files/a", r"B:\files/a", r"C:\a", true, true, false);
    assert_eq!(same.error, None);
    assert_eq!(same.line.as_deref(), Some(r"  C:\a unchanged"));
    assert!(!same.copy);

    let copy = file_step("files/a", r"B:\files/a", r"C:\a", true, false, false);
    assert_eq!(copy.line.as_deref(), Some(r"  files/a -> C:\a"));
    assert!(copy.copy);

    let dry = file_step("files/a", r"B:\files/a", r"C:\a", true, false, true);
    assert_eq!(dry.line.as_deref(), Some(r"  files/a -> C:\a"));
    assert!(!dry.copy);
}

fn restore_once(
    disk: &mut std::collections::BTreeMap<String, Vec<u8>>,
    entries: &[(&str, &str, &str)],
) -> Vec<String> {
    let mut lines = Vec::new();
    for (entry_source, source, destination) in entries {
        let present = disk.contains_key(*source);
        let unchanged = present && disk.get(*destination) == disk.get(*source);
        let step = file_step(entry_source, source, destination, present, unchanged, false);
        assert!(step.error.is_none());
        lines.extend(step.line);
        if step.copy {
            let bytes = disk[*source].clone();
            disk.insert(destination.to_string(), bytes);
        }
    }
    lines
}

#[test]
fn a_second_file_restore_copies_nothing() {
    let mut disk = std::collections::BTreeMap::new();
    disk.insert(r"B:\files\a".to_string(), b"one".to_vec());
    disk.insert(r"B:\files\b".to_string(), b"two".to_vec());
    disk.insert(r"C:\b".to_string(), b"two".to_vec());
    let entries = [("files/a", r"B:\files\a", r"C:\a"), ("files/b", r"B:\files\b", r"C:\b")];
    let first = restore_once(&mut disk, &entries);
    assert_eq!(first, vec![r"  files/a -> C:\a".to_string(), r"  C:\b unchanged".to_string()]);
    let after = disk.clone();
    let second = restore_once(&mut disk, &entries);
    assert_eq!(second, vec![r"  C:\a unchanged".to_string(), r"  C:\b unchanged".to_string()]);
    assert_eq!(disk, after);
}
