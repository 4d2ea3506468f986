use works_after_reinstall::envvars::{
    capture_from, decode, encode, encode_as, is_default_path_entry, is_windows_default,
    merge_path, restore_plan, variable_step, RawValue, ValueKind,
};

fn test_vars() -> Vec<(String, String)> {
    vec![("USERPROFILE".to_string(), r"C:\Users\tester".to_string())]
}

#[test]
fn round_trips_plain_values() {
    let raw = encode("code");
    assert_eq!(raw.kind, ValueKind::Text);
    assert_eq!(decode(&raw), Some("code".to_string()));
}

#[test]
fn keeps_expandable_values_expandable() {
    let raw = encode(r"%USERPROFILE%\.cargo\bin");
    assert_eq!(raw.kind, ValueKind::ExpandableText);
    assert_eq!(decode(&raw), Some(r"%USERPROFILE%\.cargo\bin".to_string()));
}

#[test]
fn round_trips_unicode() {
    let raw = encode(r"C:\Users\tester\café");
    assert_eq!(decode(&raw), Some(r"C:\Users\tester\café".to_string()));
}

#[test]
fn reads_dword_values_as_text() {
    let raw = RawValue {
        bytes: 7u32.to_le_bytes().to_vec(),
        kind: ValueKind::Dword,
    };
    assert_eq!(decode(&raw), Some("7".to_string()));
}

#[test]
fn ignores_types_it_cannot_represent() {
    let raw = RawValue {
        bytes: vec![1, 2, 3, 4],
        kind: ValueKind::Other,
    };
    assert_eq!(decode(&raw), None);
}

#[test]
fn filters_windows_defaults_case_insensitively() {
    assert!(is_windows_default("TEMP"));
    assert!(is_windows_default("OneDrive"));
    assert!(is_windows_default("PSModulePath"));
    assert!(!is_windows_default("EDITOR"));
    assert!(!is_windows_default("JAVA_HOME"));
}

#[test]
fn recognizes_the_default_windows_apps_path_entry() {
    assert!(is_default_path_entry(
        r"%USERPROFILE%/AppData/Local/Microsoft/WindowsApps",
        &test_vars()
    ));
    assert!(!is_default_path_entry(r"%USERPROFILE%\.cargo\bin", &test_vars()));
}

#[test]
fn uses_existing_path_type_when_merging() {
    let raw = encode_as(r"C:\tools\bin", false);
    assert_eq!(raw.kind, ValueKind::Text);
    let raw = encode_as(r"C:\tools\bin", true);
    assert_eq!(raw.kind, ValueKind::ExpandableText);
}

#[test]
fn encodes_as_little_endian_utf16_with_a_terminator() {
    assert_eq!(encode("A").bytes, vec![0x41, 0, 0, 0]);
    assert_eq!(encode("\u{1F600}").bytes, vec![0x3D, 0xD8, 0x00, 0xDE, 0, 0]);
}

#[test]
fn decodes_surrogate_pairs_and_replaces_lone_ones() {
    let raw = RawValue {
        bytes: vec![0x3D, 0xD8, 0x00, 0xDE, 0x3D, 0xD8, 0x41, 0x00, 0, 0, 0, 0],
        kind: ValueKind::Text,
    };
    assert_eq!(decode(&raw), Some("\u{1F600}\u{FFFD}A".to_string()));
}

#[test]
fn a_short_dword_reads_as_nothing() {
    let raw = RawValue {
        bytes: vec![1, 2],
        kind: ValueKind::Dword,
    };
    assert_eq!(decode(&raw), None);
    let raw = RawValue {
        bytes: u32::MAX.to_le_bytes().to_vec(),
        kind: ValueKind::Dword,
    };
    assert_eq!(decode(&raw), Some("4294967295".to_string()));
}

#[test]
fn capture_keeps_user_variables_and_path_entries() {
    let entries = vec![
        ("TEMP".to_string(), encode(r"C:\tmp")),
        ("JAVA_HOME".to_string(), encode(r"C:\jdk")),
        ("=Hidden".to_string(), encode("x")),
        ("EDITOR".to_string(), encode("code")),
        ("BLANK".to_string(), encode("  ")),
        (
            "Path".to_string(),
            encode(r"%USERPROFILE%\AppData\Local\Microsoft\WindowsApps;C:\tools; ;C:\bin"),
        ),
    ];
    let (variables, path) = capture_from(&entries, &test_vars());
    assert_eq!(
        variables,
        vec![
            ("EDITOR".to_string(), "code".to_string()),
            ("JAVA_HOME".to_string(), r"C:\jdk".to_string()),
        ]
    );
    assert_eq!(path, vec![r"C:\tools".to_string(), r"C:\bin".to_string()]);
}

#[test]
fn merging_appends_missing_entries_only() {
    let additions = vec![r"c:/tools/".to_string(), r"D:\new".to_string()];
    let merge = merge_path(r"C:\Tools;C:\x", &additions, &test_vars());
    assert_eq!(merge.added, vec![r"D:\new".to_string()]);
    assert_eq!(merge.value, r"C:\Tools;C:\x;D:\new");
    assert_eq!(
        merge.messages,
        vec![
            "  Path already contains c:/tools/".to_string(),
            r"  Path += D:\new".to_string()
        ]
    );
    assert!(merge.changed);

    let again = merge_path(&merge.value, &additions, &test_vars());
    assert!(again.added.is_empty());
    assert_eq!(again.value, merge.value);
    assert!(!again.changed);
}

#[test]
fn merging_keeps_the_old_text_exactly() {
    let additions = vec![r"D:\new".to_string(), r"d:/NEW/".to_string(), r"E:\e".to_string()];
    let merge = merge_path(r"C:\a;; C:\b ;", &additions, &test_vars());
    assert_eq!(merge.added, vec![r"D:\new".to_string(), r"E:\e".to_string()]);
    assert_eq!(merge.value, r"C:\a;; C:\b ;D:\new;E:\e");

    let empty = merge_path("", &additions, &test_vars());
    assert_eq!(empty.value, r"D:\new;E:\e");

    let nothing = merge_path(r"C:\a;;", &[], &test_vars());
    assert_eq!(nothing.value, r"C:\a;;");
    assert!(!nothing.changed);
}

#[test]
fn only_a_named_reference_makes_a_value_expandable() {
    assert_eq!(encode("100%").kind, ValueKind::Text);
    assert_eq!(encode("a%%b").kind, ValueKind::Text);
    assert_eq!(encode("%%%").kind, ValueKind::Text);
    assert_eq!(encode("50% off, 20% more").kind, ValueKind::ExpandableText);
    assert_eq!(encode("%JAVA_HOME%").kind, ValueKind::ExpandableText);
}

#[test]
fn an_unchanged_variable_is_not_written_again() {
    let existing = encode("code");
    let step = variable_step("EDITOR", "code", Some(&existing));
    assert!(!step.write);
    assert_eq!(step.message, "  EDITOR already set");

    let step = variable_step("EDITOR", "vim", Some(&existing));
    assert!(step.write);
    assert_eq!(step.message, "  set EDITOR = vim");
}

fn lines_of(plan: &works_after_reinstall::envvars::EnvPlan) -> Vec<String> {
    let mut lines: Vec<String> = plan.steps.iter().map(|step| step.line.clone()).collect();
    if !plan.path_error {
        lines.extend(plan.path_lines.iter().cloned());
        lines.extend(plan.closing.iter().cloned());
    }
    lines
}

fn written(registry: &mut Vec<(String, RawValue)>, plan: &works_after_reinstall::envvars::EnvPlan) {
    let mut writes: Vec<(String, RawValue)> =
        plan.steps.iter().filter_map(|step| step.write.clone()).collect();
    if let Some(raw) = &plan.path_write {
        writes.push(("Path".to_string(), raw.clone()));
    }
    for (name, raw) in writes {
        match registry.iter_mut().find(|(existing, _)| existing.eq_ignore_ascii_case(&name)) {
            Some(entry) => entry.1 = raw,
            None => registry.push((name, raw)),
        }
    }
}

#[test]
fn restoring_nothing_reports_nothing_to_restore() {
    let plan = restore_plan(&[], &[], &[], &test_vars(), false);
    assert_eq!(lines_of(&plan), vec!["  nothing to restore".to_string()]);
    assert!(plan.steps.is_empty());
    assert!(plan.path_write.is_none());
    assert!(!plan.broadcast);
}

#[test]
fn restoring_writes_what_is_missing_and_a_second_restore_writes_nothing() {
    let mut registry = vec![
        ("EDITOR".to_string(), encode("code")),
        ("path".to_string(), encode_as(r"C:\a;;", true)),
    ];
    let variables = vec![
        ("EDITOR".to_string(), "code".to_string()),
        ("JAVA_HOME".to_string(), r"C:\jdk".to_string()),
    ];
    let additions = vec![r"c:/A/".to_string(), r"D:\new".to_string()];
    let plan = restore_plan(&variables, &additions, &registry, &test_vars(), false);
    assert_eq!(
        lines_of(&plan),
        vec![
            "  EDITOR already set".to_string(),
            r"  set JAVA_HOME = C:\jdk".to_string(),
            "  Path already contains c:/A/".to_string(),
            r"  Path += D:\new".to_string(),
        ]
    );
    assert!(plan.steps[0].write.is_none());
    assert_eq!(plan.steps[1].write, Some(("JAVA_HOME".to_string(), encode(r"C:\jdk"))));
    assert_eq!(plan.path_write, Some(encode_as(r"C:\a;;D:\new", true)));
    assert!(plan.broadcast);

    written(&mut registry, &plan);
    let again = restore_plan(&variables, &additions, &registry, &test_vars(), false);
    assert_eq!(
        lines_of(&again),
        vec![
            "  EDITOR already set".to_string(),
            r"  JAVA_HOME already set".to_string(),
            "  Path already contains c:/A/".to_string(),
            r"  Path already contains D:\new".to_string(),
            "  nothing to change".to_string(),
        ]
    );
    assert!(again.steps.iter().all(|step| step.write.is_none()));
    assert!(again.path_write.is_none());
    assert!(!again.broadcast);
}

#[test]
fn a_dry_run_restore_writes_nothing() {
    let variables = vec![("EDITOR".to_string(), "vim".to_string())];
    let additions = vec![r"D:\new".to_string()];
    let plan = restore_plan(&variables, &additions, &[], &test_vars(), true);
    assert_eq!(
        lines_of(&plan),
        vec![
            "  set EDITOR = vim".to_string(),
            r"  Path += D:\new".to_string(),
            "  nothing to change".to_string(),
        ]
    );
    assert!(plan.steps[0].write.is_none());
    assert!(plan.path_write.is_none());
    assert!(!plan.broadcast);
}

#[test]
fn a_path_that_is_not_text_stops_the_restore() {
    let registry = vec![("Path".to_string(), RawValue { bytes: vec![1, 2, 3, 4], kind: ValueKind::Other })];
    let variables = vec![("EDITOR".to_string(), "vim".to_string())];
    let plan = restore_plan(&variables, &[r"D:\new".to_string()], &registry, &test_vars(), false);
    assert!(plan.path_error);
    assert_eq!(lines_of(&plan), vec!["  set EDITOR = vim".to_string()]);
    assert_eq!(plan.steps[0].write, Some(("EDITOR".to_string(), encode("vim"))));
    assert!(!plan.broadcast);
}
