use works_after_reinstall::envvars::{RawValue, ValueKind};
use works_after_reinstall::manifest::WindowsSettings;
use works_after_reinstall::settings::{
    denied_message, nothing_to_apply, on_off, setting_plan, settings_closing, settings_from_dwords, summary,
    DwordWrite, SettingValue,
};

#[test]
fn summarizes_what_was_captured() {
    let settings = WindowsSettings {
        dark_mode: Some(true),
        show_file_extensions: Some(true),
        show_hidden_files: Some(false),
        developer_mode: Some(true),
    };
    assert_eq!(
        summary(&settings),
        "dark mode on, file extensions shown, hidden files hidden, developer mode on"
    );
}

#[test]
fn summarizes_an_empty_capture() {
    assert_eq!(summary(&WindowsSettings::default()), "nothing found");
}

#[test]
fn formats_booleans() {
    assert_eq!(on_off(true), "on");
    assert_eq!(on_off(false), "off");
}

#[test]
fn dark_mode_writes_both_light_theme_flags() {
    let settings = WindowsSettings {
        dark_mode: Some(true),
        show_hidden_files: Some(false),
        ..WindowsSettings::default()
    };
    let plan = setting_plan(&settings);
    assert_eq!(plan.len(), 2);
    assert_eq!(plan[0].message, "  dark mode -> on");
    assert_eq!(
        plan[0].writes,
        vec![
            DwordWrite { value: SettingValue::AppsUseLightTheme, data: 0 },
            DwordWrite { value: SettingValue::SystemUsesLightTheme, data: 0 },
        ]
    );
    assert_eq!(plan[1].message, "  hidden files -> hidden");
    assert_eq!(
        plan[1].writes,
        vec![DwordWrite { value: SettingValue::Hidden, data: 2 }]
    );
}

#[test]
fn reading_back_what_was_written_gives_the_same_settings() {
    let settings = WindowsSettings {
        dark_mode: Some(false),
        show_file_extensions: Some(true),
        show_hidden_files: Some(true),
        developer_mode: Some(false),
    };
    let plan = setting_plan(&settings);
    let read = |value: SettingValue| {
        plan.iter()
            .flat_map(|step| step.writes.iter())
            .filter(|write| write.value == value)
            .map(|write| write.data)
            .last()
    };
    let back = settings_from_dwords(
        read(SettingValue::AppsUseLightTheme),
        read(SettingValue::HideFileExt),
        read(SettingValue::Hidden),
        read(SettingValue::AllowDevelopmentWithoutDevLicense),
    );
    assert_eq!(back, settings);
}

#[test]
fn permission_errors_explain_themselves() {
    assert_eq!(
        denied_message(SettingValue::AllowDevelopmentWithoutDevLicense, false),
        r"HKLM\Software\Microsoft\Windows\CurrentVersion\AppModelUnlock\AllowDevelopmentWithoutDevLicense needs administrator rights - run the command from a terminal opened as Administrator"
    );
    assert!(denied_message(SettingValue::Hidden, true).ends_with("is locked down by policy on this machine"));
}

#[test]
fn empty_settings_report_nothing_to_apply() {
    let empty = WindowsSettings {
        dark_mode: None,
        show_file_extensions: None,
        show_hidden_files: None,
        developer_mode: None,
    };
    assert_eq!(nothing_to_apply(&empty), Some("  nothing to apply".to_string()));
    let dark = WindowsSettings { dark_mode: Some(true), ..empty };
    assert_eq!(nothing_to_apply(&dark), None);
}

#[test]
fn applying_for_real_broadcasts_and_notes_an_explorer_restart() {
    let settings = WindowsSettings {
        dark_mode: Some(true),
        show_file_extensions: Some(true),
        show_hidden_files: None,
        developer_mode: None,
    };
    let closing = settings_closing(&settings, false);
    assert!(closing.broadcast);
    assert_eq!(closing.line.as_deref(), Some("  explorer may need a restart before these appear"));
    let dry = settings_closing(&settings, true);
    assert!(!dry.broadcast);
    assert_eq!(dry.line, None);
    let dark_only = WindowsSettings { show_file_extensions: None, ..settings };
    let closing = settings_closing(&dark_only, false);
    assert!(closing.broadcast);
    assert_eq!(closing.line, None);
}

#[test]
fn a_dword_reads_as_its_little_endian_number() {
    let raw = RawValue { bytes: vec![1, 2, 0, 0, 9], kind: ValueKind::Dword };
    assert_eq!(works_after_reinstall::settings::dword_value(&raw), Some(513));
    let short = RawValue { bytes: vec![1, 2, 3], kind: ValueKind::Dword };
    assert_eq!(works_after_reinstall::settings::dword_value(&short), None);
    let text = RawValue { bytes: vec![1, 0, 0, 0], kind: ValueKind::Text };
    assert_eq!(works_after_reinstall::settings::dword_value(&text), None);
}
