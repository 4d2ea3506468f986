use works_after_reinstall::cli::Component;
use works_after_reinstall::commands::{
    apply_order, apps_report, environment_report, export_closing, export_header, export_intro,
    export_order, files_report, not_a_directory, opening_lines, section_line, windows_report, ApplyRun,
};
use works_after_reinstall::manifest::{FileCopy, Manifest, WindowsSettings};
use works_after_reinstall::envvars::restore_plan;
use works_after_reinstall::files::nothing_to_restore;
use works_after_reinstall::settings::nothing_to_apply;
use works_after_reinstall::winget::{apps_plan, nothing_to_install, AppsPlan};


#[test]
fn setup_applies_settings_first_and_apps_last() {
    assert_eq!(
        apply_order(&[]),
        vec![Component::Windows, Component::Environment, Component::Files, Component::Apps]
    );
    assert_eq!(
        apply_order(&[Component::Apps, Component::Windows]),
        vec![Component::Windows, Component::Apps]
    );
}

#[test]
fn export_captures_apps_first_and_honours_skip() {
    assert_eq!(
        export_order(&[]),
        vec![Component::Apps, Component::Windows, Component::Environment, Component::Files]
    );
    assert_eq!(
        export_order(&[Component::Apps, Component::Files]),
        vec![Component::Windows, Component::Environment]
    );
}

#[test]
fn one_failing_component_never_aborts_the_others() {
    let mut run = ApplyRun::start(&[], false);
    let mut applied = Vec::new();
    while let Some(component) = run.next_component() {
        applied.push(component);
        if component == Component::Environment {
            run.record(Err("access denied".to_string()));
        } else if component == Component::Apps {
            run.record(Err("winget is not available".to_string()));
        } else {
            run.record(Ok(()));
        }
    }
    assert_eq!(applied.len(), 4);
    assert_eq!(
        run.finish().unwrap_err(),
        "setup finished with 2 problem(s):\n  - environment: access denied\n  - apps: winget is not available"
    );
}

#[test]
fn a_clean_run_says_what_to_do_next() {
    let mut run = ApplyRun::start(&[], false);
    while run.next_component().is_some() {
        run.record(Ok(()));
    }
    assert_eq!(
        run.finish().unwrap(),
        vec![
            "".to_string(),
            "Done.".to_string(),
            "Open a new terminal so the restored environment is picked up.".to_string(),
            "Some changes may need a restart before they take effect.".to_string(),
        ]
    );

    let mut files_only = ApplyRun::start(&[Component::Files], false);
    assert_eq!(files_only.next_component(), Some(Component::Files));
    files_only.record(Ok(()));
    assert_eq!(files_only.next_component(), None);
    assert_eq!(files_only.finish().unwrap(), vec!["".to_string(), "Done.".to_string()]);

    let dry = ApplyRun::start(&[Component::Apps], true);
    assert_eq!(
        dry.finish().unwrap(),
        vec!["".to_string(), "Dry run complete - nothing was changed.".to_string()]
    );
}

#[test]
fn runs_open_with_a_dry_run_warning() {
    assert_eq!(opening_lines(false), vec![String::new()]);
    assert_eq!(
        opening_lines(true),
        vec![String::new(), "Dry run - nothing will be changed.".to_string(), String::new()]
    );
    assert_eq!(section_line(Component::Apps), "[apps]");
    assert_eq!(section_line(Component::Environment), "[environment]");
}

#[test]
fn export_reports_read_as_before() {
    assert_eq!(export_intro("", "bundle"), "Exporting this machine into bundle");
    assert_eq!(export_intro("DESKTOP-1", "bundle"), "Exporting DESKTOP-1 into bundle");
    assert_eq!(apps_report(36), "  36 packages");
    let settings = WindowsSettings {
        dark_mode: Some(true),
        show_file_extensions: None,
        show_hidden_files: None,
        developer_mode: None,
    };
    assert_eq!(windows_report(&settings), "  dark mode on");
    assert_eq!(
        environment_report(&[], &[]),
        vec![
            "  no variables outside the Windows defaults".to_string(),
            "  0 PATH entries".to_string()
        ]
    );
    let vars = vec![
        ("EDITOR".to_string(), "code".to_string()),
        ("GOPATH".to_string(), "C:\\go".to_string()),
    ];
    assert_eq!(
        environment_report(&vars, &["C:\\bin".to_string()]),
        vec!["  2 variables: EDITOR, GOPATH".to_string(), "  1 PATH entries".to_string()]
    );
    assert_eq!(
        files_report(&[]),
        vec!["  no known config files found - add your own with --include".to_string()]
    );
    let copies = vec![FileCopy {
        source: "files/gitconfig".to_string(),
        destination: "%USERPROFILE%\\.gitconfig".to_string(),
    }];
    assert_eq!(files_report(&copies), vec!["  files/gitconfig".to_string()]);
    let closing = export_closing("out\\works-after-reinstall.yaml", "out");
    assert_eq!(closing.len(), 6);
    assert_eq!(closing[1], "Bundle ready: out\\works-after-reinstall.yaml");
    assert_eq!(closing[5], "  works-after-reinstall setup \"out\"");
    assert_eq!(not_a_directory("x.txt"), "x.txt exists and is not a directory");
}

#[test]
fn an_export_names_the_machine_only_when_known() {
    let named = export_header("DESKTOP-1", "2026-01-01T00:00:00Z");
    assert_eq!(named.version, 1);
    assert_eq!(named.exported_at.as_deref(), Some("2026-01-01T00:00:00Z"));
    assert_eq!(named.source_machine.as_deref(), Some("DESKTOP-1"));
    assert!(named.apps.is_empty());
    let unnamed = export_header("", "2026-01-01T00:00:00Z");
    assert_eq!(unnamed.source_machine, None);
}

#[test]
fn a_dry_run_of_an_empty_manifest_reports_every_section() {
    let manifest = Manifest::default();
    let mut transcript: Vec<String> = opening_lines(true);
    let mut run = ApplyRun::start(&[], true);
    while let Some(component) = run.next_component() {
        transcript.push(section_line(component));
        match component {
            Component::Windows => transcript.extend(nothing_to_apply(&manifest.windows)),
            Component::Environment => {
                let plan = restore_plan(&manifest.environment.variables, &manifest.environment.path, &[], &[], true);
                assert!(plan.steps.is_empty() && plan.path_lines.is_empty());
                transcript.extend(plan.closing);
            }
            Component::Files => transcript.extend(nothing_to_restore(&manifest.files.copy)),
            Component::Apps => {
                assert!(matches!(apps_plan(&manifest.apps, true), AppsPlan::Nothing));
                transcript.push(nothing_to_install().to_string());
            }
        }
        run.record(Ok(()));
    }
    transcript.extend(run.finish().unwrap());
    assert_eq!(
        transcript,
        vec![
            "",
            "Dry run - nothing will be changed.",
            "",
            "[windows]",
            "  nothing to apply",
            "[environment]",
            "  nothing to restore",
            "[files]",
            "  nothing to restore",
            "[apps]",
            "  nothing to install",
            "",
            "Dry run complete - nothing was changed.",
        ]
    );
}
