use works_after_reinstall::manifest::{App, AppDetail};
use works_after_reinstall::winget::{
    apps_from_export, apps_plan, export_outcome, feed_byte, flush_line, import_document, import_json,
    install_line, installing_line, packages_schema, parse_apps, source_for, stderr_hint, AppsPlan,
    WingetError,
};

const EXPORT_SAMPLE: &str = r#"{
    "$schema": "https://aka.ms/winget-packages.schema.2.0.json",
    "Sources": [
        {
            "Packages": [
                { "PackageIdentifier": "Microsoft.VisualStudioCode" },
                { "PackageIdentifier": "Git.Git" },
                { "PackageIdentifier": "Git.Git" }
            ],
            "SourceDetails": {
                "Argument": "https://cdn.winget.microsoft.com/cache",
                "Identifier": "Microsoft.Winget.Source_8wekyb3d8bbwe",
                "Name": "winget",
                "Type": "Microsoft.PreIndexed.Package"
            }
        },
        {
            "Packages": [
                {
                    "InitialOverrideArguments": "--quiet --add Microsoft.VisualStudio.Workload.VCTools",
                    "PackageIdentifier": "Microsoft.VisualStudio.2022.BuildTools"
                },
                { "PackageIdentifier": "XP89DCGQ3K6VLD" }
            ],
            "SourceDetails": {
                "Argument": "https://storeedgefd.dsx.mp.microsoft.com/v9.0",
                "Identifier": "StoreEdgeFD",
                "Name": "msstore",
                "Type": "Microsoft.Rest"
            }
        }
    ]
}"#;

fn ids(apps: &[App]) -> Vec<&str> {
    apps.iter().map(App::id).collect()
}

#[test]
fn reads_package_ids_from_winget_export() {
    let apps = parse_apps(EXPORT_SAMPLE).unwrap();
    assert_eq!(
        ids(&apps),
        vec![
            "Git.Git",
            "Microsoft.VisualStudio.2022.BuildTools",
            "Microsoft.VisualStudioCode",
            "XP89DCGQ3K6VLD"
        ]
    );
}

#[test]
fn keeps_plain_packages_plain() {
    let apps = parse_apps(EXPORT_SAMPLE).unwrap();
    assert_eq!(apps[0], App::Id("Git.Git".to_string()));
}

#[test]
fn keeps_store_packages_linked_to_their_source() {
    let apps = parse_apps(EXPORT_SAMPLE).unwrap();
    assert_eq!(apps[3].source(), Some("msstore"));
    assert_eq!(apps[2].source(), None);
}

#[test]
fn keeps_installer_arguments() {
    let apps = parse_apps(EXPORT_SAMPLE).unwrap();
    assert_eq!(
        apps[1].arguments(),
        Some("--quiet --add Microsoft.VisualStudio.Workload.VCTools")
    );
}

#[test]
fn tolerates_empty_export_files() {
    assert!(parse_apps(r#"{ "Sources": [] }"#).unwrap().is_empty());
}

#[test]
fn rejects_invalid_json() {
    assert!(parse_apps("not json").is_err());
}

#[test]
fn rebuilds_an_import_file_with_both_sources() {
    let apps = parse_apps(EXPORT_SAMPLE).unwrap();
    let value: serde_json::Value = serde_json::from_str(&import_json(&apps)).unwrap();
    assert_eq!(value["$schema"], packages_schema());
    assert_eq!(value["Sources"][0]["SourceDetails"]["Name"], "winget");
    assert_eq!(
        value["Sources"][0]["Packages"][0]["PackageIdentifier"],
        "Git.Git"
    );
    assert_eq!(value["Sources"][1]["SourceDetails"]["Name"], "msstore");
    assert_eq!(
        value["Sources"][1]["Packages"][0]["PackageIdentifier"],
        "Microsoft.VisualStudio.2022.BuildTools"
    );
    assert_eq!(
        value["Sources"][1]["Packages"][0]["InitialOverrideArguments"],
        "--quiet --add Microsoft.VisualStudio.Workload.VCTools"
    );
}

#[test]
fn omits_the_store_source_when_nothing_comes_from_it() {
    let apps = vec![App::Id("Git.Git".to_string())];
    let value: serde_json::Value = serde_json::from_str(&import_json(&apps)).unwrap();
    assert_eq!(value["Sources"].as_array().unwrap().len(), 1);
    assert_eq!(value["Sources"][0]["SourceDetails"]["Name"], "winget");
}

#[test]
fn treats_unknown_sources_as_the_default_one() {
    assert_eq!(source_for(None).name, "winget");
    assert_eq!(source_for(Some("msstore")).name, "msstore");
    assert_eq!(source_for(Some("MSSTORE")).name, "msstore");
    assert_eq!(source_for(Some("something-else")).name, "winget");
}

#[test]
fn the_import_file_reads_back_as_the_same_apps() {
    let apps = parse_apps(EXPORT_SAMPLE).unwrap();
    let doc = import_document(&apps, "2026-01-02T03:04:05Z");
    assert_eq!(apps_from_export(&doc), apps);
}

#[test]
fn the_import_file_carries_its_creation_date() {
    let apps = vec![App::Id("Git.Git".to_string())];
    let value: serde_json::Value = serde_json::from_str(&import_json(&apps)).unwrap();
    let stamp = value["CreationDate"].as_str().unwrap();
    assert_eq!(stamp.len(), 20);
    assert!(stamp.ends_with('Z'));
}

#[test]
fn an_unknown_source_is_kept_on_export() {
    let json = r#"{ "Sources": [ { "Packages": [ { "PackageIdentifier": "A.B" } ],
        "SourceDetails": { "Name": "company" } } ] }"#;
    let apps = parse_apps(json).unwrap();
    assert_eq!(
        apps,
        vec![App::Detailed(AppDetail {
            id: "A.B".to_string(),
            source: Some("company".to_string()),
            arguments: None,
        })]
    );
}

#[test]
fn a_source_without_details_is_the_default_one() {
    let json = r#"{ "Sources": [ { "Packages": [ { "PackageIdentifier": "B" }, { "Version": "1" }, { "PackageIdentifier": 7 } ] } ] }"#;
    assert_eq!(parse_apps(json).unwrap(), vec![App::Id("B".to_string())]);
}

#[test]
fn the_first_package_with_an_id_wins() {
    let json = r#"{ "Sources": [
        { "Packages": [ { "PackageIdentifier": "Same", "InitialOverrideArguments": "--first" } ] },
        { "Packages": [ { "PackageIdentifier": "Same", "InitialOverrideArguments": "--second" } ] } ] }"#;
    let apps = parse_apps(json).unwrap();
    assert_eq!(apps.len(), 1);
    assert_eq!(apps[0].arguments(), Some("--first"));
}

#[test]
fn a_blank_export_reports_the_error_output() {
    match export_outcome("  \n", b"  access denied \r\n") {
        Err(error) => {
            assert_eq!(error, WingetError::NoPackageList { hint: ": access denied".to_string() });
            assert_eq!(error.message(), "winget export produced no package list: access denied");
        }
        Ok(_) => panic!("a blank export must fail"),
    }
    assert_eq!(
        export_outcome("", b"").unwrap_err().message(),
        "winget export produced no package list"
    );
    assert!(matches!(
        export_outcome("{", b""),
        Err(WingetError::UnreadableExport { .. })
    ));
    assert_eq!(export_outcome(EXPORT_SAMPLE, b"").unwrap().len(), 4);
}

#[test]
fn winget_errors_read_as_the_original_messages() {
    assert_eq!(
        WingetError::NotAvailable.message(),
        "winget is not available - install 'App Installer' from the Microsoft Store, then run the command again"
    );
    assert_eq!(
        WingetError::ImportFailed.message(),
        "winget import failed - review the output above for packages it could not install"
    );
    assert!(parse_apps("not json")
        .unwrap_err()
        .message()
        .starts_with("parsing winget export output: "));
}

#[test]
fn stderr_hints_are_trimmed_and_introduced() {
    assert_eq!(stderr_hint(b""), "");
    assert_eq!(stderr_hint(b"   \n"), "");
    assert_eq!(stderr_hint(b" oops \n"), ": oops");
}

#[test]
fn dry_run_lines_name_the_source_and_arguments() {
    let apps = parse_apps(EXPORT_SAMPLE).unwrap();
    assert_eq!(install_line(&apps[0]), "  install Git.Git (source: winget)");
    assert_eq!(
        install_line(&apps[1]),
        "  install Microsoft.VisualStudio.2022.BuildTools with --quiet --add Microsoft.VisualStudio.Workload.VCTools (source: msstore)"
    );
    match apps_plan(&apps, true) {
        AppsPlan::Preview { lines } => {
            assert_eq!(lines.len(), 4);
            assert_eq!(lines[3], "  install XP89DCGQ3K6VLD (source: msstore)");
        }
        other => panic!("unexpected plan: {other:?}"),
    }
    assert_eq!(apps_plan(&apps, false), AppsPlan::Install { count: 4 });
    assert_eq!(apps_plan(&[], true), AppsPlan::Nothing);
    assert_eq!(installing_line(4), "  installing 4 packages with winget");
}

#[test]
fn output_is_split_into_trimmed_lines() {
    let mut buffer = Vec::new();
    let mut lines = Vec::new();
    for byte in b"  Found Git [Git.Git]\r\n\rInstalled  \n" {
        if let Some(line) = feed_byte(&mut buffer, *byte) {
            lines.push(line);
        }
    }
    if let Some(line) = flush_line(&mut buffer) {
        lines.push(line);
    }
    assert_eq!(lines, vec!["  Found Git [Git.Git]".to_string(), "  Installed".to_string()]);
    assert!(buffer.is_empty());

    let mut rest = b"tail".to_vec();
    assert_eq!(flush_line(&mut rest), Some("  tail".to_string()));
    assert!(rest.is_empty());
}

#[test]
fn an_unreadable_export_carries_the_parser_message() {
    let expected = serde_json::from_str::<serde_json::Value>("{").unwrap_err().to_string();
    match export_outcome("{", b"") {
        Err(WingetError::UnreadableExport { detail }) => {
            assert_eq!(detail, expected);
            assert_eq!(
                WingetError::UnreadableExport { detail: detail.clone() }.message(),
                format!("parsing winget export output: {expected}")
            );
        }
        _ => panic!("a broken export must not parse"),
    }
}
