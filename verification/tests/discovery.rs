use works_after_reinstall::discovery::{
    bullet_list, bundle_key, chosen_bundle, consider, declined_lines, describe_search_locations,
    exported_lines, no_bundle_message, offer_export_lines, requested_bundle, unrequested_bundle,
    BundleChoice, BundleStep,
};

#[test]
fn does_not_report_the_same_bundle_twice() {
    let mut found = Vec::new();
    let mut seen = Vec::new();
    consider(r"C:\Users\me\Desktop\bundle", true, &mut found, &mut seen);
    consider(r"c:\users\me\desktop\BUNDLE\", true, &mut found, &mut seen);
    consider(r"C:\Users\me\Desktop\bundle/", true, &mut found, &mut seen);
    consider(r"C:\Users\me\Desktop\not-a-bundle", false, &mut found, &mut seen);
    consider(r"C:\Users\me\Downloads\bundle", true, &mut found, &mut seen);
    assert_eq!(
        found,
        vec![r"C:\Users\me\Desktop\bundle".to_string(), r"C:\Users\me\Downloads\bundle".to_string()]
    );
    assert_eq!(seen.len(), 2);
}

#[test]
fn bundle_keys_ignore_case_and_trailing_slashes() {
    assert_eq!(bundle_key(r"C:\Bundle\\/"), r"c:\bundle".chars().collect::<Vec<char>>());
    assert_eq!(bundle_key("/"), Vec::<char>::new());
}

#[test]
fn a_missing_requested_bundle_suggests_what_to_do() {
    assert_eq!(requested_bundle("b", true, &[]), Ok("b".to_string()));
    assert_eq!(
        requested_bundle("b", false, &[]),
        Err("bundle not found: b\n  run `works-after-reinstall export` to create one, or pass the path to an existing bundle".to_string())
    );
    assert_eq!(
        requested_bundle("b", false, &["x".to_string(), "y".to_string()]),
        Err("bundle not found: b\n  bundles found nearby:\n  - x\n  - y".to_string())
    );
}

#[test]
fn setup_without_a_bundle_looks_around() {
    assert_eq!(
        unrequested_bundle(true, &["x".to_string()], true),
        BundleStep::Ready("works-after-reinstall-bundle".to_string())
    );
    assert_eq!(unrequested_bundle(false, &[], true), BundleStep::OfferExport);
    assert_eq!(
        unrequested_bundle(false, &["x".to_string()], false),
        BundleStep::Announce {
            line: "Using the bundle found at x\n".to_string(),
            bundle: "x".to_string()
        }
    );
    let two = vec!["x".to_string(), "y".to_string()];
    assert_eq!(
        unrequested_bundle(false, &two, false),
        BundleStep::Refuse("no bundle given and several were found:\n  - x\n  - y".to_string())
    );
    assert_eq!(
        unrequested_bundle(false, &two, true),
        BundleStep::Choose {
            question: "Which bundle should I apply?".to_string(),
            labels: two.clone()
        }
    );
    assert_eq!(chosen_bundle(&two, Some(1)), BundleChoice::Ready("y".to_string()));
    assert_eq!(chosen_bundle(&two, None), BundleChoice::NothingToApply);
}

#[test]
fn the_export_offer_reads_as_before() {
    assert_eq!(describe_search_locations(false, false), "this folder");
    assert_eq!(
        describe_search_locations(true, true),
        "this folder, the folder holding the exe, Desktop and Downloads"
    );
    assert_eq!(
        no_bundle_message("this folder"),
        "no bundle found - looked in this folder\n  run `works-after-reinstall export` here to capture this machine first, or pass the bundle path"
    );
    let lines = offer_export_lines("this folder");
    assert_eq!(lines[3], "I looked in this folder.");
    assert_eq!(declined_lines().len(), 2);
    assert_eq!(
        exported_lines("works-after-reinstall-bundle")[2],
        "  1. copy \"works-after-reinstall-bundle\" somewhere you will still have it after reinstalling"
    );
    assert_eq!(bullet_list(&[]), "");
}
