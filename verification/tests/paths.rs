use works_after_reinstall::paths::{
    bundle_root, expand, manifest_in, resolve_bundle, same_path, split_path_entries, PathKind,
};

fn test_vars() -> Vec<(String, String)> {
    vec![
        ("USERPROFILE".to_string(), r"C:\Users\tester".to_string()),
        ("APPDATA".to_string(), r"C:\Users\tester\AppData\Roaming".to_string()),
    ]
}

fn expand_with_test_vars(input: &str) -> String {
    expand(input, &test_vars())
}

#[test]
fn expands_percent_variables_case_insensitively() {
    assert_eq!(
        expand_with_test_vars(r"%USERPROFILE%\.gitconfig"),
        r"C:\Users\tester\.gitconfig"
    );
    assert_eq!(
        expand_with_test_vars("%appdata%\\Code\\User"),
        r"C:\Users\tester\AppData\Roaming\Code\User"
    );
}

#[test]
fn expands_leading_tilde() {
    assert_eq!(
        expand_with_test_vars("~/.ssh/config"),
        r"C:\Users\tester/.ssh/config"
    );
    assert_eq!(expand_with_test_vars("~/"), r"C:\Users\tester/");
}

#[test]
fn leaves_unknown_variables_untouched() {
    assert_eq!(
        expand_with_test_vars("%NOT_A_REAL_VAR%\\bin"),
        "%NOT_A_REAL_VAR%\\bin"
    );
    assert_eq!(expand_with_test_vars("50%"), "50%");
}

#[test]
fn splices_expanded_values() {
    assert_eq!(
        expand_with_test_vars(r"%USERPROFILE%\bin;%APPDATA%\npm"),
        r"C:\Users\tester\bin;C:\Users\tester\AppData\Roaming\npm"
    );
}

#[test]
fn splits_path_entries_and_drops_blanks() {
    assert_eq!(
        split_path_entries(r"C:\a;; C:\b ;"),
        vec![r"C:\a".to_string(), r"C:\b".to_string()]
    );
}

#[test]
fn compares_paths_ignoring_case_and_trailing_separator() {
    assert!(same_path(r"C:\Tools\bin", r"c:\tools\bin\", &test_vars()));
    assert!(!same_path(r"C:\Tools\bin", r"C:\Tools\other", &test_vars()));
}

#[test]
fn compares_paths_ignoring_separator_style() {
    assert!(same_path(r"C:\Tools\bin", "C:/Tools/bin", &test_vars()));
}

#[test]
fn a_tilde_inside_a_path_stays_literal() {
    assert_eq!(expand_with_test_vars(r"C:\~\x"), r"C:\~\x");
    assert_eq!(expand_with_test_vars("~user"), "~user");
    assert_eq!(expand("~", &[]), "~");
}

#[test]
fn empty_percent_pairs_stay_literal() {
    assert_eq!(expand_with_test_vars("%%USERPROFILE%"), r"%C:\Users\tester");
}

#[test]
fn first_matching_variable_wins() {
    let vars = vec![
        ("Path".to_string(), "first".to_string()),
        ("PATH".to_string(), "second".to_string()),
    ];
    assert_eq!(expand("%path%", &vars), "first");
}

#[test]
fn same_path_expands_variables_first() {
    assert!(same_path(
        r"%USERPROFILE%\bin",
        r"C:/users/TESTER/bin/",
        &test_vars()
    ));
}

#[test]
fn splitting_trims_unicode_spaces() {
    assert_eq!(
        split_path_entries("\u{A0}C:\\x\u{3000};\t;"),
        vec![r"C:\x".to_string()]
    );
    assert!(split_path_entries("").is_empty());
}

#[test]
fn resolves_bundle_folders_and_manifest_files() {
    assert_eq!(
        resolve_bundle("works-after-reinstall.yaml", PathKind::File, false),
        Ok(("works-after-reinstall.yaml".to_string(), ".".to_string()))
    );
    assert_eq!(bundle_root(r"C:\bundles\one\works-after-reinstall.yaml"), r"C:\bundles\one");
    assert_eq!(bundle_root(r"C:\works-after-reinstall.yaml"), r"C:\");
    assert_eq!(bundle_root("bundle/sub//m.yaml"), "bundle/sub");
    assert_eq!(bundle_root(r"C:\"), ".");
    assert_eq!(manifest_in(r"C:\bundles\one"), r"C:\bundles\one\works-after-reinstall.yaml");
    assert_eq!(manifest_in(r"C:\bundles\one\"), r"C:\bundles\one\works-after-reinstall.yaml");
    assert_eq!(
        resolve_bundle(r"C:\bundles\one", PathKind::Directory, true),
        Ok((
            r"C:\bundles\one\works-after-reinstall.yaml".to_string(),
            r"C:\bundles\one".to_string()
        ))
    );
    assert_eq!(
        resolve_bundle("empty", PathKind::Directory, false),
        Err("empty does not contain works-after-reinstall.yaml - pass the bundle directory or a manifest file".to_string())
    );
    assert_eq!(
        resolve_bundle("nowhere", PathKind::Missing, false),
        Err("bundle not found: nowhere".to_string())
    );
}
