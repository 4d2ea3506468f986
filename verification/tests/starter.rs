use works_after_reinstall::catalog::{catalog_apps, categories};
use works_after_reinstall::starter::{
    example_files, listing, STARTER_GITCONFIG, STARTER_MANIFEST, STARTER_PROFILE, STARTER_VSCODE,
};

#[test]
fn the_example_files_are_not_empty() {
    for contents in [STARTER_GITCONFIG, STARTER_VSCODE, STARTER_PROFILE] {
        assert!(contents.len() > 40);
    }
    assert!(STARTER_VSCODE.trim_start().starts_with('{'));
}

#[test]
fn the_listing_covers_every_catalog_app() {
    let listing = listing();

    for category in categories() {
        assert!(listing.contains(category));
    }
    for app in catalog_apps() {
        assert!(listing.contains(app.id), "{} is missing", app.id);
    }
}

#[test]
fn the_listing_lines_up_names_in_a_column() {
    let listing = listing();
    assert!(listing.starts_with("Browsers\n  Chrome                         Google.Chrome\n"));
    assert!(listing.contains("\n\nCommunication\n  Discord "));
    assert!(listing.contains(
        "  Visual Studio 2022 Community   Microsoft.VisualStudio.2022.Community\n"
    ));
    assert!(listing.ends_with("  GOG Galaxy                     GOG.Galaxy\n\n"));
    assert_eq!(listing.lines().count(), 48 + 7 * 2);
}

#[test]
fn the_example_files_keep_their_names() {
    let files = example_files();
    assert_eq!(files[0], ("gitconfig", STARTER_GITCONFIG));
    assert_eq!(files[1].0, "vscode_settings.json");
    assert_eq!(files[2].0, "powershell_profile.ps1");
    assert!(STARTER_MANIFEST.contains("version: 1"));
}
