//! The starter bundle: an editable manifest with example files, and a listing of the
//! catalogue to pick package ids from.
use vstd::prelude::*;

use crate::catalog::{catalog_apps, catalog_spec, catalog_view, categories, category_names, names_view, CatalogApp};
use crate::text::{push_str, same_chars, chars_of, string_of};

verus! {

/// The editable manifest a starter bundle begins with.
pub const STARTER_MANIFEST: &'static str = r#"# Works After Reinstall - starter configuration
#
# Everything here is optional: delete what you do not want and it simply will
# not be applied. When you are ready:
#
#   works-after-reinstall setup "<this folder>"
#
# `works-after-reinstall starter --list` prints every package id this tool
# knows about, if you would rather pick from a list.

version: 1

# WinGet packages to install.
apps:
  - Git.Git
  - Microsoft.VisualStudioCode
  - Microsoft.WindowsTerminal
  - 7zip.7zip
  # Uncomment any of these, or add your own:
  # - Google.Chrome
  # - Mozilla.Firefox
  # - Microsoft.PowerToys
  # - Notepad++.Notepad++
  # - OpenJS.NodeJS.LTS
  # - Python.Python.3.13
  # - Valve.Steam
  # - VideoLAN.VLC
  #
  # Packages that need a source or installer arguments look like this:
  # - id: XP89DCGQ3K6VLD
  #   source: msstore

# Windows preferences. Delete the ones you would rather leave alone.
windows:
  dark_mode: true
  show_file_extensions: true
  developer_mode: true

# Environment variables for your account. %VARIABLES% stay literal until
# something reads them.
environment:
  variables:
    EDITOR: code
    DOTNET_CLI_TELEMETRY_OPTOUT: "1"

# Files to copy into place. The paths on the left live inside this folder, and
# the destinations accept %VARIABLES% and a leading ~/.
# Each of these already exists in files/ - put your own details in them, then
# uncomment the lines you want:
files:
  copy: []
  # - source: files/gitconfig
  #   destination: '%USERPROFILE%\.gitconfig'
  # - source: files/vscode_settings.json
  #   destination: '%APPDATA%\Code\User\settings.json'
  # - source: files/powershell_profile.ps1
  #   destination: '%USERPROFILE%\Documents\PowerShell\Microsoft.PowerShell_profile.ps1'
"#;

/// The example Git configuration of a starter bundle.
pub const STARTER_GITCONFIG: &'static str = r#"# Replace the placeholders below, then uncomment the matching entry in
# works-after-reinstall.yaml.
[user]
	name = Your Name
	email = you@example.com

[init]
	defaultBranch = main

[core]
	autocrlf = true

[credential]
	helper = manager

[push]
	autoSetupRemote = true

[pull]
	rebase = false

[alias]
	st = status -sb
	co = checkout
	br = branch
	lg = log --oneline --graph --decorate
	last = log -1 HEAD
"#;

/// The example VS Code settings of a starter bundle.
pub const STARTER_VSCODE: &'static str = r#"{
  "editor.formatOnSave": true,
  "editor.tabSize": 2,
  "editor.renderWhitespace": "boundary",
  "files.eol": "\n",
  "files.trimTrailingWhitespace": true,
  "files.insertFinalNewline": true,
  "telemetry.telemetryLevel": "off",
  "git.autofetch": true,
  "terminal.integrated.defaultProfile.windows": "PowerShell"
}
"#;

/// The example PowerShell profile of a starter bundle.
pub const STARTER_PROFILE: &'static str = r#"# A small starting point - add your own aliases and helpers.
Set-PSReadLineOption -PredictionSource History

function .. { Set-Location .. }
function ll { Get-ChildItem -Force }
function gs { git status -sb }
"#;

/// The example files a starter bundle holds, by file name inside its `files` folder.
pub fn example_files() -> (files: [(&'static str, &'static str); 3])
    ensures
        files[0].0@ == "gitconfig"@,
        files[1].0@ == "vscode_settings.json"@,
        files[2].0@ == "powershell_profile.ps1"@,
        files[0].1@ == STARTER_GITCONFIG@,
        files[1].1@ == STARTER_VSCODE@,
        files[2].1@ == STARTER_PROFILE@,
{
    [
        ("gitconfig", STARTER_GITCONFIG),
        ("vscode_settings.json", STARTER_VSCODE),
        ("powershell_profile.ps1", STARTER_PROFILE),
    ]
}

pub open spec fn spaces(n: nat) -> Seq<char> {
    Seq::new(n, |i: int| ' ')
}

/// `text` padded with spaces to `width` characters, as `{:<width}` formats it.
pub open spec fn padded_right(text: Seq<char>, width: nat) -> Seq<char> {
    if text.len() >= width {
        text
    } else {
        text + spaces((width - text.len()) as nat)
    }
}

/// The listing line of a catalogue entry (category, name, id, note): its name in a
/// column of thirty, then its id.
pub open spec fn app_line(app: (Seq<char>, Seq<char>, Seq<char>, Seq<char>)) -> Seq<char> {
    "  "@ + padded_right(app.1, 30) + " "@ + app.2 + "\n"@
}

/// The lines of the entries in `category`, in catalogue order.
pub open spec fn category_lines(apps: Seq<(Seq<char>, Seq<char>, Seq<char>, Seq<char>)>, category: Seq<char>) -> Seq<
    char,
>
    decreases apps.len(),
{
    if apps.len() == 0 {
        Seq::empty()
    } else {
        category_lines(apps.drop_last(), category) + if apps.last().0 == category {
            app_line(apps.last())
        } else {
            Seq::empty()
        }
    }
}

/// Each category on a line of its own, its entries under it, and a blank line after.
pub open spec fn listing_spec(categories: Seq<Seq<char>>, apps: Seq<(Seq<char>, Seq<char>, Seq<char>, Seq<char>)>) -> Seq<
    char,
>
    decreases categories.len(),
{
    if categories.len() == 0 {
        Seq::empty()
    } else {
        listing_spec(categories.drop_last(), apps) + categories.last() + "\n"@ + category_lines(
            apps,
            categories.last(),
        ) + "\n"@
    }
}

fn push_padded_right(out: &mut Vec<char>, text: &str, width: usize)
    ensures
        final(out)@ == old(out)@ + padded_right(text@, width as nat),
{
    let cs = chars_of(text);
    push_str(out, text);
    let mut k: usize = cs.len();
    let ghost start = out@;
    while k < width
        invariant
            cs@ == text@,
            cs.len() <= k,
            k <= width || cs.len() >= width,
            cs.len() >= width ==> k == cs.len(),
            out@ == start + spaces((k - cs.len()) as nat),
        decreases width - k,
    {
        out.push(' ');
        assert(spaces((k + 1 - cs.len()) as nat) =~= spaces((k - cs.len()) as nat).push(' '));
        k = k + 1;
    }
    proof {
        if cs.len() >= width {
            assert(spaces((k - cs.len()) as nat) =~= Seq::<char>::empty());
        }
        assert(out@ =~= old(out)@ + padded_right(text@, width as nat));
    }
}

/// The listing of `apps` grouped under `categories`.
pub fn listing_of(categories: &[&'static str], apps: &[CatalogApp]) -> (text: String)
    ensures
        text@ == listing_spec(names_view(categories@), catalog_view(apps@)),
{
    let ghost names = names_view(categories@);
    let ghost entries = catalog_view(apps@);
    let mut out: Vec<char> = Vec::new();
    let mut c: usize = 0;
    assert(names.take(0) =~= Seq::<Seq<char>>::empty());
    while c < categories.len()
        invariant
            c <= categories.len(),
            names == names_view(categories@),
            entries == catalog_view(apps@),
            out@ == listing_spec(names.take(c as int), entries),
        decreases categories.len() - c,
    {
        let category = categories[c];
        let wanted = chars_of(category);
        push_str(&mut out, category);
        push_str(&mut out, "\n");
        let ghost head = out@;
        let mut a: usize = 0;
        assert(entries.take(0) =~= Seq::<(Seq<char>, Seq<char>, Seq<char>, Seq<char>)>::empty());
        while a < apps.len()
            invariant
                a <= apps.len(),
                wanted@ == category@,
                entries == catalog_view(apps@),
                out@ == head + category_lines(entries.take(a as int), category@),
            decreases apps.len() - a,
        {
            assert(entries.take(a + 1).drop_last() =~= entries.take(a as int));
            assert(entries.take(a + 1).last() == entries[a as int]);
            let ghost before = out@;
            if same_chars(chars_of(apps[a].category).as_slice(), wanted.as_slice()) {
                push_str(&mut out, "  ");
                push_padded_right(&mut out, apps[a].name, 30);
                push_str(&mut out, " ");
                push_str(&mut out, apps[a].id);
                push_str(&mut out, "\n");
                assert(out@ =~= before + app_line(entries[a as int]));
            } else {
                assert(out@ =~= before + Seq::<char>::empty());
            }
            a = a + 1;
        }
        assert(entries.take(apps.len() as int) =~= entries);
        push_str(&mut out, "\n");
        assert(names.take(c + 1).drop_last() =~= names.take(c as int));
        assert(names.take(c + 1).last() == category@);
        c = c + 1;
    }
    assert(names.take(categories.len() as int) =~= names);
    string_of(out.as_slice())
}

/// The catalogue listing `starter --list` prints: every category of `categories` in
/// order, each followed by the catalogue's apps in that category.
pub fn listing() -> (text: String)
    ensures
        text@ == listing_spec(category_names(), catalog_spec()),
{
    let names = categories();
    let apps = catalog_apps();
    listing_of(&names, apps.as_slice())
}

} // verus!
