//! The built-in catalogue of well-known WinGet packages, and the manifest a fresh
//! machine is set up from when nothing was exported.
use vstd::prelude::*;

use crate::clock::{iso8601, now_iso8601};
use crate::manifest::{
    blank, has_app_without_id, manifest_problem, App, Environment, Files, Manifest, WindowsSettings, CURRENT_VERSION,
};

verus! {

#[derive(Clone, Copy, Debug)]
pub struct CatalogApp {
    pub category: &'static str,
    pub name: &'static str,
    pub id: &'static str,
    pub note: &'static str,
}

/// The catalogue's category names, in display order.
pub open spec fn category_names() -> Seq<Seq<char>> {
    seq!["Browsers"@, "Communication"@, "Development"@, "Runtimes"@, "Media"@, "Utilities"@, "Gaming"@]
}

/// Names as the text they hold.
pub open spec fn names_view(names: Seq<&'static str>) -> Seq<Seq<char>> {
    Seq::new(names.len(), |i: int| names[i]@)
}

/// The catalogue's categories, in display order.
pub fn categories() -> (names: [&'static str; 7])
    ensures
        names@.len() == 7,
        names_view(names@) == category_names(),
        names@[0]@ == "Browsers"@,
        names@[1]@ == "Communication"@,
        names@[2]@ == "Development"@,
        names@[3]@ == "Runtimes"@,
        names@[4]@ == "Media"@,
        names@[5]@ == "Utilities"@,
        names@[6]@ == "Gaming"@,
{
    let names = ["Browsers", "Communication", "Development", "Runtimes", "Media", "Utilities", "Gaming"];
    assert(names_view(names@) =~= category_names());
    names
}

/// Whether `name` is one of the catalogue's categories.
pub open spec fn is_category(name: Seq<char>) -> bool {
    ||| name == "Browsers"@
    ||| name == "Communication"@
    ||| name == "Development"@
    ||| name == "Runtimes"@
    ||| name == "Media"@
    ||| name == "Utilities"@
    ||| name == "Gaming"@
}

/// Each catalogue entry as its category, name, WinGet id and note, in catalogue order.
pub open spec fn catalog_spec() -> Seq<(Seq<char>, Seq<char>, Seq<char>, Seq<char>)> {
    seq![
        ("Browsers"@, "Chrome"@, "Google.Chrome"@, "Google's browser"@),
        ("Browsers"@, "Firefox"@, "Mozilla.Firefox"@, "Mozilla's browser"@),
        ("Browsers"@, "Brave"@, "Brave.Brave"@, "Chromium with built-in blocking"@),
        ("Browsers"@, "Opera"@, "Opera.Opera"@, ""@),
        ("Browsers"@, "Vivaldi"@, "Vivaldi.Vivaldi"@, ""@),
        ("Communication"@, "Discord"@, "Discord.Discord"@, ""@),
        ("Communication"@, "Slack"@, "SlackTechnologies.Slack"@, ""@),
        ("Communication"@, "Zoom"@, "Zoom.Zoom"@, ""@),
        ("Communication"@, "Teams"@, "Microsoft.Teams"@, ""@),
        ("Communication"@, "Telegram"@, "Telegram.TelegramDesktop"@, ""@),
        ("Development"@, "Git"@, "Git.Git"@, "version control"@),
        ("Development"@, "VS Code"@, "Microsoft.VisualStudioCode"@, "editor"@),
        ("Development"@, "Windows Terminal"@, "Microsoft.WindowsTerminal"@, "tabs, panes, good fonts"@),
        ("Development"@, "PowerShell"@, "Microsoft.PowerShell"@, "PowerShell 7"@),
        ("Development"@, "Node.js LTS"@, "OpenJS.NodeJS.LTS"@, ""@),
        ("Development"@, "Python 3.13"@, "Python.Python.3.13"@, "adds python and the py launcher"@),
        ("Development"@, "Rust"@, "Rustlang.Rustup"@, "rustup"@),
        ("Development"@, "GitHub CLI"@, "GitHub.cli"@, ""@),
        ("Development"@, "Docker Desktop"@, "Docker.DockerDesktop"@, "needs WSL2"@),
        ("Development"@, "Postman"@, "Postman.Postman"@, ""@),
        ("Development"@, "DBeaver"@, "DBeaver.DBeaver.Community"@, "database client"@),
        ("Development"@, "JetBrains Toolbox"@, "JetBrains.Toolbox"@, "manages JetBrains IDEs"@),
        ("Development"@, "Visual Studio 2022 Community"@, "Microsoft.VisualStudio.2022.Community"@, "large download"@),
        ("Runtimes"@, ".NET 8 Desktop Runtime"@, "Microsoft.DotNet.DesktopRuntime.8"@, "needed by many apps"@),
        ("Runtimes"@, "Java 21 (Temurin)"@, "EclipseAdoptium.Temurin.21.JDK"@, ""@),
        ("Runtimes"@, "Visual C++ Redistributable"@, "Microsoft.VCRedist.2015+.x64"@, ""@),
        ("Media"@, "VLC"@, "VideoLAN.VLC"@, "plays everything"@),
        ("Media"@, "Spotify"@, "Spotify.Spotify"@, ""@),
        ("Media"@, "OBS Studio"@, "OBSProject.OBSStudio"@, "screen recording"@),
        ("Media"@, "GIMP"@, "GIMP.GIMP"@, "image editing"@),
        ("Media"@, "Krita"@, "KDE.Krita"@, "digital painting"@),
        ("Media"@, "Audacity"@, "Audacity.Audacity"@, ""@),
        ("Media"@, "HandBrake"@, "HandBrake.HandBrake"@, "video conversion"@),
        ("Media"@, "mpv.net"@, "mpv.net"@, "minimal video player"@),
        ("Utilities"@, "7-Zip"@, "7zip.7zip"@, "archives"@),
        ("Utilities"@, "Notepad++"@, "Notepad++.Notepad++"@, ""@),
        ("Utilities"@, "PowerToys"@, "Microsoft.PowerToys"@, "Microsoft's power user tools"@),
        ("Utilities"@, "Everything"@, "voidtools.Everything"@, "instant file search"@),
        ("Utilities"@, "ShareX"@, "ShareX.ShareX"@, "screenshots"@),
        ("Utilities"@, "Rufus"@, "Rufus.Rufus"@, "bootable USB drives"@),
        ("Utilities"@, "WinDirStat"@, "WinDirStat.WinDirStat"@, "disk usage"@),
        ("Utilities"@, "Bitwarden"@, "Bitwarden.Bitwarden"@, "password manager"@),
        ("Utilities"@, "qBittorrent"@, "qBittorrent.qBittorrent"@, ""@),
        ("Utilities"@, "LibreOffice"@, "TheDocumentFoundation.LibreOffice"@, "office suite"@),
        ("Utilities"@, "Acrobat Reader"@, "Adobe.Acrobat.Reader.64-bit"@, "PDF"@),
        ("Gaming"@, "Steam"@, "Valve.Steam"@, ""@),
        ("Gaming"@, "Epic Games Launcher"@, "EpicGames.EpicGamesLauncher"@, ""@),
        ("Gaming"@, "GOG Galaxy"@, "GOG.Galaxy"@, ""@),
    ]
}

/// A catalogue as its entries' category, name, id and note.
pub open spec fn catalog_view(apps: Seq<CatalogApp>) -> Seq<(Seq<char>, Seq<char>, Seq<char>, Seq<char>)> {
    Seq::new(apps.len(), |i: int| (apps[i].category@, apps[i].name@, apps[i].id@, apps[i].note@))
}

/// Curated starter packages, grouped by category in the order of `categories`. Every id
/// is a real WinGet package id, so `setup` can install them on a machine that has nothing
/// exported.
pub fn catalog_apps() -> (apps: Vec<CatalogApp>)
    ensures
        apps@.len() == 48,
        catalog_view(apps@) == catalog_spec(),
        forall|i: int| 0 <= i < apps@.len() ==> is_category(#[trigger] apps@[i].category@),
{
    let mut apps: Vec<CatalogApp> = Vec::new();
    apps.push(CatalogApp { category: "Browsers", name: "Chrome", id: "Google.Chrome", note: "Google's browser" });
    apps.push(CatalogApp { category: "Browsers", name: "Firefox", id: "Mozilla.Firefox", note: "Mozilla's browser" });
    apps.push(CatalogApp { category: "Browsers", name: "Brave", id: "Brave.Brave", note: "Chromium with built-in blocking" });
    apps.push(CatalogApp { category: "Browsers", name: "Opera", id: "Opera.Opera", note: "" });
    apps.push(CatalogApp { category: "Browsers", name: "Vivaldi", id: "Vivaldi.Vivaldi", note: "" });
    apps.push(CatalogApp { category: "Communication", name: "Discord", id: "Discord.Discord", note: "" });
    apps.push(CatalogApp { category: "Communication", name: "Slack", id: "SlackTechnologies.Slack", note: "" });
    apps.push(CatalogApp { category: "Communication", name: "Zoom", id: "Zoom.Zoom", note: "" });
    apps.push(CatalogApp { category: "Communication", name: "Teams", id: "Microsoft.Teams", note: "" });
    apps.push(CatalogApp { category: "Communication", name: "Telegram", id: "Telegram.TelegramDesktop", note: "" });
    apps.push(CatalogApp { category: "Development", name: "Git", id: "Git.Git", note: "version control" });
    apps.push(CatalogApp { category: "Development", name: "VS Code", id: "Microsoft.VisualStudioCode", note: "editor" });
    apps.push(CatalogApp { category: "Development", name: "Windows Terminal", id: "Microsoft.WindowsTerminal", note: "tabs, panes, good fonts" });
    apps.push(CatalogApp { category: "Development", name: "PowerShell", id: "Microsoft.PowerShell", note: "PowerShell 7" });
    apps.push(CatalogApp { category: "Development", name: "Node.js LTS", id: "OpenJS.NodeJS.LTS", note: "" });
    apps.push(CatalogApp { category: "Development", name: "Python 3.13", id: "Python.Python.3.13", note: "adds python and the py launcher" });
    apps.push(CatalogApp { category: "Development", name: "Rust", id: "Rustlang.Rustup", note: "rustup" });
    apps.push(CatalogApp { category: "Development", name: "GitHub CLI", id: "GitHub.cli", note: "" });
    apps.push(CatalogApp { category: "Development", name: "Docker Desktop", id: "Docker.DockerDesktop", note: "needs WSL2" });
    apps.push(CatalogApp { category: "Development", name: "Postman", id: "Postman.Postman", note: "" });
    apps.push(CatalogApp { category: "Development", name: "DBeaver", id: "DBeaver.DBeaver.Community", note: "database client" });
    apps.push(CatalogApp { category: "Development", name: "JetBrains Toolbox", id: "JetBrains.Toolbox", note: "manages JetBrains IDEs" });
    apps.push(CatalogApp { category: "Development", name: "Visual Studio 2022 Community", id: "Microsoft.VisualStudio.2022.Community", note: "large download" });
    apps.push(CatalogApp { category: "Runtimes", name: ".NET 8 Desktop Runtime", id: "Microsoft.DotNet.DesktopRuntime.8", note: "needed by many apps" });
    apps.push(CatalogApp { category: "Runtimes", name: "Java 21 (Temurin)", id: "EclipseAdoptium.Temurin.21.JDK", note: "" });
    apps.push(CatalogApp { category: "Runtimes", name: "Visual C++ Redistributable", id: "Microsoft.VCRedist.2015+.x64", note: "" });
    apps.push(CatalogApp { category: "Media", name: "VLC", id: "VideoLAN.VLC", note: "plays everything" });
    apps.push(CatalogApp { category: "Media", name: "Spotify", id: "Spotify.Spotify", note: "" });
    apps.push(CatalogApp { category: "Media", name: "OBS Studio", id: "OBSProject.OBSStudio", note: "screen recording" });
    apps.push(CatalogApp { category: "Media", name: "GIMP", id: "GIMP.GIMP", note: "image editing" });
    apps.push(CatalogApp { category: "Media", name: "Krita", id: "KDE.Krita", note: "digital painting" });
    apps.push(CatalogApp { category: "Media", name: "Audacity", id: "Audacity.Audacity", note: "" });
    apps.push(CatalogApp { category: "Media", name: "HandBrake", id: "HandBrake.HandBrake", note: "video conversion" });
    apps.push(CatalogApp { category: "Media", name: "mpv.net", id: "mpv.net", note: "minimal video player" });
    apps.push(CatalogApp { category: "Utilities", name: "7-Zip", id: "7zip.7zip", note: "archives" });
    apps.push(CatalogApp { category: "Utilities", name: "Notepad++", id: "Notepad++.Notepad++", note: "" });
    apps.push(CatalogApp { category: "Utilities", name: "PowerToys", id: "Microsoft.PowerToys", note: "Microsoft's power user tools" });
    apps.push(CatalogApp { category: "Utilities", name: "Everything", id: "voidtools.Everything", note: "instant file search" });
    apps.push(CatalogApp { category: "Utilities", name: "ShareX", id: "ShareX.ShareX", note: "screenshots" });
    apps.push(CatalogApp { category: "Utilities", name: "Rufus", id: "Rufus.Rufus", note: "bootable USB drives" });
    apps.push(CatalogApp { category: "Utilities", name: "WinDirStat", id: "WinDirStat.WinDirStat", note: "disk usage" });
    apps.push(CatalogApp { category: "Utilities", name: "Bitwarden", id: "Bitwarden.Bitwarden", note: "password manager" });
    apps.push(CatalogApp { category: "Utilities", name: "qBittorrent", id: "qBittorrent.qBittorrent", note: "" });
    apps.push(CatalogApp { category: "Utilities", name: "LibreOffice", id: "TheDocumentFoundation.LibreOffice", note: "office suite" });
    apps.push(CatalogApp { category: "Utilities", name: "Acrobat Reader", id: "Adobe.Acrobat.Reader.64-bit", note: "PDF" });
    apps.push(CatalogApp { category: "Gaming", name: "Steam", id: "Valve.Steam", note: "" });
    apps.push(CatalogApp { category: "Gaming", name: "Epic Games Launcher", id: "EpicGames.EpicGamesLauncher", note: "" });
    apps.push(CatalogApp { category: "Gaming", name: "GOG Galaxy", id: "GOG.Galaxy", note: "" });
    assert(catalog_view(apps@) =~= catalog_spec());
    apps
}


#[derive(Clone, Copy, Debug, PartialEq, Eq, Structural)]
pub struct StarterChoices {
    pub windows_settings: bool,
    pub environment: bool,
}

/// The preferences a fresh machine gets: dark mode, file extensions shown and developer
/// mode, leaving hidden files alone.
pub open spec fn starter_windows(choices: StarterChoices) -> WindowsSettings {
    if choices.windows_settings {
        WindowsSettings {
            dark_mode: Some(true),
            show_file_extensions: Some(true),
            show_hidden_files: None,
            developer_mode: Some(true),
        }
    } else {
        WindowsSettings {
            dark_mode: None,
            show_file_extensions: None,
            show_hidden_files: None,
            developer_mode: None,
        }
    }
}

pub open spec fn starter_variables(choices: StarterChoices) -> Seq<(Seq<char>, Seq<char>)> {
    if choices.environment {
        seq![("DOTNET_CLI_TELEMETRY_OPTOUT"@, "1"@), ("EDITOR"@, "code"@)]
    } else {
        Seq::empty()
    }
}

/// Whether `m` is the starter manifest of `ids` and `choices` in every field but the
/// instant it was made: the current version, the ids as plain apps in order, the chosen
/// preferences and variables, no PATH additions, no files and no source machine.
pub open spec fn is_starter_manifest(m: Manifest, ids: Seq<Seq<char>>, choices: StarterChoices) -> bool {
    &&& m.version == CURRENT_VERSION
    &&& m.exported_at matches Some(t) && exists|secs: nat| t@ == iso8601(secs)
    &&& m.source_machine is None
    &&& m.apps@.len() == ids.len()
    &&& forall|i: int| 0 <= i < ids.len() ==> (#[trigger] m.apps@[i] matches App::Id(id) && id@ == ids[i])
    &&& m.windows == starter_windows(choices)
    &&& crate::manifest::vars_view(m.environment.variables@) == starter_variables(choices)
    &&& m.environment.path@.len() == 0
    &&& m.files.copy@.len() == 0
}

/// The manifest a fresh machine can be set up from, with no export involved: the chosen
/// package ids as plain apps, and the optional preferences and variables.
pub fn starter_manifest(ids: &[String], choices: StarterChoices) -> (m: Manifest)
    ensures
        is_starter_manifest(m, Seq::new(ids@.len(), |i: int| ids@[i]@), choices),
        m.environment.wf(),
        manifest_problem(m) is None <==> forall|i: int| 0 <= i < ids@.len() ==> !blank(
            #[trigger] ids@[i]@,
        ),
{
    let mut apps: Vec<App> = Vec::new();
    let mut i: usize = 0;
    while i < ids.len()
        invariant
            i <= ids.len(),
            apps@.len() == i,
            forall|k: int| 0 <= k < i ==> apps@[k] == App::Id(#[trigger] ids@[k]),
        decreases ids.len() - i,
    {
        apps.push(App::Id(ids[i].clone()));
        i = i + 1;
    }
    let windows = if choices.windows_settings {
        WindowsSettings {
            dark_mode: Some(true),
            show_file_extensions: Some(true),
            show_hidden_files: None,
            developer_mode: Some(true),
        }
    } else {
        WindowsSettings {
            dark_mode: None,
            show_file_extensions: None,
            show_hidden_files: None,
            developer_mode: None,
        }
    };
    let mut variables: Vec<(String, String)> = Vec::new();
    if choices.environment {
        variables.push(
            (String::from_str("DOTNET_CLI_TELEMETRY_OPTOUT"), String::from_str("1")),
        );
        variables.push((String::from_str("EDITOR"), String::from_str("code")));
    }
    let m = Manifest {
        version: CURRENT_VERSION,
        exported_at: Some(now_iso8601()),
        source_machine: None,
        apps,
        windows,
        environment: Environment { variables, path: Vec::new() },
        files: Files { copy: Vec::new() },
    };
    proof {
        assert(crate::manifest::vars_view(m.environment.variables@) =~= starter_variables(
            choices,
        ));
        if has_app_without_id(m.apps@) {
            let k = choose|k: int| 0 <= k < m.apps@.len() && blank(#[trigger] m.apps@[k].id_spec());
            assert(m.apps@[k] == App::Id(ids@[k]));
        }
        if !(forall|i: int| 0 <= i < ids@.len() ==> !blank(#[trigger] ids@[i]@)) {
            let k = choose|k: int| 0 <= k < ids@.len() && blank(#[trigger] ids@[k]@);
            assert(m.apps@[k].id_spec() == ids@[k]@);
        }
        assert(m.files.copy@ =~= Seq::<crate::manifest::FileCopy>::empty());
        if choices.environment {
            reveal_strlit("DOTNET_CLI_TELEMETRY_OPTOUT");
            reveal_strlit("EDITOR");
            assert(crate::order::lex_lt("DOTNET_CLI_TELEMETRY_OPTOUT"@, "EDITOR"@));
        }
        let sv = Seq::new(ids@.len(), |i: int| ids@[i]@);
        assert forall|i: int| 0 <= i < sv.len() implies (#[trigger] m.apps@[i] matches App::Id(id) && id@ == sv[i]) by {
            assert(m.apps@[i] == App::Id(ids@[i]));
        }
    }
    m
}

} // verus!
