//! Windows preferences: how they read as text, and the registry values that hold them.
use vstd::prelude::*;

use crate::manifest::WindowsSettings;
use crate::text::{chars_of, join, push_joined, push_str, string_of, char_vecs_view};

verus! {

pub open spec fn on_off_spec(value: bool) -> Seq<char> {
    if value {
        "on"@
    } else {
        "off"@
    }
}

pub open spec fn shown_spec(value: bool) -> Seq<char> {
    if value {
        "shown"@
    } else {
        "hidden"@
    }
}

pub fn on_off(value: bool) -> (text: &'static str)
    ensures
        text@ == on_off_spec(value),
{
    if value {
        "on"
    } else {
        "off"
    }
}

fn shown(value: bool) -> (text: &'static str)
    ensures
        text@ == shown_spec(value),
{
    if value {
        "shown"
    } else {
        "hidden"
    }
}

pub open spec fn part(setting: Option<bool>, label: Seq<char>, word: spec_fn(bool) -> Seq<char>) -> Seq<
    Seq<char>,
> {
    match setting {
        Some(v) => seq![label + word(v)],
        None => Seq::empty(),
    }
}

/// One phrase per setting that is present, in manifest order.
pub open spec fn summary_parts(s: WindowsSettings) -> Seq<Seq<char>> {
    part(s.dark_mode, "dark mode "@, |v: bool| on_off_spec(v)) + part(
        s.show_file_extensions,
        "file extensions "@,
        |v: bool| shown_spec(v),
    ) + part(s.show_hidden_files, "hidden files "@, |v: bool| shown_spec(v)) + part(
        s.developer_mode,
        "developer mode "@,
        |v: bool| on_off_spec(v),
    )
}

pub open spec fn summary_spec(s: WindowsSettings) -> Seq<char> {
    if summary_parts(s).len() == 0 {
        "nothing found"@
    } else {
        join(summary_parts(s), ", "@)
    }
}

fn push_part(parts: &mut Vec<Vec<char>>, label: &str, word: &str)
    ensures
        char_vecs_view(final(parts)@) == char_vecs_view(old(parts)@).push(label@ + word@),
{
    let mut text: Vec<char> = Vec::new();
    push_str(&mut text, label);
    push_str(&mut text, word);
    parts.push(text);
    assert(char_vecs_view(parts@) =~= char_vecs_view(old(parts)@).push(label@ + word@));
}

/// A one-line description of the captured settings, such as
/// `dark mode on, file extensions shown`.
pub fn summary(settings: &WindowsSettings) -> (text: String)
    ensures
        text@ == summary_spec(*settings),
{
    let mut parts: Vec<Vec<char>> = Vec::new();
    let ghost empty = Seq::<Seq<char>>::empty();
    assert(char_vecs_view(parts@) =~= empty);
    if let Some(value) = settings.dark_mode {
        push_part(&mut parts, "dark mode ", on_off(value));
    }
    let ghost after_dark = char_vecs_view(parts@);
    if let Some(value) = settings.show_file_extensions {
        push_part(&mut parts, "file extensions ", shown(value));
    }
    let ghost after_ext = char_vecs_view(parts@);
    if let Some(value) = settings.show_hidden_files {
        push_part(&mut parts, "hidden files ", shown(value));
    }
    let ghost after_hidden = char_vecs_view(parts@);
    if let Some(value) = settings.developer_mode {
        push_part(&mut parts, "developer mode ", on_off(value));
    }
    proof {
        let s = *settings;
        assert(after_dark =~= part(s.dark_mode, "dark mode "@, |v: bool| on_off_spec(v)));
        assert(after_ext =~= after_dark + part(
            s.show_file_extensions,
            "file extensions "@,
            |v: bool| shown_spec(v),
        ));
        assert(after_hidden =~= after_ext + part(
            s.show_hidden_files,
            "hidden files "@,
            |v: bool| shown_spec(v),
        ));
        assert(char_vecs_view(parts@) =~= summary_parts(s));
    }
    if parts.len() == 0 {
        String::from_str("nothing found")
    } else {
        let mut out: Vec<char> = Vec::new();
        push_joined(&mut out, &parts, ", ");
        assert(out@ =~= join(char_vecs_view(parts@), ", "@));
        string_of(out.as_slice())
    }
}


/// The registry hive a value lives in.
#[derive(Clone, Copy, Debug, PartialEq, Eq, Structural)]
pub enum Hive {
    CurrentUser,
    LocalMachine,
}

/// The registry values that hold the Windows preferences, all `REG_DWORD`.
#[derive(Clone, Copy, Debug, PartialEq, Eq, Structural)]
pub enum SettingValue {
    AppsUseLightTheme,
    SystemUsesLightTheme,
    HideFileExt,
    Hidden,
    AllowDevelopmentWithoutDevLicense,
}

impl SettingValue {
    pub fn hive(self) -> (hive: Hive)
        ensures
            hive == (match self {
                SettingValue::AllowDevelopmentWithoutDevLicense => Hive::LocalMachine,
                _ => Hive::CurrentUser,
            }),
    {
        match self {
            SettingValue::AllowDevelopmentWithoutDevLicense => Hive::LocalMachine,
            _ => Hive::CurrentUser,
        }
    }

    /// Short name of the hive, as messages print it.
    pub fn hive_label(self) -> (label: &'static str)
        ensures
            label@ == (match self {
                SettingValue::AllowDevelopmentWithoutDevLicense => "HKLM"@,
                _ => "HKCU"@,
            }),
    {
        match self {
            SettingValue::AllowDevelopmentWithoutDevLicense => "HKLM",
            _ => "HKCU",
        }
    }

    /// The key under the hive.
    pub fn key_path(self) -> (path: &'static str)
        ensures
            path@ == (match self {
                SettingValue::AppsUseLightTheme =>
                    "Software\\Microsoft\\Windows\\CurrentVersion\\Themes\\Personalize"@,
                SettingValue::SystemUsesLightTheme =>
                    "Software\\Microsoft\\Windows\\CurrentVersion\\Themes\\Personalize"@,
                SettingValue::HideFileExt =>
                    "Software\\Microsoft\\Windows\\CurrentVersion\\Explorer\\Advanced"@,
                SettingValue::Hidden =>
                    "Software\\Microsoft\\Windows\\CurrentVersion\\Explorer\\Advanced"@,
                SettingValue::AllowDevelopmentWithoutDevLicense =>
                    "Software\\Microsoft\\Windows\\CurrentVersion\\AppModelUnlock"@,
            }),
    {
        match self {
            SettingValue::AppsUseLightTheme => "Software\\Microsoft\\Windows\\CurrentVersion\\Themes\\Personalize",
            SettingValue::SystemUsesLightTheme => "Software\\Microsoft\\Windows\\CurrentVersion\\Themes\\Personalize",
            SettingValue::HideFileExt => "Software\\Microsoft\\Windows\\CurrentVersion\\Explorer\\Advanced",
            SettingValue::Hidden => "Software\\Microsoft\\Windows\\CurrentVersion\\Explorer\\Advanced",
            SettingValue::AllowDevelopmentWithoutDevLicense => "Software\\Microsoft\\Windows\\CurrentVersion\\AppModelUnlock",
        }
    }

    /// The value's name inside its key.
    pub fn value_name(self) -> (name: &'static str)
        ensures
            name@ == (match self {
                SettingValue::AppsUseLightTheme => "AppsUseLightTheme"@,
                SettingValue::SystemUsesLightTheme => "SystemUsesLightTheme"@,
                SettingValue::HideFileExt => "HideFileExt"@,
                SettingValue::Hidden => "Hidden"@,
                SettingValue::AllowDevelopmentWithoutDevLicense => "AllowDevelopmentWithoutDevLicense"@,
            }),
    {
        match self {
            SettingValue::AppsUseLightTheme => "AppsUseLightTheme",
            SettingValue::SystemUsesLightTheme => "SystemUsesLightTheme",
            SettingValue::HideFileExt => "HideFileExt",
            SettingValue::Hidden => "Hidden",
            SettingValue::AllowDevelopmentWithoutDevLicense => "AllowDevelopmentWithoutDevLicense",
        }
    }
}

/// One `REG_DWORD` to write.
#[derive(Clone, Copy, Debug, PartialEq, Eq, Structural)]
pub struct DwordWrite {
    pub value: SettingValue,
    pub data: u32,
}

/// A line to report, then the values that carry the change it reports.
pub struct SettingStep {
    pub message: String,
    pub writes: Vec<DwordWrite>,
}

pub open spec fn bit(b: bool) -> u32 {
    if b {
        1
    } else {
        0
    }
}

pub open spec fn dark_writes(dark: bool) -> Seq<DwordWrite> {
    seq![
        DwordWrite { value: SettingValue::AppsUseLightTheme, data: bit(!dark) },
        DwordWrite { value: SettingValue::SystemUsesLightTheme, data: bit(!dark) },
    ]
}

pub open spec fn extension_writes(show: bool) -> Seq<DwordWrite> {
    seq![DwordWrite { value: SettingValue::HideFileExt, data: bit(!show) }]
}

pub open spec fn hidden_writes(show: bool) -> Seq<DwordWrite> {
    seq![DwordWrite { value: SettingValue::Hidden, data: if show { 1u32 } else { 2u32 } }]
}

pub open spec fn developer_writes(enabled: bool) -> Seq<DwordWrite> {
    seq![DwordWrite { value: SettingValue::AllowDevelopmentWithoutDevLicense, data: bit(enabled) }]
}

pub open spec fn optional_step(
    setting: Option<bool>,
    label: Seq<char>,
    word: spec_fn(bool) -> Seq<char>,
    writes: spec_fn(bool) -> Seq<DwordWrite>,
) -> Seq<(Seq<char>, Seq<DwordWrite>)> {
    match setting {
        Some(v) => seq![(label + word(v), writes(v))],
        None => Seq::empty(),
    }
}

/// What applying `s` reports and writes, setting by setting in manifest order: dark mode
/// writes both light-theme flags inverted, file extensions the inverted "hide" flag,
/// hidden files 1 to show and 2 to hide, developer mode its flag.
pub open spec fn setting_steps(s: WindowsSettings) -> Seq<(Seq<char>, Seq<DwordWrite>)> {
    optional_step(s.dark_mode, "  dark mode -> "@, |v: bool| on_off_spec(v), |v: bool| dark_writes(v))
        + optional_step(
        s.show_file_extensions,
        "  file extensions -> "@,
        |v: bool| shown_spec(v),
        |v: bool| extension_writes(v),
    ) + optional_step(
        s.show_hidden_files,
        "  hidden files -> "@,
        |v: bool| shown_spec(v),
        |v: bool| hidden_writes(v),
    ) + optional_step(
        s.developer_mode,
        "  developer mode -> "@,
        |v: bool| on_off_spec(v),
        |v: bool| developer_writes(v),
    )
}

pub open spec fn steps_view(steps: Seq<SettingStep>) -> Seq<(Seq<char>, Seq<DwordWrite>)> {
    Seq::new(steps.len(), |k: int| (steps[k].message@, steps[k].writes@))
}

fn step(label: &str, word: &str, writes: Vec<DwordWrite>) -> (s: SettingStep)
    ensures
        s.message@ == label@ + word@,
        s.writes@ == writes@,
{
    let mut text: Vec<char> = Vec::new();
    push_str(&mut text, label);
    push_str(&mut text, word);
    SettingStep { message: string_of(text.as_slice()), writes }
}

/// The report lines and registry writes that apply `settings`.
pub fn setting_plan(settings: &WindowsSettings) -> (steps: Vec<SettingStep>)
    ensures
        steps_view(steps@) == setting_steps(*settings),
{
    let mut steps: Vec<SettingStep> = Vec::new();
    let ghost s = *settings;
    if let Some(dark) = settings.dark_mode {
        let light: u32 = if dark {
            0
        } else {
            1
        };
        let mut writes: Vec<DwordWrite> = Vec::new();
        writes.push(DwordWrite { value: SettingValue::AppsUseLightTheme, data: light });
        writes.push(DwordWrite { value: SettingValue::SystemUsesLightTheme, data: light });
        let st = step("  dark mode -> ", on_off(dark), writes);
        assert(st.writes@ =~= dark_writes(dark));
        steps.push(st);
    }
    if let Some(show) = settings.show_file_extensions {
        let mut writes: Vec<DwordWrite> = Vec::new();
        writes.push(DwordWrite { value: SettingValue::HideFileExt, data: if show { 0 } else { 1 } });
        let st = step("  file extensions -> ", shown(show), writes);
        assert(st.writes@ =~= extension_writes(show));
        steps.push(st);
    }
    if let Some(show) = settings.show_hidden_files {
        let mut writes: Vec<DwordWrite> = Vec::new();
        writes.push(DwordWrite { value: SettingValue::Hidden, data: if show { 1 } else { 2 } });
        let st = step("  hidden files -> ", shown(show), writes);
        assert(st.writes@ =~= hidden_writes(show));
        steps.push(st);
    }
    if let Some(enabled) = settings.developer_mode {
        let mut writes: Vec<DwordWrite> = Vec::new();
        writes.push(
            DwordWrite {
                value: SettingValue::AllowDevelopmentWithoutDevLicense,
                data: if enabled { 1 } else { 0 },
            },
        );
        let st = step("  developer mode -> ", on_off(enabled), writes);
        assert(st.writes@ =~= developer_writes(enabled));
        steps.push(st);
    }
    proof {
        assert(steps_view(steps@) =~= setting_steps(s));
    }
    steps
}

/// `HIVE\key\name` of a value, as messages print it.
pub fn value_location(value: SettingValue) -> (text: Vec<char>)
    ensures
        text@ == location_spec(value),
{
    let mut text: Vec<char> = Vec::new();
    push_str(&mut text, value.hive_label());
    push_str(&mut text, "\\");
    push_str(&mut text, value.key_path());
    push_str(&mut text, "\\");
    push_str(&mut text, value.value_name());
    text
}

pub open spec fn location_spec(value: SettingValue) -> Seq<char> {
    (match value {
        SettingValue::AllowDevelopmentWithoutDevLicense => "HKLM"@,
        _ => "HKCU"@,
    }) + "\\"@ + (match value {
        SettingValue::AppsUseLightTheme =>
            "Software\\Microsoft\\Windows\\CurrentVersion\\Themes\\Personalize"@,
        SettingValue::SystemUsesLightTheme =>
            "Software\\Microsoft\\Windows\\CurrentVersion\\Themes\\Personalize"@,
        SettingValue::HideFileExt =>
            "Software\\Microsoft\\Windows\\CurrentVersion\\Explorer\\Advanced"@,
        SettingValue::Hidden => "Software\\Microsoft\\Windows\\CurrentVersion\\Explorer\\Advanced"@,
        SettingValue::AllowDevelopmentWithoutDevLicense =>
            "Software\\Microsoft\\Windows\\CurrentVersion\\AppModelUnlock"@,
    }) + "\\"@ + (match value {
        SettingValue::AppsUseLightTheme => "AppsUseLightTheme"@,
        SettingValue::SystemUsesLightTheme => "SystemUsesLightTheme"@,
        SettingValue::HideFileExt => "HideFileExt"@,
        SettingValue::Hidden => "Hidden"@,
        SettingValue::AllowDevelopmentWithoutDevLicense => "AllowDevelopmentWithoutDevLicense"@,
    })
}

/// What to report when Windows refused a write for lack of permission: policy when the
/// process is already elevated, otherwise a request to run as Administrator.
pub fn denied_message(value: SettingValue, elevated: bool) -> (text: String)
    ensures
        text@ == location_spec(value) + (if elevated {
            " is locked down by policy on this machine"@
        } else {
            " needs administrator rights - run the command from a terminal opened as Administrator"@
        }),
{
    let mut text = value_location(value);
    if elevated {
        push_str(&mut text, " is locked down by policy on this machine");
    } else {
        push_str(
            &mut text,
            " needs administrator rights - run the command from a terminal opened as Administrator",
        );
    }
    string_of(text.as_slice())
}

/// The line applying reports, and all it does, when no preference is set.
pub fn nothing_to_apply(settings: &WindowsSettings) -> (line: Option<String>)
    ensures
        line is Some <==> settings.is_empty_spec(),
        line matches Some(l) ==> l@ == "  nothing to apply"@,
{
    if settings.is_empty() {
        Some(String::from_str("  nothing to apply"))
    } else {
        None
    }
}

/// What applying preferences does once they are written.
pub struct SettingsClosing {
    /// Whether to broadcast the settings change.
    pub broadcast: bool,
    pub line: Option<String>,
}

/// After applying preferences for real, the change is broadcast, and a note follows when
/// Explorer has to restart to show a file-view preference; a dry run does neither.
pub fn settings_closing(settings: &WindowsSettings, dry_run: bool) -> (closing: SettingsClosing)
    ensures
        closing.broadcast == !dry_run,
        closing.line is Some <==> (!dry_run && (settings.show_file_extensions is Some
            || settings.show_hidden_files is Some)),
        closing.line matches Some(l) ==> l@ == "  explorer may need a restart before these appear"@,
{
    if dry_run {
        SettingsClosing { broadcast: false, line: None }
    } else if needs_explorer_restart(settings) {
        SettingsClosing {
            broadcast: true,
            line: Some(String::from_str("  explorer may need a restart before these appear")),
        }
    } else {
        SettingsClosing { broadcast: true, line: None }
    }
}

/// The number a `REG_DWORD` value holds: its first four bytes, little-endian; nothing
/// for a value of another type or a shorter one.
pub fn dword_value(raw: &crate::envvars::RawValue) -> (n: Option<u32>)
    ensures
        n is Some <==> (raw.kind == crate::envvars::ValueKind::Dword && raw.bytes@.len() >= 4),
        n matches Some(v) ==> v == crate::envvars::dword_of_bytes(raw.bytes@),
{
    match raw.kind {
        crate::envvars::ValueKind::Dword => {
            if raw.bytes.len() >= 4 {
                let b = &raw.bytes;
                Some((b[0] as u32) + 256 * (b[1] as u32) + 65536 * (b[2] as u32) + 16777216 * (b[3] as u32))
            } else {
                None
            }
        },
        _ => None,
    }
}

/// Whether Explorer has to restart before applied settings show.
pub fn needs_explorer_restart(settings: &WindowsSettings) -> (restart: bool)
    ensures
        restart == (settings.show_file_extensions is Some || settings.show_hidden_files is Some),
{
    settings.show_file_extensions.is_some() || settings.show_hidden_files.is_some()
}

/// The settings the four registry values describe, each absent when its value could not
/// be read: dark mode when apps use no light theme, extensions shown when not hidden,
/// hidden files shown at 1, developer mode on at 1.
pub fn settings_from_dwords(
    apps_use_light_theme: Option<u32>,
    hide_file_ext: Option<u32>,
    hidden: Option<u32>,
    allow_development: Option<u32>,
) -> (s: WindowsSettings)
    ensures
        s == settings_read(apps_use_light_theme, hide_file_ext, hidden, allow_development),
{
    WindowsSettings {
        dark_mode: match apps_use_light_theme {
            Some(v) => Some(v == 0),
            None => None,
        },
        show_file_extensions: match hide_file_ext {
            Some(v) => Some(v == 0),
            None => None,
        },
        show_hidden_files: match hidden {
            Some(v) => Some(v == 1),
            None => None,
        },
        developer_mode: match allow_development {
            Some(v) => Some(v == 1),
            None => None,
        },
    }
}

pub open spec fn settings_read(
    apps_use_light_theme: Option<u32>,
    hide_file_ext: Option<u32>,
    hidden: Option<u32>,
    allow_development: Option<u32>,
) -> WindowsSettings {
    WindowsSettings {
        dark_mode: match apps_use_light_theme {
            Some(v) => Some(v == 0),
            None => None,
        },
        show_file_extensions: match hide_file_ext {
            Some(v) => Some(v == 0),
            None => None,
        },
        show_hidden_files: match hidden {
            Some(v) => Some(v == 1),
            None => None,
        },
        developer_mode: match allow_development {
            Some(v) => Some(v == 1),
            None => None,
        },
    }
}

/// The data the last write of `value` in `writes` leaves behind.
pub open spec fn last_write(writes: Seq<DwordWrite>, value: SettingValue) -> Option<u32>
    decreases writes.len(),
{
    if writes.len() == 0 {
        None
    } else if writes.last().value == value {
        Some(writes.last().data)
    } else {
        last_write(writes.drop_last(), value)
    }
}

/// `first` when it holds a value, else `second`.
pub open spec fn either(first: Option<u32>, second: Option<u32>) -> Option<u32> {
    match first {
        Some(x) => Some(x),
        None => second,
    }
}

/// Every write of the plan, in order.
pub open spec fn all_writes(steps: Seq<(Seq<char>, Seq<DwordWrite>)>) -> Seq<DwordWrite>
    decreases steps.len(),
{
    if steps.len() == 0 {
        Seq::empty()
    } else {
        all_writes(steps.drop_last()) + steps.last().1
    }
}

/// Reading the preferences back after applying them gives the same preferences: each
/// setting the manifest names is restored exactly.
pub proof fn captured_settings_match_applied(s: WindowsSettings)
    ensures
        settings_read(
            last_write(all_writes(setting_steps(s)), SettingValue::AppsUseLightTheme),
            last_write(all_writes(setting_steps(s)), SettingValue::HideFileExt),
            last_write(all_writes(setting_steps(s)), SettingValue::Hidden),
            last_write(all_writes(setting_steps(s)), SettingValue::AllowDevelopmentWithoutDevLicense),
        ) == s,
{
    let p1 = optional_step(
        s.dark_mode,
        "  dark mode -> "@,
        |v: bool| on_off_spec(v),
        |v: bool| dark_writes(v),
    );
    let p2 = optional_step(
        s.show_file_extensions,
        "  file extensions -> "@,
        |v: bool| shown_spec(v),
        |v: bool| extension_writes(v),
    );
    let p3 = optional_step(
        s.show_hidden_files,
        "  hidden files -> "@,
        |v: bool| shown_spec(v),
        |v: bool| hidden_writes(v),
    );
    let p4 = optional_step(
        s.developer_mode,
        "  developer mode -> "@,
        |v: bool| on_off_spec(v),
        |v: bool| developer_writes(v),
    );
    lemma_all_writes_concat(p1 + p2 + p3, p4);
    lemma_all_writes_concat(p1 + p2, p3);
    lemma_all_writes_concat(p1, p2);
    lemma_all_writes_single(p1);
    lemma_all_writes_single(p2);
    lemma_all_writes_single(p3);
    lemma_all_writes_single(p4);
    let w1 = all_writes(p1);
    let w2 = all_writes(p2);
    let w3 = all_writes(p3);
    let w4 = all_writes(p4);
    assert(all_writes(setting_steps(s)) == w1 + w2 + w3 + w4);
    lemma_last_of_four(w1, w2, w3, w4, SettingValue::AppsUseLightTheme);
    lemma_last_of_four(w1, w2, w3, w4, SettingValue::HideFileExt);
    lemma_last_of_four(w1, w2, w3, w4, SettingValue::Hidden);
    lemma_last_of_four(w1, w2, w3, w4, SettingValue::AllowDevelopmentWithoutDevLicense);
    reveal_with_fuel(last_write, 3);
}

/// What applying preferences leaves in the registry, value by value: dark mode clears
/// both light-theme flags (1 for light), showing file extensions clears the
/// `HideFileExt` flag (1 hides them), showing hidden files sets `Hidden` to 1 (2 hides
/// them), developer mode sets its flag to 1 (0 when off); a preference the manifest
/// leaves out is not written at all.
pub proof fn applied_registry_values(s: WindowsSettings)
    ensures
        last_write(all_writes(setting_steps(s)), SettingValue::AppsUseLightTheme) == match s.dark_mode {
            Some(dark) => Some(if dark { 0u32 } else { 1u32 }),
            None => None,
        },
        last_write(all_writes(setting_steps(s)), SettingValue::SystemUsesLightTheme) == match s.dark_mode {
            Some(dark) => Some(if dark { 0u32 } else { 1u32 }),
            None => None,
        },
        last_write(all_writes(setting_steps(s)), SettingValue::HideFileExt) == match s.show_file_extensions {
            Some(show) => Some(if show { 0u32 } else { 1u32 }),
            None => None,
        },
        last_write(all_writes(setting_steps(s)), SettingValue::Hidden) == match s.show_hidden_files {
            Some(show) => Some(if show { 1u32 } else { 2u32 }),
            None => None,
        },
        last_write(all_writes(setting_steps(s)), SettingValue::AllowDevelopmentWithoutDevLicense)
            == match s.developer_mode {
            Some(on) => Some(if on { 1u32 } else { 0u32 }),
            None => None,
        },
{
    let p1 = optional_step(
        s.dark_mode,
        "  dark mode -> "@,
        |v: bool| on_off_spec(v),
        |v: bool| dark_writes(v),
    );
    let p2 = optional_step(
        s.show_file_extensions,
        "  file extensions -> "@,
        |v: bool| shown_spec(v),
        |v: bool| extension_writes(v),
    );
    let p3 = optional_step(
        s.show_hidden_files,
        "  hidden files -> "@,
        |v: bool| shown_spec(v),
        |v: bool| hidden_writes(v),
    );
    let p4 = optional_step(
        s.developer_mode,
        "  developer mode -> "@,
        |v: bool| on_off_spec(v),
        |v: bool| developer_writes(v),
    );
    lemma_all_writes_concat(p1 + p2 + p3, p4);
    lemma_all_writes_concat(p1 + p2, p3);
    lemma_all_writes_concat(p1, p2);
    lemma_all_writes_single(p1);
    lemma_all_writes_single(p2);
    lemma_all_writes_single(p3);
    lemma_all_writes_single(p4);
    let w1 = all_writes(p1);
    let w2 = all_writes(p2);
    let w3 = all_writes(p3);
    let w4 = all_writes(p4);
    assert(all_writes(setting_steps(s)) == w1 + w2 + w3 + w4);
    lemma_last_of_four(w1, w2, w3, w4, SettingValue::AppsUseLightTheme);
    lemma_last_of_four(w1, w2, w3, w4, SettingValue::SystemUsesLightTheme);
    lemma_last_of_four(w1, w2, w3, w4, SettingValue::HideFileExt);
    lemma_last_of_four(w1, w2, w3, w4, SettingValue::Hidden);
    lemma_last_of_four(w1, w2, w3, w4, SettingValue::AllowDevelopmentWithoutDevLicense);
    reveal_with_fuel(last_write, 3);
}

/// What capturing reads from the registry: no light theme means dark mode,
/// `HideFileExt` 0 means file extensions are shown and any other value that they are
/// hidden, `Hidden` 1 means hidden files are shown, a developer-mode flag of 1 means
/// it is on; a value that could not be read leaves its preference out.
pub proof fn captured_registry_values(
    apps_use_light_theme: Option<u32>,
    hide_file_ext: Option<u32>,
    hidden: Option<u32>,
    allow_development: Option<u32>,
)
    ensures
        ({
            let s = settings_read(apps_use_light_theme, hide_file_ext, hidden, allow_development);
            &&& (s.dark_mode is Some <==> apps_use_light_theme is Some)
            &&& (apps_use_light_theme == Some(0u32) ==> s.dark_mode == Some(true))
            &&& (apps_use_light_theme == Some(1u32) ==> s.dark_mode == Some(false))
            &&& (s.show_file_extensions is Some <==> hide_file_ext is Some)
            &&& (hide_file_ext == Some(0u32) ==> s.show_file_extensions == Some(true))
            &&& (hide_file_ext matches Some(v) && v != 0 ==> s.show_file_extensions == Some(false))
            &&& (s.show_hidden_files is Some <==> hidden is Some)
            &&& (hidden == Some(1u32) ==> s.show_hidden_files == Some(true))
            &&& (hidden == Some(2u32) ==> s.show_hidden_files == Some(false))
            &&& (s.developer_mode is Some <==> allow_development is Some)
            &&& (allow_development == Some(1u32) ==> s.developer_mode == Some(true))
            &&& (allow_development == Some(0u32) ==> s.developer_mode == Some(false))
        }),
{
}

proof fn lemma_last_of_four(
    w1: Seq<DwordWrite>,
    w2: Seq<DwordWrite>,
    w3: Seq<DwordWrite>,
    w4: Seq<DwordWrite>,
    v: SettingValue,
)
    ensures
        last_write(w1 + w2 + w3 + w4, v) == either(
            last_write(w4, v),
            either(last_write(w3, v), either(last_write(w2, v), last_write(w1, v))),
        ),
{
    lemma_last_write_concat(w1 + w2 + w3, w4, v);
    lemma_last_write_concat(w1 + w2, w3, v);
    lemma_last_write_concat(w1, w2, v);
}

proof fn lemma_all_writes_single(p: Seq<(Seq<char>, Seq<DwordWrite>)>)
    requires
        p.len() <= 1,
    ensures
        all_writes(p) == (if p.len() == 0 {
            Seq::<DwordWrite>::empty()
        } else {
            p[0].1
        }),
{
    if p.len() == 1 {
        assert(p.drop_last() =~= Seq::<(Seq<char>, Seq<DwordWrite>)>::empty());
        assert(p.last() == p[0]);
        assert(all_writes(p.drop_last()) =~= Seq::<DwordWrite>::empty());
        assert(Seq::<DwordWrite>::empty() + p[0].1 =~= p[0].1);
    }
}

proof fn lemma_all_writes_concat(
    a: Seq<(Seq<char>, Seq<DwordWrite>)>,
    b: Seq<(Seq<char>, Seq<DwordWrite>)>,
)
    ensures
        all_writes(a + b) == all_writes(a) + all_writes(b),
    decreases b.len(),
{
    if b.len() == 0 {
        assert(a + b =~= a);
        assert(all_writes(a) + Seq::<DwordWrite>::empty() =~= all_writes(a));
    } else {
        lemma_all_writes_concat(a, b.drop_last());
        assert((a + b).drop_last() =~= a + b.drop_last());
        assert((a + b).last() == b.last());
        assert(all_writes(a + b) =~= all_writes(a) + all_writes(b));
    }
}

proof fn lemma_last_write_concat(a: Seq<DwordWrite>, b: Seq<DwordWrite>, v: SettingValue)
    ensures
        last_write(a + b, v) == either(last_write(b, v), last_write(a, v)),
    decreases b.len(),
{
    if b.len() == 0 {
        assert(a + b =~= a);
    } else {
        lemma_last_write_concat(a, b.drop_last(), v);
        assert((a + b).drop_last() =~= a + b.drop_last());
        assert((a + b).last() == b.last());
    }
}

} // verus!
