//! What each screen of the interactive interface shows: its title, its lines with the
//! tone each is drawn in, and the key hints under it. Turning tones into colours and
//! putting the text on the terminal is the caller's.
use vstd::prelude::*;

use crate::cli::{all_components, title_spec};
use crate::text::{decimal, push_decimal, push_str, string_of};
use crate::tui::{all_components_spec, App, StarterRow, StarterToggle, EXPORT_ROWS, SETUP_ROWS};

verus! {

/// How a line is drawn.
#[derive(Clone, Copy, Debug, PartialEq, Eq, Structural)]
pub enum Tone {
    Plain,
    /// The focused row.
    Focused,
    /// A notice, or a warning that something is missing.
    Warning,
    /// A heading of the starter list.
    Heading,
    /// An action that is not focused.
    Strong,
    /// A job that ended well.
    Done,
    /// A job that failed.
    Failed,
}

pub struct PageLine {
    pub text: String,
    pub tone: Tone,
}

/// A screen's content.
pub struct Page {
    pub title: String,
    pub lines: Vec<PageLine>,
    pub hints: &'static str,
}

pub type LineModel = (Seq<char>, Tone);

pub open spec fn lines_view(lines: Seq<PageLine>) -> Seq<LineModel> {
    Seq::new(lines.len(), |i: int| (lines[i].text@, lines[i].tone))
}

proof fn lemma_lines_push(v: Seq<PageLine>, l: PageLine)
    ensures
        lines_view(v.push(l)) == lines_view(v).push((l.text@, l.tone)),
{
    assert(lines_view(v.push(l)) =~= lines_view(v).push((l.text@, l.tone)));
}

fn push_line(lines: &mut Vec<PageLine>, l: PageLine)
    ensures
        lines_view(final(lines)@) == lines_view(old(lines)@).push((l.text@, l.tone)),
{
    proof {
        lemma_lines_push(lines@, l);
    }
    lines.push(l);
}

/// A row that can take the focus: marked when it has it.
pub open spec fn row_spec(selected: bool, label: Seq<char>) -> LineModel {
    if selected {
        (" > "@ + label, Tone::Focused)
    } else {
        ("   "@ + label, Tone::Plain)
    }
}

/// A tick box row.
pub open spec fn checkbox_spec(selected: bool, checked: bool, label: Seq<char>) -> LineModel {
    row_spec(selected, (if checked { "[x]"@ } else { "[ ]"@ }) + " "@ + label)
}

/// The row that starts something: marked when focused, set off otherwise.
pub open spec fn action_spec(selected: bool, label: Seq<char>) -> LineModel {
    if selected {
        row_spec(true, label)
    } else {
        ("   "@ + label, Tone::Strong)
    }
}

pub open spec fn plain(text: Seq<char>) -> LineModel {
    (text, Tone::Plain)
}

/// The notice at the bottom of a screen, after a blank line, if there is one.
pub open spec fn notice_spec(notice: Option<String>) -> Seq<LineModel> {
    match notice {
        Some(n) => seq![plain(Seq::empty()), ("  "@ + n@, Tone::Warning)],
        None => Seq::empty(),
    }
}

fn line(text: String, tone: Tone) -> (l: PageLine)
    ensures
        l.text@ == text@,
        l.tone == tone,
{
    PageLine { text, tone }
}

fn blank_line() -> (l: PageLine)
    ensures
        l.text@ == Seq::<char>::empty(),
        l.tone == Tone::Plain,
{
    PageLine { text: String::new(), tone: Tone::Plain }
}

fn text_line(text: &str, tone: Tone) -> (l: PageLine)
    ensures
        l.text@ == text@,
        l.tone == tone,
{
    PageLine { text: String::from_str(text), tone }
}

fn row_line(selected: bool, label: &str) -> (l: PageLine)
    ensures
        (l.text@, l.tone) == row_spec(selected, label@),
{
    let mut out: Vec<char> = Vec::new();
    if selected {
        push_str(&mut out, " > ");
    } else {
        push_str(&mut out, "   ");
    }
    push_str(&mut out, label);
    PageLine {
        text: string_of(out.as_slice()),
        tone: if selected {
            Tone::Focused
        } else {
            Tone::Plain
        },
    }
}

fn checkbox_line(selected: bool, checked: bool, label: &str) -> (l: PageLine)
    ensures
        (l.text@, l.tone) == checkbox_spec(selected, checked, label@),
{
    let mut out: Vec<char> = Vec::new();
    if checked {
        push_str(&mut out, "[x]");
    } else {
        push_str(&mut out, "[ ]");
    }
    push_str(&mut out, " ");
    push_str(&mut out, label);
    let text = string_of(out.as_slice());
    row_line(selected, text.as_str())
}

fn action_line(selected: bool, label: &str) -> (l: PageLine)
    ensures
        (l.text@, l.tone) == action_spec(selected, label@),
{
    if selected {
        row_line(true, label)
    } else {
        let mut out: Vec<char> = Vec::new();
        push_str(&mut out, "   ");
        push_str(&mut out, label);
        PageLine { text: string_of(out.as_slice()), tone: Tone::Strong }
    }
}

fn push_notice(lines: &mut Vec<PageLine>, notice: &Option<String>)
    ensures
        lines_view(final(lines)@) == lines_view(old(lines)@) + notice_spec(*notice),
{
    let ghost before = lines_view(lines@);
    match notice {
        Some(n) => {
            push_line(lines, blank_line());
            let mut out: Vec<char> = Vec::new();
            push_str(&mut out, "  ");
            push_str(&mut out, n.as_str());
            push_line(lines, line(string_of(out.as_slice()), Tone::Warning));
            assert(lines_view(lines@) =~= before + notice_spec(*notice));
        },
        None => {
            assert(lines_view(lines@) =~= before + notice_spec(*notice));
        },
    }
}

/// The entries of the home screen.
pub open spec fn home_items() -> Seq<Seq<char>> {
    seq!["Start fresh - pick what to install"@, "Setup from a bundle"@, "Export this machine"@, "Quit"@]
}

/// How many found bundles the home screen lists.
pub const LISTED_BUNDLES: usize = 5;

/// The bundles part of the home screen: a warning when there are none, otherwise the
/// first few and how many more there are.
pub open spec fn bundles_spec(bundles: Seq<String>) -> Seq<LineModel> {
    if bundles.len() == 0 {
        seq![("  none yet - export this machine to create one"@, Tone::Warning)]
    } else {
        let shown = if bundles.len() > 5 {
            5
        } else {
            bundles.len()
        };
        Seq::new(shown, |i: int| plain("  "@ + bundles[i]@)) + if bundles.len() > 5 {
            seq![plain("  ... and "@ + decimal((bundles.len() - 5) as nat) + " more"@)]
        } else {
            Seq::empty()
        }
    }
}

pub open spec fn home_spec(app: App) -> Seq<LineModel> {
    seq![plain("Your Windows setup, rebuilt after every reinstall."@), plain(Seq::empty())] + Seq::new(
        4,
        |i: int| row_spec(i == app.focus, home_items()[i]),
    ) + seq![plain(Seq::empty()), plain("Bundles found nearby:"@)] + bundles_spec(app.bundles@) + notice_spec(
        app.notice,
    )
}

/// The home screen.
pub fn home_page(app: &App) -> (page: Page)
    ensures
        page.title@ == " Works After Reinstall "@,
        lines_view(page.lines@) == home_spec(*app),
        page.hints@ == "Up/Down move   Enter select   q quit"@,
{
    let items = [
        "Start fresh - pick what to install",
        "Setup from a bundle",
        "Export this machine",
        "Quit",
    ];
    let mut lines: Vec<PageLine> = Vec::new();
    push_line(&mut lines, text_line("Your Windows setup, rebuilt after every reinstall.", Tone::Plain));
    push_line(&mut lines, blank_line());
    let mut k: usize = 0;
    while k < 4
        invariant
            k <= 4,
            items@.len() == 4,
            forall|i: int| 0 <= i < 4 ==> #[trigger] items@[i]@ == home_items()[i],
            lines_view(lines@) == seq![plain("Your Windows setup, rebuilt after every reinstall."@), plain(Seq::empty())]
                + Seq::new(k as nat, |i: int| row_spec(i == app.focus, home_items()[i])),
        decreases 4 - k,
    {
        let l = row_line(k == app.focus, items[k]);
        assert(items@[k as int]@ == home_items()[k as int]);
        push_line(&mut lines, l);
        assert(lines_view(lines@) =~= seq![
            plain("Your Windows setup, rebuilt after every reinstall."@),
            plain(Seq::empty()),
        ] + Seq::new((k + 1) as nat, |i: int| row_spec(i == app.focus, home_items()[i])));
        k = k + 1;
    }
    push_line(&mut lines, blank_line());
    push_line(&mut lines, text_line("Bundles found nearby:", Tone::Plain));
    let ghost head = lines_view(lines@);
    if app.bundles.len() == 0 {
        push_line(&mut lines, text_line("  none yet - export this machine to create one", Tone::Warning));
    } else {
        let shown = if app.bundles.len() > LISTED_BUNDLES {
            LISTED_BUNDLES
        } else {
            app.bundles.len()
        };
        let mut b: usize = 0;
        while b < shown
            invariant
                b <= shown <= app.bundles@.len(),
                lines_view(lines@) == head + Seq::new(b as nat, |i: int| plain("  "@ + app.bundles@[i]@)),
            decreases shown - b,
        {
            let mut out: Vec<char> = Vec::new();
            push_str(&mut out, "  ");
            push_str(&mut out, app.bundles[b].as_str());
            let l = line(string_of(out.as_slice()), Tone::Plain);
            push_line(&mut lines, l);
            assert(lines_view(lines@) =~= head + Seq::new((b + 1) as nat, |i: int| plain("  "@ + app.bundles@[i]@)));
            b = b + 1;
        }
        if app.bundles.len() > LISTED_BUNDLES {
            let mut out: Vec<char> = Vec::new();
            push_str(&mut out, "  ... and ");
            push_decimal(&mut out, (app.bundles.len() - LISTED_BUNDLES) as u64);
            push_str(&mut out, " more");
            push_line(&mut lines, line(string_of(out.as_slice()), Tone::Plain));
        }
    }
    assert(lines_view(lines@) =~= head + bundles_spec(app.bundles@));
    push_notice(&mut lines, &app.notice);
    assert(lines_view(lines@) =~= home_spec(*app));
    Page { title: String::from_str(" Works After Reinstall "), lines, hints: "Up/Down move   Enter select   q quit" }
}

/// The tick box rows for the four components.
pub open spec fn component_boxes(focus: int, ticked: Seq<bool>) -> Seq<LineModel> {
    Seq::new(4, |i: int| checkbox_spec(focus == i + 1, ticked[i], title_spec(all_components_spec()[i])))
}

fn push_component_boxes(lines: &mut Vec<PageLine>, focus: usize, ticked: &[bool; 4])
    ensures
        lines_view(final(lines)@) == lines_view(old(lines)@) + component_boxes(focus as int, ticked@),
{
    let all = all_components();
    let ghost head = lines_view(lines@);
    let mut k: usize = 0;
    while k < 4
        invariant
            k <= 4,
            all@ == all_components_spec(),
            lines_view(lines@) == head + Seq::new(
                k as nat,
                |i: int| checkbox_spec(focus == i + 1, ticked@[i], title_spec(all_components_spec()[i])),
            ),
        decreases 4 - k,
    {
        let l = checkbox_line(focus == k + 1, ticked[k], all[k].title());
        push_line(lines, l);
        assert(lines_view(lines@) =~= head + Seq::new(
            (k + 1) as nat,
            |i: int| checkbox_spec(focus == i + 1, ticked@[i], title_spec(all_components_spec()[i])),
        ));
        k = k + 1;
    }
    assert(lines_view(lines@) =~= head + component_boxes(focus as int, ticked@));
}

pub open spec fn export_spec(app: App) -> Seq<LineModel> {
    seq![
        row_spec(app.focus == 0, "Bundle folder"@),
        plain("     "@ + app.export_output@),
        plain(Seq::empty()),
        plain("   What to capture"@),
    ] + component_boxes(app.focus as int, app.export_enabled@) + seq![
        plain(Seq::empty()),
        action_spec(app.focus == 5, "Start export"@),
    ] + notice_spec(app.notice)
}

/// The export screen.
pub fn export_page(app: &App) -> (page: Page)
    ensures
        page.title@ == " Export "@,
        lines_view(page.lines@) == export_spec(*app),
        page.hints@ == "Tab next   Space toggle   Enter start   Esc back"@,
{
    let mut lines: Vec<PageLine> = Vec::new();
    push_line(&mut lines, row_line(app.focus == 0, "Bundle folder"));
    let mut out: Vec<char> = Vec::new();
    push_str(&mut out, "     ");
    push_str(&mut out, app.export_output.as_str());
    push_line(&mut lines, line(string_of(out.as_slice()), Tone::Plain));
    push_line(&mut lines, blank_line());
    push_line(&mut lines, text_line("   What to capture", Tone::Plain));
    push_component_boxes(&mut lines, app.focus, &app.export_enabled);
    push_line(&mut lines, blank_line());
    push_line(&mut lines, action_line(app.focus == EXPORT_ROWS - 1, "Start export"));
    push_notice(&mut lines, &app.notice);
    assert(lines_view(lines@) =~= export_spec(*app));
    Page { title: String::from_str(" Export "), lines, hints: "Tab next   Space toggle   Enter start   Esc back" }
}

/// The line under the setup screen's bundle row: the chosen bundle, with its place
/// among several, or a warning that none was found.
pub open spec fn bundle_hint_spec(app: App) -> Seq<LineModel> {
    if app.bundle_index < app.bundles@.len() {
        let path = app.bundles@[app.bundle_index as int]@;
        if app.bundles@.len() > 1 {
            seq![
                plain(
                    "     < "@ + path + " >   ("@ + decimal((app.bundle_index + 1) as nat) + " of "@ + decimal(
                        app.bundles@.len(),
                    ) + ")"@,
                ),
            ]
        } else {
            seq![plain("     "@ + path)]
        }
    } else {
        seq![("     no bundle found - go back and export this machine first"@, Tone::Warning)]
    }
}

pub open spec fn setup_spec(app: App) -> Seq<LineModel> {
    seq![row_spec(app.focus == 0, "Bundle"@)] + bundle_hint_spec(app) + seq![
        plain(Seq::empty()),
        plain("   What to restore"@),
    ] + component_boxes(app.focus as int, app.setup_enabled@) + seq![
        plain(Seq::empty()),
        checkbox_spec(app.focus == 5, app.dry_run, "Dry run (change nothing)"@),
        action_spec(app.focus == 6, "Start setup"@),
    ] + notice_spec(app.notice)
}

/// The setup screen.
pub fn setup_page(app: &App) -> (page: Page)
    ensures
        page.title@ == " Setup "@,
        lines_view(page.lines@) == setup_spec(*app),
        page.hints@ == "Tab next   Space toggle   Left/Right bundle   Enter start   Esc back"@,
{
    let mut lines: Vec<PageLine> = Vec::new();
    push_line(&mut lines, row_line(app.focus == 0, "Bundle"));
    if app.bundle_index < app.bundles.len() {
        let mut out: Vec<char> = Vec::new();
        if app.bundles.len() > 1 {
            push_str(&mut out, "     < ");
            push_str(&mut out, app.bundles[app.bundle_index].as_str());
            push_str(&mut out, " >   (");
            push_decimal(&mut out, (app.bundle_index + 1) as u64);
            push_str(&mut out, " of ");
            push_decimal(&mut out, app.bundles.len() as u64);
            push_str(&mut out, ")");
        } else {
            push_str(&mut out, "     ");
            push_str(&mut out, app.bundles[app.bundle_index].as_str());
        }
        push_line(&mut lines, line(string_of(out.as_slice()), Tone::Plain));
    } else {
        push_line(&mut lines, text_line("     no bundle found - go back and export this machine first", Tone::Warning));
    }
    push_line(&mut lines, blank_line());
    push_line(&mut lines, text_line("   What to restore", Tone::Plain));
    push_component_boxes(&mut lines, app.focus, &app.setup_enabled);
    push_line(&mut lines, blank_line());
    push_line(&mut lines, checkbox_line(app.focus == SETUP_ROWS - 2, app.dry_run, "Dry run (change nothing)"));
    push_line(&mut lines, action_line(app.focus == SETUP_ROWS - 1, "Start setup"));
    push_notice(&mut lines, &app.notice);
    assert(lines_view(lines@) =~= setup_spec(*app));
    Page {
        title: String::from_str(" Setup "),
        lines,
        hints: "Tab next   Space toggle   Left/Right bundle   Enter start   Esc back",
    }
}

/// The spinner's frames.
pub open spec fn spinner_frame(spinner: nat) -> Seq<char> {
    let k = spinner % 4;
    if k == 0 {
        "|"@
    } else if k == 1 {
        "/"@
    } else if k == 2 {
        "-"@
    } else {
        "\\"@
    }
}

/// The last line of the running screen: how the job stands.
pub open spec fn status_spec(done: Option<Result<(), String>>, spinner: nat) -> LineModel {
    match done {
        Some(Ok(())) => ("Done."@, Tone::Done),
        Some(Err(message)) => ("Failed: "@ + message@, Tone::Failed),
        None => plain("Working "@ + spinner_frame(spinner)),
    }
}

/// Where the log lines in view end, counted from the start of the log.
pub open spec fn log_end(total: int, scroll: int) -> int {
    total - if scroll < total {
        scroll
    } else {
        total
    }
}

/// Where the log lines in view start: as many before the end as there is room for.
pub open spec fn log_start(end: int, room: int) -> int {
    if end > room {
        end - room
    } else {
        0
    }
}

pub open spec fn room_of(view_rows: int) -> int {
    if view_rows > 2 {
        view_rows - 2
    } else {
        0
    }
}

/// The running screen's lines for a view of `view_rows` rows: blank lines while the
/// log is shorter than the view, the log lines in view, a blank line and the status.
pub open spec fn running_spec(app: App, running: crate::tui::Running, view_rows: int) -> Seq<LineModel> {
    let room = room_of(view_rows);
    let end = log_end(app.log@.len() as int, app.log_scroll as int);
    let start = log_start(end, room);
    Seq::new(
        (if room > end - start {
            room - (end - start)
        } else {
            0
        }) as nat,
        |i: int| plain(Seq::empty()),
    ) + Seq::new((end - start) as nat, |i: int| plain(app.log@[start + i]@)) + seq![
        plain(Seq::empty()),
        status_spec(running.done, running.spinner as nat),
    ]
}

pub open spec fn running_title_spec(app: App, running: crate::tui::Running) -> Seq<char> {
    if app.log_scroll > 0 {
        " "@ + running.title@ + " - scrolled back "@ + decimal(app.log_scroll as nat) + " "@
    } else {
        " "@ + running.title@ + " "@
    }
}

fn status_line(done: &Option<Result<(), String>>, spinner: usize) -> (l: PageLine)
    ensures
        (l.text@, l.tone) == status_spec(*done, spinner as nat),
{
    match done {
        Some(Ok(())) => text_line("Done.", Tone::Done),
        Some(Err(message)) => {
            let mut out: Vec<char> = Vec::new();
            push_str(&mut out, "Failed: ");
            push_str(&mut out, message.as_str());
            line(string_of(out.as_slice()), Tone::Failed)
        },
        None => {
            let frame = if spinner % 4 == 0 {
                "|"
            } else if spinner % 4 == 1 {
                "/"
            } else if spinner % 4 == 2 {
                "-"
            } else {
                "\\"
            };
            let mut out: Vec<char> = Vec::new();
            push_str(&mut out, "Working ");
            push_str(&mut out, frame);
            line(string_of(out.as_slice()), Tone::Plain)
        },
    }
}

/// The running screen for a view of `view_rows` rows; nothing while no job is on.
pub fn running_page(app: &App, view_rows: usize) -> (page: Option<Page>)
    ensures
        match app.running {
            None => page is None,
            Some(running) => page matches Some(p) && p.title@ == running_title_spec(*app, running) && lines_view(
                p.lines@,
            ) == running_spec(*app, running, view_rows as int) && p.hints@ == if running.done is Some {
                "Up/Down scroll   End newest   Enter back   Ctrl+C quit"@
            } else {
                "Up/Down scroll   working, please wait   Ctrl+C quit"@
            },
        },
{
    let running = match &app.running {
        Some(running) => running,
        None => {
            return None;
        },
    };
    let room: usize = if view_rows > 2 {
        view_rows - 2
    } else {
        0
    };
    let total = app.log.len();
    let end: usize = total - if app.log_scroll < total {
        app.log_scroll
    } else {
        total
    };
    let start: usize = if end > room {
        end - room
    } else {
        0
    };
    let padding: usize = if room > end - start {
        room - (end - start)
    } else {
        0
    };
    let mut lines: Vec<PageLine> = Vec::new();
    let mut k: usize = 0;
    while k < padding
        invariant
            k <= padding,
            lines_view(lines@) == Seq::new(k as nat, |i: int| plain(Seq::<char>::empty())),
        decreases padding - k,
    {
        push_line(&mut lines, blank_line());
        assert(lines_view(lines@) =~= Seq::new((k + 1) as nat, |i: int| plain(Seq::<char>::empty())));
        k = k + 1;
    }
    let ghost head = lines_view(lines@);
    let mut j: usize = start;
    while j < end
        invariant
            start <= j <= end <= app.log@.len(),
            lines_view(lines@) == head + Seq::new((j - start) as nat, |i: int| plain(app.log@[start + i]@)),
        decreases end - j,
    {
        push_line(&mut lines, line(app.log[j].clone(), Tone::Plain));
        assert(lines_view(lines@) =~= head + Seq::new((j + 1 - start) as nat, |i: int| plain(app.log@[start + i]@)));
        j = j + 1;
    }
    push_line(&mut lines, blank_line());
    push_line(&mut lines, status_line(&running.done, running.spinner));
    assert(lines_view(lines@) =~= running_spec(*app, *running, view_rows as int));
    let mut title: Vec<char> = Vec::new();
    push_str(&mut title, " ");
    push_str(&mut title, running.title.as_str());
    if app.log_scroll > 0 {
        push_str(&mut title, " - scrolled back ");
        push_decimal(&mut title, app.log_scroll as u64);
    }
    push_str(&mut title, " ");
    let hints = if running.done.is_some() {
        "Up/Down scroll   End newest   Enter back   Ctrl+C quit"
    } else {
        "Up/Down scroll   working, please wait   Ctrl+C quit"
    };
    Some(Page { title: string_of(title.as_slice()), lines, hints })
}

/// The line a starter row shows.
pub open spec fn starter_line_spec(app: App, index: int) -> LineModel {
    let focused = index == app.starter_focus;
    match app.starter_rows@[index] {
        StarterRow::Header(title) => ("   "@ + title@, Tone::Heading),
        StarterRow::App(k) => {
            let entry = app.catalog@[k as int];
            let label = if entry.note@.len() == 0 {
                entry.name@
            } else {
                entry.name@ + "  -  "@ + entry.note@
            };
            checkbox_spec(focused, app.starter_picked@[k as int], label)
        },
        StarterRow::Toggle(StarterToggle::Windows) => checkbox_spec(
            focused,
            app.starter_windows,
            "Windows: dark mode, file extensions, developer mode"@,
        ),
        StarterRow::Toggle(StarterToggle::Environment) => checkbox_spec(
            focused,
            app.starter_environment,
            "Environment: EDITOR, .NET telemetry opt-out"@,
        ),
        StarterRow::Toggle(StarterToggle::DryRun) => checkbox_spec(
            focused,
            app.starter_dry_run,
            "Dry run - show the plan, change nothing"@,
        ),
        StarterRow::Action => action_spec(focused, "Set this machine up"@),
    }
}

fn starter_line(app: &App, index: usize) -> (l: PageLine)
    requires
        app.wf(),
        index < app.starter_rows@.len(),
    ensures
        (l.text@, l.tone) == starter_line_spec(*app, index as int),
{
    proof {
        crate::tui::lemma_rows_name_apps(app.catalog@);
    }
    let focused = index == app.starter_focus;
    match app.starter_rows[index] {
        StarterRow::Header(title) => {
            let mut out: Vec<char> = Vec::new();
            push_str(&mut out, "   ");
            push_str(&mut out, title);
            line(string_of(out.as_slice()), Tone::Heading)
        },
        StarterRow::App(k) => {
            let entry = app.catalog[k];
            let mut label: Vec<char> = Vec::new();
            push_str(&mut label, entry.name);
            if crate::text::chars_of(entry.note).len() > 0 {
                push_str(&mut label, "  -  ");
                push_str(&mut label, entry.note);
            }
            let text = string_of(label.as_slice());
            checkbox_line(focused, app.starter_picked[k], text.as_str())
        },
        StarterRow::Toggle(StarterToggle::Windows) => checkbox_line(
            focused,
            app.starter_windows,
            "Windows: dark mode, file extensions, developer mode",
        ),
        StarterRow::Toggle(StarterToggle::Environment) => checkbox_line(
            focused,
            app.starter_environment,
            "Environment: EDITOR, .NET telemetry opt-out",
        ),
        StarterRow::Toggle(StarterToggle::DryRun) => checkbox_line(
            focused,
            app.starter_dry_run,
            "Dry run - show the plan, change nothing",
        ),
        StarterRow::Action => action_line(focused, "Set this machine up"),
    }
}

/// Where the starter rows in view end for a view of `view_rows` rows.
pub open spec fn starter_end(app: App, view_rows: int) -> int {
    let total = app.starter_rows@.len() as int;
    let start = if app.starter_scroll < total {
        app.starter_scroll as int
    } else {
        total
    };
    if start + view_rows < total {
        start + view_rows
    } else {
        total
    }
}

/// The starter screen for a view of `view_rows` rows: the rows from the first in
/// view, as many as fit.
pub fn starter_page(app: &App, view_rows: usize) -> (page: Page)
    requires
        app.wf(),
    ensures
        page.title@ == crate::tui::starter_title_spec(*app, starter_end(*app, view_rows as int)),
        ({
            let total = app.starter_rows@.len() as int;
            let start = if app.starter_scroll < total {
                app.starter_scroll as int
            } else {
                total
            };
            lines_view(page.lines@) == Seq::new(
                (starter_end(*app, view_rows as int) - start) as nat,
                |i: int| starter_line_spec(*app, start + i),
            )
        }),
        page.hints@ == "Up/Down move   Space pick   PageUp/Down jump   Enter go   Esc back"@,
{
    let total = app.starter_rows.len();
    let start = if app.starter_scroll < total {
        app.starter_scroll
    } else {
        total
    };
    let end = if view_rows < total - start {
        start + view_rows
    } else {
        total
    };
    let mut lines: Vec<PageLine> = Vec::new();
    let mut k: usize = start;
    while k < end
        invariant
            start <= k <= end <= total,
            total == app.starter_rows@.len(),
            app.wf(),
            lines_view(lines@) == Seq::new((k - start) as nat, |i: int| starter_line_spec(*app, start + i)),
        decreases end - k,
    {
        push_line(&mut lines, starter_line(app, k));
        assert(lines_view(lines@) =~= Seq::new((k + 1 - start) as nat, |i: int| starter_line_spec(*app, start + i)));
        k = k + 1;
    }
    Page {
        title: app.starter_title(end),
        lines,
        hints: "Up/Down move   Space pick   PageUp/Down jump   Enter go   Esc back",
    }
}

} // verus!
