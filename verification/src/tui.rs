//! The state of the interactive interface and how keys, wheel turns and job output
//! change it. Drawing, reading the terminal and running jobs are the caller's: each
//! handler says in its result what outside work it asks for.
use vstd::prelude::*;

use crate::catalog::{catalog_apps, starter_manifest, CatalogApp, StarterChoices};
use crate::cli::{all_components, Component};
use crate::discovery::DEFAULT_BUNDLE_DIR;
use crate::manifest::Manifest;
use crate::paths::strings_view;
use crate::text::{chars_of, push_decimal, push_str, same_chars, string_of, trim, trim_chars};

verus! {

/// The rows of the export screen that take the focus.
pub const EXPORT_ROWS: usize = 6;

/// The rows of the setup screen that take the focus.
pub const SETUP_ROWS: usize = 7;

/// The entries of the home screen.
pub const HOME_ITEMS: usize = 4;

/// How many log lines are kept.
pub const MAX_LOG_LINES: usize = 500;

/// How far PageUp and PageDown move.
pub const PAGE: isize = 10;

#[derive(Clone, Copy, Debug, PartialEq, Eq, Structural)]
pub enum Screen {
    Home,
    Starter,
    Export,
    Setup,
    Running,
}

#[derive(Clone, Copy, Debug, PartialEq, Eq, Structural)]
pub enum StarterToggle {
    Windows,
    Environment,
    DryRun,
}

/// A row of the starter list.
#[derive(Clone, Copy, Debug, PartialEq, Eq)]
pub enum StarterRow {
    /// A category heading; it never takes the focus.
    Header(&'static str),
    /// The catalogue app at this index.
    App(usize),
    Toggle(StarterToggle),
    /// The row that starts the run.
    Action,
}

/// A key as the interface tells keys apart.
#[derive(Clone, Copy, Debug, PartialEq, Eq, Structural)]
pub enum KeyCode {
    Char(char),
    Up,
    Down,
    Left,
    Right,
    Tab,
    BackTab,
    PageUp,
    PageDown,
    Home,
    End,
    Enter,
    Esc,
    Backspace,
    Other,
}

/// A key press, and whether Control was held.
#[derive(Clone, Copy, Debug, PartialEq, Eq, Structural)]
pub struct Key {
    pub code: KeyCode,
    pub control: bool,
}

/// A turn of the mouse wheel.
#[derive(Clone, Copy, Debug, PartialEq, Eq, Structural)]
pub enum Wheel {
    Up,
    Down,
}

/// A job the interface hands to a worker.
#[derive(Debug)]
pub enum Job {
    /// Apply a manifest built from the starter picks.
    Starter { manifest: Manifest, dry_run: bool, only: Vec<Component> },
    /// Export this machine into `output`, leaving `skip` out.
    Export { output: String, skip: Vec<Component> },
    /// Apply the bundle at `bundle`.
    Setup { bundle: String, dry_run: bool, only: Vec<Component> },
}

/// Outside work a handler asks for.
#[derive(Debug)]
pub enum Effect {
    Nothing,
    /// Look for bundles again and hand the list to `refresh_bundles`.
    RefreshBundles,
    /// Start this job; its output goes to `drain`.
    Start(Job),
}

/// The job on the running screen.
#[derive(Clone, Debug, PartialEq, Eq)]
pub struct Running {
    pub title: String,
    pub done: Option<Result<(), String>>,
    pub spinner: usize,
}

// ---------------------------------------------------------------------------
// The starter list

pub open spec fn is_header(row: StarterRow) -> bool {
    row matches StarterRow::Header(_)
}

/// Whether the app at `k` starts a new category.
pub open spec fn starts_category(catalog: Seq<CatalogApp>, k: int) -> bool {
    if k == 0 {
        catalog[0].category@ != ""@
    } else {
        catalog[k].category@ != catalog[k - 1].category@
    }
}

/// The app rows of `catalog`: each app, with a heading before the first app of a
/// category.
pub open spec fn app_rows(catalog: Seq<CatalogApp>) -> Seq<StarterRow>
    decreases catalog.len(),
{
    if catalog.len() == 0 {
        Seq::empty()
    } else {
        let k = catalog.len() - 1;
        let before = app_rows(catalog.drop_last());
        if starts_category(catalog, k) {
            before + seq![StarterRow::Header(catalog[k].category), StarterRow::App(k as usize)]
        } else {
            before.push(StarterRow::App(k as usize))
        }
    }
}

/// The rows after the apps: a heading, the two extras, the dry-run switch and the
/// action.
pub open spec fn tail_rows() -> Seq<StarterRow> {
    seq![
        StarterRow::Header("Also set up"),
        StarterRow::Toggle(StarterToggle::Windows),
        StarterRow::Toggle(StarterToggle::Environment),
        StarterRow::Toggle(StarterToggle::DryRun),
        StarterRow::Action,
    ]
}

pub open spec fn starter_rows_spec(catalog: Seq<CatalogApp>) -> Seq<StarterRow> {
    app_rows(catalog) + tail_rows()
}

proof fn lemma_app_rows_index(catalog: Seq<CatalogApp>)
    ensures
        forall|i: int|
            0 <= i < app_rows(catalog).len() ==> (#[trigger] app_rows(catalog)[i] matches StarterRow::App(k) ==> k
                < catalog.len()),
        app_rows(catalog).len() <= 2 * catalog.len(),
    decreases catalog.len(),
{
    if catalog.len() > 0 {
        lemma_app_rows_index(catalog.drop_last());
    }
}

/// The rows of the starter list for `catalog`.
pub fn starter_rows(catalog: &[CatalogApp]) -> (rows: Vec<StarterRow>)
    requires
        catalog@.len() < usize::MAX / 4,
    ensures
        rows@ == starter_rows_spec(catalog@),
{
    let mut rows: Vec<StarterRow> = Vec::new();
    let mut k: usize = 0;
    assert(catalog@.take(0) =~= Seq::<CatalogApp>::empty());
    while k < catalog.len()
        invariant
            k <= catalog.len(),
            rows@ == app_rows(catalog@.take(k as int)),
        decreases catalog.len() - k,
    {
        let ghost upto = catalog@.take(k + 1);
        assert(upto.drop_last() =~= catalog@.take(k as int));
        let new_category = if k == 0 {
            chars_of(catalog[0].category).len() != 0
        } else {
            !same_chars(chars_of(catalog[k].category).as_slice(), chars_of(catalog[k - 1].category).as_slice())
        };
        proof {
            if k == 0 {
                assert(""@.len() == 0) by {
                    reveal_strlit("");
                }
                if catalog@[0].category@.len() == 0 {
                    assert(catalog@[0].category@ =~= ""@);
                }
            }
            assert(starts_category(upto, k as int) == starts_category(catalog@, k as int));
        }
        if new_category {
            rows.push(StarterRow::Header(catalog[k].category));
        }
        rows.push(StarterRow::App(k));
        proof {
            if new_category {
                assert(rows@ =~= app_rows(catalog@.take(k as int)) + seq![
                    StarterRow::Header(catalog@[k as int].category),
                    StarterRow::App(k),
                ]);
            }
        }
        k = k + 1;
    }
    assert(catalog@.take(catalog.len() as int) =~= catalog@);
    rows.push(StarterRow::Header("Also set up"));
    rows.push(StarterRow::Toggle(StarterToggle::Windows));
    rows.push(StarterRow::Toggle(StarterToggle::Environment));
    rows.push(StarterRow::Toggle(StarterToggle::DryRun));
    rows.push(StarterRow::Action);
    assert(rows@ =~= starter_rows_spec(catalog@));
    rows
}

/// The first row at or after `i` that takes the focus; 0 where none does.
pub open spec fn first_selectable_from(rows: Seq<StarterRow>, i: int) -> int
    decreases rows.len() - i,
{
    if i < 0 || i >= rows.len() {
        0
    } else if !is_header(rows[i]) {
        i
    } else {
        first_selectable_from(rows, i + 1)
    }
}

/// The last row before `i` that takes the focus; 0 where none does.
pub open spec fn last_selectable_before(rows: Seq<StarterRow>, i: int) -> int
    decreases i,
{
    if i <= 0 || i > rows.len() {
        0
    } else if !is_header(rows[i - 1]) {
        i - 1
    } else {
        last_selectable_before(rows, i - 1)
    }
}

/// The first row that takes the focus; 0 where none does.
pub open spec fn first_selectable_spec(rows: Seq<StarterRow>) -> int {
    first_selectable_from(rows, 0)
}

/// The last row that takes the focus; 0 where none does.
pub open spec fn last_selectable_spec(rows: Seq<StarterRow>) -> int {
    last_selectable_before(rows, rows.len() as int)
}

proof fn lemma_first_selectable_from(rows: Seq<StarterRow>, i: int)
    requires
        0 <= i <= rows.len(),
    ensures
        0 <= first_selectable_from(rows, i) < rows.len() || first_selectable_from(rows, i) == 0,
    decreases rows.len() - i,
{
    if i < rows.len() && is_header(rows[i]) {
        lemma_first_selectable_from(rows, i + 1);
    }
}

proof fn lemma_last_selectable_before(rows: Seq<StarterRow>, i: int)
    requires
        0 <= i <= rows.len(),
    ensures
        0 <= last_selectable_before(rows, i) < rows.len() || last_selectable_before(rows, i) == 0,
    decreases i,
{
    if i > 0 && is_header(rows[i - 1]) {
        lemma_last_selectable_before(rows, i - 1);
    }
}

pub fn first_selectable(rows: &[StarterRow]) -> (index: usize)
    ensures
        index == first_selectable_spec(rows@),
{
    let mut i: usize = 0;
    while i < rows.len()
        invariant
            i <= rows.len(),
            first_selectable_from(rows@, i as int) == first_selectable_spec(rows@),
        decreases rows.len() - i,
    {
        if !matches!(rows[i], StarterRow::Header(_)) {
            return i;
        }
        i = i + 1;
    }
    0
}

pub fn last_selectable(rows: &[StarterRow]) -> (index: usize)
    ensures
        index == last_selectable_spec(rows@),
{
    let mut i: usize = rows.len();
    while i > 0
        invariant
            i <= rows.len(),
            last_selectable_before(rows@, i as int) == last_selectable_spec(rows@),
        decreases i,
    {
        if !matches!(rows[i - 1], StarterRow::Header(_)) {
            return i - 1;
        }
        i = i - 1;
    }
    0
}

// ---------------------------------------------------------------------------
// Component tick boxes

/// The component a row of the export or setup screen stands for: rows 1 to 4.
pub open spec fn component_row_spec(row: nat) -> Option<nat> {
    if 1 <= row && row <= 4 {
        Some((row - 1) as nat)
    } else {
        None
    }
}

pub fn component_row(row: usize) -> (index: Option<usize>)
    ensures
        match index {
            Some(i) => component_row_spec(row as nat) == Some(i as nat),
            None => component_row_spec(row as nat) is None,
        },
{
    if row >= 1 && row - 1 < 4 {
        Some(row - 1)
    } else {
        None
    }
}

/// Flips the tick box a row stands for, if it stands for one.
pub fn toggle(selection: &mut [bool; 4], row: usize)
    ensures
        match component_row_spec(row as nat) {
            Some(i) => final(selection)@ == old(selection)@.update(i as int, !old(selection)@[i as int]),
            None => final(selection)@ == old(selection)@,
        },
{
    match component_row(row) {
        Some(i) => {
            let flipped = !selection[i];
            selection.set(i, flipped);
        },
        None => {},
    }
}

pub open spec fn all_components_spec() -> Seq<Component> {
    seq![Component::Apps, Component::Environment, Component::Windows, Component::Files]
}

/// The components whose box is in state `state`, in display order.
pub open spec fn components_where(selection: Seq<bool>, state: bool, n: nat) -> Seq<Component>
    decreases n,
{
    if n == 0 {
        Seq::empty()
    } else {
        let before = components_where(selection, state, (n - 1) as nat);
        if selection[n - 1] == state {
            before.push(all_components_spec()[n - 1])
        } else {
            before
        }
    }
}

fn components_in_state(selection: &[bool; 4], state: bool) -> (out: Vec<Component>)
    ensures
        out@ == components_where(selection@, state, 4),
{
    let all = all_components();
    let mut out: Vec<Component> = Vec::new();
    let mut k: usize = 0;
    while k < 4
        invariant
            k <= 4,
            all@ == all_components_spec(),
            out@ == components_where(selection@, state, k as nat),
        decreases 4 - k,
    {
        if selection[k] == state {
            out.push(all[k]);
        }
        k = k + 1;
    }
    out
}


// ---------------------------------------------------------------------------
// The interface state

/// Everything the interface shows and remembers.
pub struct App {
    pub screen: Screen,
    /// The focused row of the home, export or setup screen.
    pub focus: usize,
    /// Bundles found nearby, as paths.
    pub bundles: Vec<String>,
    pub bundle_index: usize,
    pub export_output: String,
    pub export_enabled: [bool; 4],
    pub setup_enabled: [bool; 4],
    /// The catalogue the starter list offers.
    pub catalog: Vec<CatalogApp>,
    pub starter_rows: Vec<StarterRow>,
    pub starter_picked: Vec<bool>,
    pub starter_focus: usize,
    /// The first starter row in view.
    pub starter_scroll: usize,
    pub starter_windows: bool,
    pub starter_environment: bool,
    pub starter_dry_run: bool,
    pub dry_run: bool,
    pub notice: Option<String>,
    pub log: Vec<String>,
    /// How many lines back from the newest the log view is scrolled.
    pub log_scroll: usize,
    /// Rows the last drawn list had room for.
    pub view_height: usize,
    pub running: Option<Running>,
    pub should_quit: bool,
}

impl App {
    /// The state every handler keeps: the starter list belongs to the catalogue and
    /// its focus is on a row of it, focus rows stay within the largest screen, and the
    /// chosen bundle is one of those found.
    pub open spec fn wf(&self) -> bool {
        &&& self.catalog@.len() < usize::MAX / 4
        &&& self.starter_picked@.len() == self.catalog@.len()
        &&& self.starter_rows@ == starter_rows_spec(self.catalog@)
        &&& self.starter_focus < self.starter_rows@.len()
        &&& self.focus < SETUP_ROWS
        &&& (self.bundle_index == 0 || self.bundle_index < self.bundles@.len())
    }

    /// The interface as it opens: the home screen, every component ticked, nothing
    /// picked from the catalogue, and the focus on the first app.
    pub fn new(bundles: Vec<String>) -> (app: App)
        ensures
            app.wf(),
            app.screen == Screen::Home,
            app.focus == 0,
            app.bundles == bundles,
            app.bundle_index == 0,
            app.export_output@ == DEFAULT_BUNDLE_DIR@,
            app.export_enabled@ == seq![true, true, true, true],
            app.setup_enabled@ == seq![true, true, true, true],
            app.catalog@.len() == 48,
            app.starter_focus == first_selectable_spec(app.starter_rows@),
            app.starter_scroll == 0,
            forall|i: int| 0 <= i < app.starter_picked@.len() ==> !#[trigger] app.starter_picked@[i],
            app.starter_windows && app.starter_environment && !app.starter_dry_run,
            !app.dry_run,
            app.notice is None,
            app.log@.len() == 0,
            app.log_scroll == 0,
            app.view_height == 20,
            app.running is None,
            !app.should_quit,
    {
        let catalog = catalog_apps();
        let rows = starter_rows(catalog.as_slice());
        let mut picked: Vec<bool> = Vec::new();
        let mut k: usize = 0;
        while k < catalog.len()
            invariant
                k <= catalog.len(),
                picked@.len() == k,
                forall|i: int| 0 <= i < k ==> !#[trigger] picked@[i],
            decreases catalog.len() - k,
        {
            picked.push(false);
            k = k + 1;
        }
        let focus = first_selectable(rows.as_slice());
        proof {
            lemma_starter_focus_in_rows(catalog@);
        }
        App {
            screen: Screen::Home,
            focus: 0,
            bundles,
            bundle_index: 0,
            export_output: String::from_str(DEFAULT_BUNDLE_DIR),
            export_enabled: [true, true, true, true],
            setup_enabled: [true, true, true, true],
            catalog,
            starter_rows: rows,
            starter_picked: picked,
            starter_focus: focus,
            starter_scroll: 0,
            starter_windows: true,
            starter_environment: true,
            starter_dry_run: false,
            dry_run: false,
            notice: None,
            log: Vec::new(),
            log_scroll: 0,
            view_height: 20,
            running: None,
            should_quit: false,
        }
    }

    /// The bundle after the chosen one, wrapping round.
    pub fn next_bundle(&self) -> (index: usize)
        requires
            self.wf(),
        ensures
            index == if self.bundles@.len() == 0 {
                0
            } else {
                (self.bundle_index + 1) % (self.bundles@.len() as int)
            },
    {
        if self.bundles.len() == 0 {
            0
        } else {
            (self.bundle_index + 1) % self.bundles.len()
        }
    }

    /// The bundle before the chosen one, wrapping round.
    pub fn previous_bundle(&self) -> (index: usize)
        requires
            self.wf(),
        ensures
            index == if self.bundles@.len() == 0 {
                0
            } else {
                (self.bundle_index + self.bundles@.len() - 1) % (self.bundles@.len() as int)
            },
    {
        if self.bundles.len() == 0 {
            0
        } else if self.bundle_index == 0 {
            let n = self.bundles.len();
            assert((n - 1) as int % n as int == (n - 1) as int) by {
                vstd::arithmetic::div_mod::lemma_small_mod((n - 1) as nat, n as nat);
            }
            n - 1
        } else {
            let i = self.bundle_index;
            let n = self.bundles.len();
            assert((i + n - 1) % (n as int) == i - 1) by {
                assert(i + n - 1 == (i - 1) + n);
                vstd::arithmetic::div_mod::lemma_mod_add_multiples_vanish((i - 1) as int, n as int);
                vstd::arithmetic::div_mod::lemma_small_mod((i - 1) as nat, n as nat);
            }
            i - 1
        }
    }

    /// Takes the bundles found by a new search; the choice falls back to the first
    /// when it no longer exists.
    pub fn refresh_bundles(&mut self, found: Vec<String>)
        requires
            old(self).wf(),
        ensures
            final(self).wf(),
            *final(self) == (App {
                bundles: found,
                bundle_index: if old(self).bundle_index >= found@.len() {
                    0
                } else {
                    old(self).bundle_index
                },
                ..*old(self)
            }),
    {
        self.bundles = found;
        if self.bundle_index >= self.bundles.len() {
            self.bundle_index = 0;
        }
    }

    /// Switches to `screen` with its first row focused and any notice cleared; the
    /// bundle list is to be refreshed.
    pub fn open(&mut self, screen: Screen) -> (effect: Effect)
        requires
            old(self).wf(),
        ensures
            final(self).wf(),
            effect is RefreshBundles,
            *final(self) == opened(*old(self), screen),
    {
        self.screen = screen;
        self.focus = 0;
        self.notice = None;
        self.log_scroll = 0;
        if screen == Screen::Starter {
            self.starter_focus = first_selectable(self.starter_rows.as_slice());
            self.starter_scroll = 0;
            proof {
                lemma_starter_focus_in_rows(self.catalog@);
            }
        }
        Effect::RefreshBundles
    }

    /// Drops any finished job and goes back to the home screen.
    pub fn back_home(&mut self) -> (effect: Effect)
        requires
            old(self).wf(),
        ensures
            final(self).wf(),
            effect is RefreshBundles,
            *final(self) == opened(App { running: None, ..*old(self) }, Screen::Home),
    {
        self.running = None;
        self.open(Screen::Home)
    }

    /// How far back the log can be scrolled: until its oldest line sits at the top of
    /// the room left beside the status lines.
    pub fn max_log_scroll(&self) -> (max: usize)
        ensures
            max == max_log_scroll_spec(*self),
    {
        let room = self.view_height.saturating_sub(2);
        self.log.len().saturating_sub(room)
    }

    /// Scrolls the log `delta` lines further back (forward where negative), within
    /// the log.
    pub fn scroll_log(&mut self, delta: isize)
        ensures
            *final(self) == (App { log_scroll: clamp(old(self).log_scroll + delta, max_log_scroll_spec(*old(self))) as usize, ..*old(self) }),
    {
        let max = self.max_log_scroll();
        let wanted: i128 = self.log_scroll as i128 + delta as i128;
        let clamped: i128 = if wanted < 0 {
            0
        } else if wanted > max as i128 {
            max as i128
        } else {
            wanted
        };
        self.log_scroll = clamped as usize;
    }
}

impl App {
    /// Scrolls the starter list just enough to show the focused row.
    pub fn starter_reveal(&mut self)
        ensures
            *final(self) == (App {
                starter_scroll: reveal_spec(
                    old(self).starter_focus as int,
                    old(self).starter_scroll as int,
                    old(self).view_height as int,
                ) as usize,
                ..*old(self)
            }),
    {
        let height = if self.view_height > 1 {
            self.view_height
        } else {
            1
        };
        if self.starter_focus < self.starter_scroll {
            self.starter_scroll = self.starter_focus;
        } else if self.starter_focus - self.starter_scroll >= height {
            self.starter_scroll = self.starter_focus - (height - 1);
        }
    }

    /// Focuses row `index` and scrolls it into view.
    pub fn starter_jump(&mut self, index: usize)
        requires
            old(self).wf(),
            index < old(self).starter_rows@.len(),
        ensures
            final(self).wf(),
            *final(self) == (App {
                starter_focus: index,
                starter_scroll: reveal_spec(index as int, old(self).starter_scroll as int, old(self).view_height as int) as usize,
                ..*old(self)
            }),
    {
        self.starter_focus = index;
        self.starter_reveal();
    }

    /// Moves the starter focus one row up (`-1`) or down (`1`), stepping over
    /// headings and staying put at either end, and keeps it in view.
    pub fn starter_move(&mut self, direction: isize)
        requires
            old(self).wf(),
            direction == 1 || direction == -1,
        ensures
            final(self).wf(),
            *final(self) == moved_app(*old(self), direction as int),
    {
        proof {
            lemma_step_target_in_rows(self.starter_rows@, self.starter_focus as int, direction as int);
        }
        match step_from(self.starter_rows.as_slice(), self.starter_focus, direction) {
            Some(target) => {
                self.starter_focus = target;
            },
            None => {},
        }
        self.starter_reveal();
    }

    /// Moves the starter focus `delta` rows, one step at a time.
    pub fn starter_page(&mut self, delta: isize)
        requires
            old(self).wf(),
            delta != isize::MIN,
        ensures
            final(self).wf(),
            *final(self) == paged(*old(self), if delta < 0 { -1int } else { 1int }, (if delta < 0 { -(delta as int) } else { delta as int }) as nat),
    {
        let step: isize = if delta < 0 {
            -1
        } else {
            1
        };
        let count: isize = if delta < 0 {
            -delta
        } else {
            delta
        };
        let mut k: isize = 0;
        let ghost start = *self;
        while k < count
            invariant
                0 <= k <= count,
                step == 1 || step == -1,
                start.wf(),
                self.wf(),
                *self == paged(start, step as int, k as nat),
            decreases count - k,
        {
            self.starter_move(step);
            k = k + 1;
        }
    }

    /// Flips what the focused starter row stands for: an app's pick, an extra, or
    /// the dry-run switch.
    pub fn starter_toggle_row(&mut self)
        requires
            old(self).wf(),
        ensures
            final(self).wf(),
            toggled_row(*old(self), *final(self)),
    {
        proof {
            lemma_rows_name_apps(self.catalog@);
        }
        match self.starter_rows[self.starter_focus] {
            StarterRow::App(index) => {
                let flipped = !self.starter_picked[index];
                self.starter_picked.set(index, flipped);
            },
            StarterRow::Toggle(StarterToggle::Windows) => {
                self.starter_windows = !self.starter_windows;
            },
            StarterRow::Toggle(StarterToggle::Environment) => {
                self.starter_environment = !self.starter_environment;
            },
            StarterRow::Toggle(StarterToggle::DryRun) => {
                self.starter_dry_run = !self.starter_dry_run;
            },
            _ => {},
        }
    }

    /// The components whose box is ticked, in display order.
    pub fn enabled_components(&self, selection: &[bool; 4]) -> (out: Vec<Component>)
        ensures
            out@ == components_where(selection@, true, 4),
    {
        components_in_state(selection, true)
    }

    /// The components whose box is not ticked, in display order.
    pub fn disabled_components(&self, selection: &[bool; 4]) -> (out: Vec<Component>)
        ensures
            out@ == components_where(selection@, false, 4),
    {
        components_in_state(selection, false)
    }

    /// The starter screen's title: how many apps are picked, and whether rows lie
    /// above or below the view that ends at row `end`.
    pub fn starter_title(&self, end: usize) -> (title: String)
        ensures
            title@ == starter_title_spec(*self, end as int),
    {
        let mut picked: usize = 0;
        let mut k: usize = 0;
        while k < self.starter_picked.len()
            invariant
                k <= self.starter_picked@.len(),
                picked == count_true(self.starter_picked@.take(k as int)),
                picked <= k,
            decreases self.starter_picked@.len() - k,
        {
            assert(self.starter_picked@.take(k + 1).drop_last() =~= self.starter_picked@.take(k as int));
            if self.starter_picked[k] {
                picked = picked + 1;
            }
            k = k + 1;
        }
        assert(self.starter_picked@.take(self.starter_picked@.len() as int) =~= self.starter_picked@);
        let mut out: Vec<char> = Vec::new();
        push_str(&mut out, " Start fresh - ");
        push_decimal(&mut out, picked as u64);
        push_str(&mut out, " apps picked");
        if self.starter_scroll > 0 {
            push_str(&mut out, " - more above");
        }
        if end < self.starter_rows.len() {
            push_str(&mut out, " - more below");
        }
        push_str(&mut out, " ");
        string_of(out.as_slice())
    }
}

impl App {
    /// Puts up the running screen for a job called `title`, with an empty log, and
    /// asks for the job to be started.
    pub fn run_job(&mut self, title: &str, job: Job) -> (effect: Effect)
        requires
            old(self).wf(),
        ensures
            final(self).wf(),
            ran_job(*old(self), *final(self), title@),
            effect == Effect::Start(job),
    {
        self.log = Vec::new();
        self.notice = None;
        self.screen = Screen::Running;
        self.running = Some(Running { title: String::from_str(title), done: None, spinner: 0 });
        Effect::Start(job)
    }

    /// Starts applying the picked apps and extras, or explains why there is nothing
    /// to start.
    pub fn start_starter(&mut self) -> (effect: Effect)
        requires
            old(self).wf(),
        ensures
            final(self).wf(),
            starter_started(*old(self), *final(self), effect),
    {
        let mut ids: Vec<String> = Vec::new();
        let mut k: usize = 0;
        while k < self.catalog.len()
            invariant
                k <= self.catalog@.len(),
                self.starter_picked@.len() == self.catalog@.len(),
                strings_view(ids@) == picked_ids(self.catalog@.take(k as int), self.starter_picked@),
            decreases self.catalog@.len() - k,
        {
            assert(self.catalog@.take(k + 1).drop_last() =~= self.catalog@.take(k as int));
            if self.starter_picked[k] {
                ids.push(String::from_str(self.catalog[k].id));
                assert(strings_view(ids@) =~= picked_ids(self.catalog@.take(k + 1), self.starter_picked@));
            }
            k = k + 1;
        }
        assert(self.catalog@.take(self.catalog@.len() as int) =~= self.catalog@);
        let mut only: Vec<Component> = Vec::new();
        if ids.len() > 0 {
            only.push(Component::Apps);
        }
        if self.starter_windows {
            only.push(Component::Windows);
        }
        if self.starter_environment {
            only.push(Component::Environment);
        }
        assert(only@ =~= starter_only(ids@.len() > 0, self.starter_windows, self.starter_environment));
        if only.len() == 0 {
            self.notice = Some(String::from_str("Pick at least one app, or turn on one of the extras."));
            return Effect::Nothing;
        }
        let choices = StarterChoices { windows_settings: self.starter_windows, environment: self.starter_environment };
        let manifest = starter_manifest(ids.as_slice(), choices);
        assert(Seq::new(ids@.len(), |i: int| ids@[i]@) =~= strings_view(ids@));
        let dry_run = self.starter_dry_run;
        self.run_job("Start fresh", Job::Starter { manifest, dry_run, only })
    }

    /// Starts an export into the typed folder, leaving out the unticked components,
    /// or explains why it cannot start.
    pub fn start_export(&mut self) -> (effect: Effect)
        requires
            old(self).wf(),
        ensures
            final(self).wf(),
            export_started(*old(self), *final(self), effect),
    {
        let mut any = false;
        let mut k: usize = 0;
        while k < 4
            invariant
                k <= 4,
                any <==> exists|i: int| 0 <= i < k && self.export_enabled@[i],
            decreases 4 - k,
        {
            if self.export_enabled[k] {
                any = true;
            }
            k = k + 1;
        }
        proof {
            if any {
                let i = choose|i: int| 0 <= i < 4 && self.export_enabled@[i];
                assert(self.export_enabled@.contains(true));
            } else if self.export_enabled@.contains(true) {
                let i = choose|i: int| 0 <= i < self.export_enabled@.len() && self.export_enabled@[i] == true;
            }
        }
        if !any {
            self.notice = Some(String::from_str("Pick at least one thing to capture."));
            return Effect::Nothing;
        }
        let trimmed = trim_chars(chars_of(self.export_output.as_str()).as_slice());
        if trimmed.len() == 0 {
            self.notice = Some(String::from_str("Give the bundle a folder name first."));
            return Effect::Nothing;
        }
        let output = string_of(trimmed.as_slice());
        let skip = self.disabled_components(&self.export_enabled);
        self.run_job("Export", Job::Export { output, skip })
    }

    /// Starts applying the chosen bundle's ticked components, or explains why it
    /// cannot start.
    pub fn start_setup(&mut self) -> (effect: Effect)
        requires
            old(self).wf(),
        ensures
            final(self).wf(),
            setup_started(*old(self), *final(self), effect),
    {
        if self.bundle_index >= self.bundles.len() {
            self.notice = Some(String::from_str("No bundle found - export this machine first."));
            return Effect::Nothing;
        }
        let bundle = self.bundles[self.bundle_index].clone();
        let only = self.enabled_components(&self.setup_enabled);
        proof {
            lemma_components_where_empty(self.setup_enabled@, true, 4);
        }
        if only.len() == 0 {
            self.notice = Some(String::from_str("Pick at least one thing to restore."));
            return Effect::Nothing;
        }
        let dry_run = self.dry_run;
        self.run_job("Setup", Job::Setup { bundle, dry_run, only })
    }

    /// Takes the lines a running job printed and, once it ends, its outcome. The log
    /// keeps its newest lines; a view scrolled back stays on the line being read; a
    /// finished job asks for the bundle list to be refreshed.
    pub fn drain(&mut self, received: Vec<String>, finished: Option<Result<(), String>>) -> (effect: Effect)
        requires
            old(self).wf(),
            old(self).log_scroll + received@.len() <= usize::MAX,
        ensures
            final(self).wf(),
            drained(*old(self), *final(self), received@, finished),
            finished is Some ==> effect is RefreshBundles,
            finished is None ==> effect is Nothing,
    {
        let added = received.len();
        let mut incoming = received;
        self.log.append(&mut incoming);
        if self.log.len() > MAX_LOG_LINES {
            let start = self.log.len() - MAX_LOG_LINES;
            let mut kept: Vec<String> = Vec::new();
            let mut i: usize = start;
            while i < self.log.len()
                invariant
                    start <= i <= self.log@.len(),
                    kept@ == self.log@.subrange(start as int, i as int),
                decreases self.log@.len() - i,
            {
                kept.push(self.log[i].clone());
                assert(kept@ =~= self.log@.subrange(start as int, i + 1));
                i = i + 1;
            }
            self.log = kept;
        }
        if added > 0 && self.log_scroll > 0 {
            self.log_scroll = self.log_scroll + added;
        }
        let max = self.max_log_scroll();
        if self.log_scroll > max {
            self.log_scroll = max;
        }
        match finished {
            Some(result) => {
                match &mut self.running {
                    Some(running) => {
                        running.done = Some(result);
                    },
                    None => {},
                }
                Effect::RefreshBundles
            },
            None => {
                match &mut self.running {
                    Some(running) => {
                        running.spinner = if running.spinner == usize::MAX {
                            0
                        } else {
                            running.spinner + 1
                        };
                    },
                    None => {},
                }
                Effect::Nothing
            },
        }
    }
}

/// The ids of the picked catalogue apps, in catalogue order.
pub open spec fn picked_ids(catalog: Seq<CatalogApp>, picked: Seq<bool>) -> Seq<Seq<char>>
    decreases catalog.len(),
{
    if catalog.len() == 0 {
        Seq::empty()
    } else {
        let before = picked_ids(catalog.drop_last(), picked);
        if picked[catalog.len() - 1] {
            before.push(catalog.last().id@)
        } else {
            before
        }
    }
}

pub open spec fn app_ids(apps: Seq<crate::manifest::App>) -> Seq<Seq<char>> {
    Seq::new(apps.len(), |i: int| apps[i].id_spec())
}

/// What a starter run applies: the apps when some are picked, then each extra that
/// is on.
pub open spec fn starter_only(has_apps: bool, windows: bool, environment: bool) -> Seq<Component> {
    let a: Seq<Component> = if has_apps {
        seq![Component::Apps]
    } else {
        Seq::empty()
    };
    let b = if windows {
        a.push(Component::Windows)
    } else {
        a
    };
    if environment {
        b.push(Component::Environment)
    } else {
        b
    }
}

/// `after` is `before` showing `notice`.
pub open spec fn noticed(before: App, after: App, notice: Seq<char>) -> bool {
    &&& after.notice matches Some(n) && n@ == notice
    &&& after == App { notice: after.notice, ..before }
}

/// `after` is `before` showing the running screen of a fresh job called `title`.
pub open spec fn ran_job(before: App, after: App, title: Seq<char>) -> bool {
    &&& after == App { log: after.log, notice: None, screen: Screen::Running, running: after.running, ..before }
    &&& after.log@.len() == 0
    &&& after.running matches Some(r) && r.title@ == title && r.done is None && r.spinner == 0
}

proof fn lemma_components_where_empty(selection: Seq<bool>, state: bool, n: nat)
    requires
        n <= selection.len(),
    ensures
        components_where(selection, state, n).len() == 0 <==> forall|i: int| 0 <= i < n ==> selection[i] != state,
    decreases n,
{
    if n > 0 {
        lemma_components_where_empty(selection, state, (n - 1) as nat);
    }
}

/// `after` is `before` once a job printed `received` and, if `finished` holds, ended.
pub open spec fn drained(before: App, after: App, received: Seq<String>, finished: Option<Result<(), String>>) -> bool {
    let joined = before.log@ + received;
    let kept = if joined.len() > MAX_LOG_LINES {
        joined.skip(joined.len() - MAX_LOG_LINES)
    } else {
        joined
    };
    let scrolled = if received.len() > 0 && before.log_scroll > 0 {
        before.log_scroll + received.len()
    } else {
        before.log_scroll as int
    };
    let max = max_log_scroll_spec(App { log: after.log, ..before });
    &&& after.log@ == kept
    &&& after.log_scroll == if scrolled > max {
        max
    } else {
        scrolled
    }
    &&& after.running == match before.running {
        Some(r) => Some(
            match finished {
                Some(result) => Running { done: Some(result), ..r },
                None => Running {
                    spinner: if r.spinner == usize::MAX {
                        0
                    } else {
                        (r.spinner + 1) as usize
                    },
                    ..r
                },
            },
        ),
        None => None,
    }
    &&& after == App { log: after.log, log_scroll: after.log_scroll, running: after.running, ..before }
}

/// What starting the starter run does to `before`: a notice where nothing is picked
/// and every extra is off, otherwise the running screen and a job that applies the
/// picked apps and the extras that are on.
pub open spec fn starter_started(before: App, after: App, effect: Effect) -> bool {
    let ids = picked_ids(before.catalog@, before.starter_picked@);
    let only = starter_only(ids.len() > 0, before.starter_windows, before.starter_environment);
    let choices = StarterChoices {
        windows_settings: before.starter_windows,
        environment: before.starter_environment,
    };
    if only.len() == 0 {
        &&& noticed(before, after, "Pick at least one app, or turn on one of the extras."@)
        &&& effect is Nothing
    } else {
        &&& ran_job(before, after, "Start fresh"@)
        &&& effect matches Effect::Start(Job::Starter { manifest, dry_run, only: chosen })
        &&& chosen@ == only
        &&& dry_run == before.starter_dry_run
        &&& crate::catalog::is_starter_manifest(manifest, ids, choices)
    }
}

/// What starting an export does to `before`: a notice where no component is ticked
/// or the folder name is blank, otherwise the running screen and a job that exports
/// into the trimmed folder name, skipping the unticked components.
pub open spec fn export_started(before: App, after: App, effect: Effect) -> bool {
    if !before.export_enabled@.contains(true) {
        &&& noticed(before, after, "Pick at least one thing to capture."@)
        &&& effect is Nothing
    } else if trim(before.export_output@).len() == 0 {
        &&& noticed(before, after, "Give the bundle a folder name first."@)
        &&& effect is Nothing
    } else {
        &&& ran_job(before, after, "Export"@)
        &&& effect matches Effect::Start(Job::Export { output, skip })
        &&& output@ == trim(before.export_output@)
        &&& skip@ == components_where(before.export_enabled@, false, 4)
    }
}

/// What starting a setup does to `before`: a notice where no bundle was found or no
/// component is ticked, otherwise the running screen and a job that applies the
/// ticked components of the chosen bundle.
pub open spec fn setup_started(before: App, after: App, effect: Effect) -> bool {
    if before.bundle_index >= before.bundles@.len() {
        &&& noticed(before, after, "No bundle found - export this machine first."@)
        &&& effect is Nothing
    } else if !before.setup_enabled@.contains(true) {
        &&& noticed(before, after, "Pick at least one thing to restore."@)
        &&& effect is Nothing
    } else {
        &&& ran_job(before, after, "Setup"@)
        &&& effect matches Effect::Start(Job::Setup { bundle, dry_run, only })
        &&& bundle@ == before.bundles@[before.bundle_index as int]@
        &&& dry_run == before.dry_run
        &&& only@ == components_where(before.setup_enabled@, true, 4)
    }
}

impl App {
    /// Handles a key press on whichever screen is showing; Control-C quits from
    /// anywhere.
    pub fn on_key(&mut self, key: Key) -> (effect: Effect)
        requires
            old(self).wf(),
        ensures
            final(self).wf(),
            key_handled(*old(self), *final(self), key, effect),
    {
        if key.control && key.code == KeyCode::Char('c') {
            self.should_quit = true;
            return Effect::Nothing;
        }
        match self.screen {
            Screen::Home => self.on_home_key(key.code),
            Screen::Starter => self.on_starter_key(key.code),
            Screen::Export => self.on_export_key(key),
            Screen::Setup => self.on_setup_key(key.code),
            Screen::Running => self.on_running_key(key.code),
        }
    }

    /// Home: move between the entries, open one, or quit.
    pub fn on_home_key(&mut self, code: KeyCode) -> (effect: Effect)
        requires
            old(self).wf(),
        ensures
            final(self).wf(),
            home_key(*old(self), *final(self), code, effect),
    {
        match code {
            KeyCode::Char('q') | KeyCode::Esc => {
                self.should_quit = true;
                Effect::Nothing
            },
            KeyCode::Up | KeyCode::Char('k') => {
                self.focus = if self.focus > 0 {
                    self.focus - 1
                } else {
                    0
                };
                Effect::Nothing
            },
            KeyCode::Down | KeyCode::Char('j') => {
                self.focus = if self.focus + 1 < HOME_ITEMS - 1 {
                    self.focus + 1
                } else {
                    HOME_ITEMS - 1
                };
                Effect::Nothing
            },
            KeyCode::Enter => {
                if self.focus == 0 {
                    self.open(Screen::Starter)
                } else if self.focus == 1 {
                    self.open(Screen::Setup)
                } else if self.focus == 2 {
                    self.open(Screen::Export)
                } else {
                    self.should_quit = true;
                    Effect::Nothing
                }
            },
            _ => Effect::Nothing,
        }
    }

    /// Export: edit the folder name, tick components, or start.
    pub fn on_export_key(&mut self, key: Key) -> (effect: Effect)
        requires
            old(self).wf(),
        ensures
            final(self).wf(),
            export_key(*old(self), *final(self), key, effect),
    {
        match key.code {
            KeyCode::Esc => self.back_home(),
            KeyCode::Down | KeyCode::Tab => {
                self.focus = (self.focus + 1) % EXPORT_ROWS;
                Effect::Nothing
            },
            KeyCode::Up | KeyCode::BackTab => {
                self.focus = (self.focus + EXPORT_ROWS - 1) % EXPORT_ROWS;
                Effect::Nothing
            },
            KeyCode::Char(character) if self.focus == 0 && !key.control => {
                self.export_output.push(character);
                Effect::Nothing
            },
            KeyCode::Backspace if self.focus == 0 => {
                let mut cs = chars_of(self.export_output.as_str());
                if cs.len() > 0 {
                    let n = cs.len() - 1;
                    cs.truncate(n);
                    assert(cs@ =~= old(self).export_output@.drop_last());
                    self.export_output = string_of(cs.as_slice());
                }
                Effect::Nothing
            },
            KeyCode::Char(' ') => {
                let focus = self.focus;
                toggle(&mut self.export_enabled, focus);
                Effect::Nothing
            },
            KeyCode::Enter if self.focus == EXPORT_ROWS - 1 => self.start_export(),
            KeyCode::Enter => {
                let focus = self.focus;
                toggle(&mut self.export_enabled, focus);
                Effect::Nothing
            },
            _ => Effect::Nothing,
        }
    }

    /// Setup: pick a bundle, tick components, switch the dry run, or start.
    pub fn on_setup_key(&mut self, code: KeyCode) -> (effect: Effect)
        requires
            old(self).wf(),
        ensures
            final(self).wf(),
            setup_key(*old(self), *final(self), code, effect),
    {
        match code {
            KeyCode::Esc => self.back_home(),
            KeyCode::Down | KeyCode::Tab => {
                self.focus = (self.focus + 1) % SETUP_ROWS;
                Effect::Nothing
            },
            KeyCode::Up | KeyCode::BackTab => {
                self.focus = (self.focus + SETUP_ROWS - 1) % SETUP_ROWS;
                Effect::Nothing
            },
            KeyCode::Left if self.focus == 0 => {
                self.bundle_index = self.previous_bundle();
                Effect::Nothing
            },
            KeyCode::Right if self.focus == 0 => {
                self.bundle_index = self.next_bundle();
                Effect::Nothing
            },
            _ => {
                let activate = code == KeyCode::Enter || code == KeyCode::Char(' ');
                if activate && self.focus == SETUP_ROWS - 1 {
                    self.start_setup()
                } else if activate && self.focus == SETUP_ROWS - 2 {
                    self.dry_run = !self.dry_run;
                    Effect::Nothing
                } else if activate {
                    let focus = self.focus;
                    toggle(&mut self.setup_enabled, focus);
                    Effect::Nothing
                } else {
                    Effect::Nothing
                }
            },
        }
    }

    /// Starter: move through the list, pick apps and extras, or start.
    pub fn on_starter_key(&mut self, code: KeyCode) -> (effect: Effect)
        requires
            old(self).wf(),
        ensures
            final(self).wf(),
            starter_key(*old(self), *final(self), code, effect),
    {
        proof {
            lemma_starter_focus_in_rows(self.catalog@);
        }
        match code {
            KeyCode::Esc => self.back_home(),
            KeyCode::Up | KeyCode::Char('k') => {
                self.starter_move(-1);
                Effect::Nothing
            },
            KeyCode::Down | KeyCode::Char('j') => {
                self.starter_move(1);
                Effect::Nothing
            },
            KeyCode::PageUp => {
                self.starter_page(-PAGE);
                Effect::Nothing
            },
            KeyCode::PageDown => {
                self.starter_page(PAGE);
                Effect::Nothing
            },
            KeyCode::Home => {
                let first = first_selectable(self.starter_rows.as_slice());
                self.starter_jump(first);
                Effect::Nothing
            },
            KeyCode::End => {
                let last = last_selectable(self.starter_rows.as_slice());
                self.starter_jump(last);
                Effect::Nothing
            },
            KeyCode::Char(' ') => {
                self.starter_toggle_row();
                Effect::Nothing
            },
            KeyCode::Enter if self.starter_focus == self.starter_rows.len() - 1 => self.start_starter(),
            KeyCode::Enter => {
                self.starter_toggle_row();
                Effect::Nothing
            },
            _ => Effect::Nothing,
        }
    }

    /// Running: scroll the log; once the job has finished, Enter or Esc goes home.
    pub fn on_running_key(&mut self, code: KeyCode) -> (effect: Effect)
        requires
            old(self).wf(),
        ensures
            final(self).wf(),
            running_key(*old(self), *final(self), code, effect),
    {
        let finished = match &self.running {
            Some(running) => running.done.is_some(),
            None => true,
        };
        match code {
            KeyCode::Up | KeyCode::Char('k') => {
                self.scroll_log(1);
                Effect::Nothing
            },
            KeyCode::Down | KeyCode::Char('j') => {
                self.scroll_log(-1);
                Effect::Nothing
            },
            KeyCode::PageUp => {
                self.scroll_log(PAGE);
                Effect::Nothing
            },
            KeyCode::PageDown => {
                self.scroll_log(-PAGE);
                Effect::Nothing
            },
            KeyCode::Home => {
                self.log_scroll = self.max_log_scroll();
                Effect::Nothing
            },
            KeyCode::End => {
                self.log_scroll = 0;
                Effect::Nothing
            },
            _ => {
                if (code == KeyCode::Enter || code == KeyCode::Esc) && finished {
                    self.back_home()
                } else {
                    Effect::Nothing
                }
            },
        }
    }

    /// The wheel scrolls back through the log, but moves along the starter list: up
    /// the wheel goes back in the log and up the list.
    pub fn on_mouse(&mut self, wheel: Wheel) -> (effect: Effect)
        requires
            old(self).wf(),
        ensures
            final(self).wf(),
            effect is Nothing,
            old(self).screen == Screen::Running ==> *final(self) == scrolled(
                *old(self),
                if wheel == Wheel::Up {
                    1
                } else {
                    -1
                },
            ),
            old(self).screen == Screen::Starter ==> *final(self) == moved_app(
                *old(self),
                if wheel == Wheel::Up {
                    -1
                } else {
                    1
                },
            ),
            old(self).screen != Screen::Running && old(self).screen != Screen::Starter ==> *final(self) == *old(
                self,
            ),
    {
        let up = wheel == Wheel::Up;
        match self.screen {
            Screen::Running => self.scroll_log(if up {
                1
            } else {
                -1
            }),
            Screen::Starter => self.starter_move(if up {
                -1
            } else {
                1
            }),
            _ => {},
        }
        Effect::Nothing
    }
}

/// `app` with its log scrolled `delta` lines further back, within the log.
pub open spec fn scrolled(app: App, delta: int) -> App {
    App { log_scroll: clamp(app.log_scroll + delta, max_log_scroll_spec(app)) as usize, ..app }
}

/// `app` with starter row `index` focused and shown.
pub open spec fn jumped(app: App, index: int) -> App {
    App {
        starter_focus: index as usize,
        starter_scroll: reveal_spec(index, app.starter_scroll as int, app.view_height as int) as usize,
        ..app
    }
}

/// The tick boxes after flipping the one `row` stands for.
pub open spec fn toggled(selection: Seq<bool>, row: nat) -> Seq<bool> {
    match component_row_spec(row) {
        Some(i) => selection.update(i as int, !selection[i as int]),
        None => selection,
    }
}

pub open spec fn unchanged(before: App, after: App, effect: Effect) -> bool {
    after == before && effect is Nothing
}

pub open spec fn went_home(before: App, after: App, effect: Effect) -> bool {
    after == opened(App { running: None, ..before }, Screen::Home) && effect is RefreshBundles
}

pub open spec fn home_key(before: App, after: App, code: KeyCode, effect: Effect) -> bool {
    if code == KeyCode::Char('q') || code == KeyCode::Esc {
        after == App { should_quit: true, ..before } && effect is Nothing
    } else if code == KeyCode::Up || code == KeyCode::Char('k') {
        after == App { focus: if before.focus > 0 { (before.focus - 1) as usize } else { 0 }, ..before } && effect is Nothing
    } else if code == KeyCode::Down || code == KeyCode::Char('j') {
        after == App { focus: if before.focus + 1 < 3 { (before.focus + 1) as usize } else { 3 }, ..before } && effect is Nothing
    } else if code == KeyCode::Enter {
        if before.focus == 0 {
            after == opened(before, Screen::Starter) && effect is RefreshBundles
        } else if before.focus == 1 {
            after == opened(before, Screen::Setup) && effect is RefreshBundles
        } else if before.focus == 2 {
            after == opened(before, Screen::Export) && effect is RefreshBundles
        } else {
            after == App { should_quit: true, ..before } && effect is Nothing
        }
    } else {
        unchanged(before, after, effect)
    }
}

pub open spec fn export_key(before: App, after: App, key: Key, effect: Effect) -> bool {
    let code = key.code;
    if code == KeyCode::Esc {
        went_home(before, after, effect)
    } else if code == KeyCode::Down || code == KeyCode::Tab {
        after == App { focus: ((before.focus + 1) % 6) as usize, ..before } && effect is Nothing
    } else if code == KeyCode::Up || code == KeyCode::BackTab {
        after == App { focus: ((before.focus + 5) % 6) as usize, ..before } && effect is Nothing
    } else if code is Char && before.focus == 0 && !key.control {
        &&& after.export_output@ == before.export_output@.push(code->0)
        &&& after == App { export_output: after.export_output, ..before }
        &&& effect is Nothing
    } else if code == KeyCode::Backspace && before.focus == 0 {
        &&& after.export_output@ == if before.export_output@.len() > 0 {
            before.export_output@.drop_last()
        } else {
            before.export_output@
        }
        &&& after == App { export_output: after.export_output, ..before }
        &&& effect is Nothing
    } else if code == KeyCode::Char(' ') || (code == KeyCode::Enter && before.focus != 5) {
        &&& after.export_enabled@ == toggled(before.export_enabled@, before.focus as nat)
        &&& after == App { export_enabled: after.export_enabled, ..before }
        &&& effect is Nothing
    } else if code == KeyCode::Enter {
        export_started(before, after, effect)
    } else {
        unchanged(before, after, effect)
    }
}

pub open spec fn setup_key(before: App, after: App, code: KeyCode, effect: Effect) -> bool {
    let activate = code == KeyCode::Enter || code == KeyCode::Char(' ');
    if code == KeyCode::Esc {
        went_home(before, after, effect)
    } else if code == KeyCode::Down || code == KeyCode::Tab {
        after == App { focus: ((before.focus + 1) % 7) as usize, ..before } && effect is Nothing
    } else if code == KeyCode::Up || code == KeyCode::BackTab {
        after == App { focus: ((before.focus + 6) % 7) as usize, ..before } && effect is Nothing
    } else if code == KeyCode::Left && before.focus == 0 {
        after == App {
            bundle_index: if before.bundles@.len() == 0 {
                0
            } else {
                ((before.bundle_index + before.bundles@.len() - 1) % (before.bundles@.len() as int)) as usize
            },
            ..before
        } && effect is Nothing
    } else if code == KeyCode::Right && before.focus == 0 {
        after == App {
            bundle_index: if before.bundles@.len() == 0 {
                0
            } else {
                ((before.bundle_index + 1) % (before.bundles@.len() as int)) as usize
            },
            ..before
        } && effect is Nothing
    } else if activate && before.focus == 6 {
        setup_started(before, after, effect)
    } else if activate && before.focus == 5 {
        after == App { dry_run: !before.dry_run, ..before } && effect is Nothing
    } else if activate {
        &&& after.setup_enabled@ == toggled(before.setup_enabled@, before.focus as nat)
        &&& after == App { setup_enabled: after.setup_enabled, ..before }
        &&& effect is Nothing
    } else {
        unchanged(before, after, effect)
    }
}

pub open spec fn starter_key(before: App, after: App, code: KeyCode, effect: Effect) -> bool {
    if code == KeyCode::Esc {
        went_home(before, after, effect)
    } else if code == KeyCode::Up || code == KeyCode::Char('k') {
        after == moved_app(before, -1) && effect is Nothing
    } else if code == KeyCode::Down || code == KeyCode::Char('j') {
        after == moved_app(before, 1) && effect is Nothing
    } else if code == KeyCode::PageUp {
        after == paged(before, -1, 10) && effect is Nothing
    } else if code == KeyCode::PageDown {
        after == paged(before, 1, 10) && effect is Nothing
    } else if code == KeyCode::Home {
        after == jumped(before, first_selectable_spec(before.starter_rows@)) && effect is Nothing
    } else if code == KeyCode::End {
        after == jumped(before, last_selectable_spec(before.starter_rows@)) && effect is Nothing
    } else if code == KeyCode::Enter && before.starter_focus == before.starter_rows@.len() - 1 {
        starter_started(before, after, effect)
    } else if code == KeyCode::Char(' ') || code == KeyCode::Enter {
        toggled_row(before, after) && effect is Nothing
    } else {
        unchanged(before, after, effect)
    }
}

pub open spec fn running_key(before: App, after: App, code: KeyCode, effect: Effect) -> bool {
    let finished = match before.running {
        Some(r) => r.done is Some,
        None => true,
    };
    if code == KeyCode::Up || code == KeyCode::Char('k') {
        after == scrolled(before, 1) && effect is Nothing
    } else if code == KeyCode::Down || code == KeyCode::Char('j') {
        after == scrolled(before, -1) && effect is Nothing
    } else if code == KeyCode::PageUp {
        after == scrolled(before, 10) && effect is Nothing
    } else if code == KeyCode::PageDown {
        after == scrolled(before, -10) && effect is Nothing
    } else if code == KeyCode::Home {
        after == App { log_scroll: max_log_scroll_spec(before) as usize, ..before } && effect is Nothing
    } else if code == KeyCode::End {
        after == App { log_scroll: 0, ..before } && effect is Nothing
    } else if (code == KeyCode::Enter || code == KeyCode::Esc) && finished {
        went_home(before, after, effect)
    } else {
        unchanged(before, after, effect)
    }
}

/// What a key press does: Control-C quits from anywhere, any other key is the
/// showing screen's.
pub open spec fn key_handled(before: App, after: App, key: Key, effect: Effect) -> bool {
    if key.control && key.code == KeyCode::Char('c') {
        after == App { should_quit: true, ..before } && effect is Nothing
    } else {
        match before.screen {
            Screen::Home => home_key(before, after, key.code, effect),
            Screen::Starter => starter_key(before, after, key.code, effect),
            Screen::Export => export_key(before, after, key, effect),
            Screen::Setup => setup_key(before, after, key.code, effect),
            Screen::Running => running_key(before, after, key.code, effect),
        }
    }
}

/// The first row in `direction` from `index` that takes the focus.
pub open spec fn step_target(rows: Seq<StarterRow>, index: int, direction: int) -> Option<int>
    decreases (if direction > 0 {
        rows.len() - index
    } else {
        index + 1
    }),
    when direction == 1 || direction == -1
{
    let next = index + direction;
    if next < 0 || next >= rows.len() {
        None
    } else if is_header(rows[next]) {
        step_target(rows, next, direction)
    } else {
        Some(next)
    }
}

proof fn lemma_step_target_in_rows(rows: Seq<StarterRow>, index: int, direction: int)
    requires
        direction == 1 || direction == -1,
    ensures
        step_target(rows, index, direction) matches Some(t) ==> 0 <= t < rows.len(),
    decreases (if direction > 0 {
        rows.len() - index
    } else {
        index + 1
    }),
{
    let next = index + direction;
    if 0 <= next < rows.len() && is_header(rows[next]) {
        lemma_step_target_in_rows(rows, next, direction);
    }
}

fn step_from(rows: &[StarterRow], start: usize, direction: isize) -> (target: Option<usize>)
    requires
        start < rows@.len(),
        direction == 1 || direction == -1,
    ensures
        match target {
            Some(t) => step_target(rows@, start as int, direction as int) == Some(t as int),
            None => step_target(rows@, start as int, direction as int) is None,
        },
{
    let mut index: usize = start;
    loop
        invariant
            index < rows@.len(),
            direction == 1 || direction == -1,
            step_target(rows@, start as int, direction as int) == step_target(rows@, index as int, direction as int),
        decreases (if direction > 0 {
            rows@.len() - index
        } else {
            index + 1
        }),
    {
        if direction < 0 && index == 0 {
            return None;
        }
        if direction > 0 && index >= rows.len() - 1 {
            return None;
        }
        let next: usize = if direction > 0 {
            index + 1
        } else {
            index - 1
        };
        if !matches!(rows[next], StarterRow::Header(_)) {
            return Some(next);
        }
        index = next;
    }
}

/// The first starter row in view once `focus` is shown, for a view of `height` rows
/// that starts at `scroll`.
pub open spec fn reveal_spec(focus: int, scroll: int, view_height: int) -> int {
    let height = if view_height > 1 {
        view_height
    } else {
        1
    };
    if focus < scroll {
        focus
    } else if focus >= scroll + height {
        focus + 1 - height
    } else {
        scroll
    }
}

/// The state after one starter move in `direction`.
pub open spec fn moved_app(app: App, direction: int) -> App {
    let focus = match step_target(app.starter_rows@, app.starter_focus as int, direction) {
        Some(target) => target,
        None => app.starter_focus as int,
    };
    App {
        starter_focus: focus as usize,
        starter_scroll: reveal_spec(focus, app.starter_scroll as int, app.view_height as int) as usize,
        ..app
    }
}

/// The state after `count` starter moves in `direction`.
pub open spec fn paged(app: App, direction: int, count: nat) -> App
    decreases count,
{
    if count == 0 {
        app
    } else {
        moved_app(paged(app, direction, (count - 1) as nat), direction)
    }
}

/// `after` is `before` with what the focused starter row stands for flipped.
pub open spec fn toggled_row(before: App, after: App) -> bool {
    match before.starter_rows@[before.starter_focus as int] {
        StarterRow::App(index) => {
            &&& after.starter_picked@ == before.starter_picked@.update(index as int, !before.starter_picked@[index as int])
            &&& after == App { starter_picked: after.starter_picked, ..before }
        },
        StarterRow::Toggle(StarterToggle::Windows) => after == App { starter_windows: !before.starter_windows, ..before },
        StarterRow::Toggle(StarterToggle::Environment) => after == App {
            starter_environment: !before.starter_environment,
            ..before
        },
        StarterRow::Toggle(StarterToggle::DryRun) => after == App { starter_dry_run: !before.starter_dry_run, ..before },
        _ => after == before,
    }
}

/// How many of `flags` hold.
pub open spec fn count_true(flags: Seq<bool>) -> nat
    decreases flags.len(),
{
    if flags.len() == 0 {
        0
    } else {
        count_true(flags.drop_last()) + if flags.last() {
            1nat
        } else {
            0nat
        }
    }
}

pub open spec fn starter_title_spec(app: App, end: int) -> Seq<char> {
    " Start fresh - "@ + crate::text::decimal(count_true(app.starter_picked@)) + " apps picked"@ + (if app.starter_scroll
        > 0 {
        " - more above"@
    } else {
        Seq::empty()
    }) + (if end < app.starter_rows@.len() {
        " - more below"@
    } else {
        Seq::empty()
    }) + " "@
}

pub proof fn lemma_rows_name_apps(catalog: Seq<CatalogApp>)
    ensures
        forall|i: int|
            0 <= i < starter_rows_spec(catalog).len() ==> (#[trigger] starter_rows_spec(catalog)[i] matches StarterRow::App(
                k,
            ) ==> k < catalog.len()),
{
    lemma_app_rows_index(catalog);
    let rows = starter_rows_spec(catalog);
    let n = app_rows(catalog).len() as int;
    assert forall|i: int| 0 <= i < rows.len() implies (#[trigger] rows[i] matches StarterRow::App(k) ==> k
        < catalog.len()) by {
        if i < n {
            assert(rows[i] == app_rows(catalog)[i]);
        }
    }
}

pub open spec fn max_log_scroll_spec(app: App) -> int {
    let room = if app.view_height >= 2 {
        app.view_height - 2
    } else {
        0
    };
    if app.log@.len() >= room {
        app.log@.len() - room
    } else {
        0
    }
}

/// `value` held between 0 and `max`.
pub open spec fn clamp(value: int, max: int) -> int {
    if value < 0 {
        0
    } else if value > max {
        max
    } else {
        value
    }
}

/// The state after opening `screen`.
pub open spec fn opened(app: App, screen: Screen) -> App {
    App {
        screen,
        focus: 0,
        notice: None,
        log_scroll: 0,
        starter_focus: if screen == Screen::Starter {
            first_selectable_spec(app.starter_rows@) as usize
        } else {
            app.starter_focus
        },
        starter_scroll: if screen == Screen::Starter {
            0
        } else {
            app.starter_scroll
        },
        ..app
    }
}

proof fn lemma_starter_focus_in_rows(catalog: Seq<CatalogApp>)
    ensures
        0 <= first_selectable_spec(starter_rows_spec(catalog)) < starter_rows_spec(catalog).len(),
        0 <= last_selectable_spec(starter_rows_spec(catalog)) < starter_rows_spec(catalog).len(),
{
    let rows = starter_rows_spec(catalog);
    lemma_first_selectable_from(rows, 0);
    lemma_last_selectable_before(rows, rows.len() as int);
}

// ---------------------------------------------------------------------------
// Laws

/// Revealing a row puts it in view: the view starts at or above it and reaches below
/// it.
pub proof fn revealed_row_is_in_view(focus: int, scroll: int, view_height: int)
    requires
        0 <= focus,
        0 <= scroll,
    ensures
        reveal_spec(focus, scroll, view_height) <= focus < reveal_spec(focus, scroll, view_height) + if view_height > 1 {
            view_height
        } else {
            1
        },
        0 <= reveal_spec(focus, scroll, view_height),
{
}

/// Moving through the starter list never lands on a heading, and keeps the focused
/// row in view.
pub proof fn starter_moves_skip_headings(app: App, direction: int)
    requires
        app.wf(),
        direction == 1 || direction == -1,
        !is_header(app.starter_rows@[app.starter_focus as int]),
    ensures
        !is_header(moved_app(app, direction).starter_rows@[moved_app(app, direction).starter_focus as int]),
        moved_app(app, direction).starter_scroll <= moved_app(app, direction).starter_focus,
        moved_app(app, direction).starter_focus < moved_app(app, direction).starter_scroll + if app.view_height > 1 {
            app.view_height as int
        } else {
            1
        },
{
    lemma_step_target_lands(app.starter_rows@, app.starter_focus as int, direction);
    lemma_step_target_in_rows(app.starter_rows@, app.starter_focus as int, direction);
    lemma_app_rows_index(app.catalog@);
    let focus = match step_target(app.starter_rows@, app.starter_focus as int, direction) {
        Some(target) => target,
        None => app.starter_focus as int,
    };
    revealed_row_is_in_view(focus, app.starter_scroll as int, app.view_height as int);
}

proof fn lemma_step_target_lands(rows: Seq<StarterRow>, index: int, direction: int)
    requires
        direction == 1 || direction == -1,
    ensures
        step_target(rows, index, direction) matches Some(t) ==> !is_header(rows[t]),
    decreases (if direction > 0 {
        rows.len() - index
    } else {
        index + 1
    }),
{
    let next = index + direction;
    if 0 <= next < rows.len() && is_header(rows[next]) {
        lemma_step_target_lands(rows, next, direction);
    }
}

/// Ticking a component box twice leaves the boxes as they were.
pub proof fn toggling_twice_restores(selection: Seq<bool>, row: nat)
    requires
        selection.len() == 4,
    ensures
        toggled(toggled(selection, row), row) == selection,
{
    if let Some(i) = component_row_spec(row) {
        assert(toggled(toggled(selection, row), row) =~= selection);
    }
}

/// Output that arrives while the log is scrolled back leaves the view on the line
/// being read: the distance from the oldest line to the view stays the same, as long
/// as no old line has to make room.
pub proof fn reading_position_stays(before: App, after: App, received: Seq<String>)
    requires
        drained(before, after, received, None),
        before.log_scroll > 0,
        before.log_scroll <= max_log_scroll_spec(before),
        before.log@.len() + received.len() <= MAX_LOG_LINES,
    ensures
        after.log@.len() - after.log_scroll == before.log@.len() - before.log_scroll,
{
}

/// Whether some row names the app at `k`.
pub open spec fn has_row(rows: Seq<StarterRow>, k: int) -> bool {
    exists|i: int| 0 <= i < rows.len() && rows[i] == StarterRow::App(k as usize)
}

/// The starter list offers every catalogue app exactly once: each app has a row,
/// and no two rows name the same app.
pub proof fn every_app_has_one_row(catalog: Seq<CatalogApp>)
    requires
        catalog.len() < usize::MAX / 4,
    ensures
        forall|k: int| 0 <= k < catalog.len() ==> #[trigger] has_row(starter_rows_spec(catalog), k),
        forall|i: int, j: int|
            0 <= i < j < starter_rows_spec(catalog).len() && (#[trigger] starter_rows_spec(catalog)[i]) is App
                ==> starter_rows_spec(catalog)[i] != #[trigger] starter_rows_spec(catalog)[j],
{
    lemma_app_rows_once(catalog);
    let rows = starter_rows_spec(catalog);
    let n = app_rows(catalog).len() as int;
    assert forall|k: int| 0 <= k < catalog.len() implies #[trigger] has_row(rows, k) by {
        assert(has_row(app_rows(catalog), k));
        let i = choose|i: int| 0 <= i < n && app_rows(catalog)[i] == StarterRow::App(k as usize);
        assert(rows[i] == app_rows(catalog)[i]);
    }
    assert forall|i: int, j: int|
        0 <= i < j < rows.len() && (#[trigger] rows[i]) is App implies rows[i] != #[trigger] rows[j] by {
        if j < n {
            assert(rows[i] == app_rows(catalog)[i] && rows[j] == app_rows(catalog)[j]);
        } else if i < n {
            assert(rows[i] == app_rows(catalog)[i]);
            assert(!(rows[j] is App));
        } else {
            assert(!(rows[i] is App));
        }
    }
}

proof fn lemma_app_rows_once(catalog: Seq<CatalogApp>)
    requires
        catalog.len() < usize::MAX / 4,
    ensures
        forall|k: int| 0 <= k < catalog.len() ==> #[trigger] has_row(app_rows(catalog), k),
        forall|i: int|
            0 <= i < app_rows(catalog).len() ==> (#[trigger] app_rows(catalog)[i] matches StarterRow::App(m) ==> m
                < catalog.len()),
        forall|i: int, j: int|
            0 <= i < j < app_rows(catalog).len() && (#[trigger] app_rows(catalog)[i]) is App ==> app_rows(catalog)[i]
                != #[trigger] app_rows(catalog)[j],
    decreases catalog.len(),
{
    if catalog.len() > 0 {
        let before = catalog.drop_last();
        lemma_app_rows_once(before);
        let r = app_rows(catalog);
        let b = app_rows(before);
        let k = catalog.len() - 1;
        assert forall|m: int| 0 <= m < catalog.len() implies #[trigger] has_row(r, m) by {
            if m < k {
                assert(has_row(b, m));
                let i = choose|i: int| 0 <= i < b.len() && b[i] == StarterRow::App(m as usize);
                assert(r[i] == b[i]);
            } else {
                assert(r[r.len() - 1] == StarterRow::App(k as usize));
            }
        }
        assert forall|i: int| 0 <= i < r.len() implies (#[trigger] r[i] matches StarterRow::App(m) ==> m
            < catalog.len()) by {
            if i < b.len() {
                assert(r[i] == b[i]);
            }
        }
        assert forall|i: int, j: int| 0 <= i < j < r.len() && (#[trigger] r[i]) is App implies r[i] != #[trigger] r[j] by {
            if j < b.len() {
                assert(r[i] == b[i] && r[j] == b[j]);
            } else if i < b.len() {
                assert(r[i] == b[i]);
                if r[j] is App {
                    assert(r[j] == StarterRow::App(k as usize));
                }
            } else {
                if r[j] is App {
                    assert(r[j] == StarterRow::App(k as usize));
                }
            }
        }
    }
}

} // verus!
