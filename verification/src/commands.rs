//! The two flows every front end shares: capturing a machine into a bundle, and
//! applying a manifest component by component. The work each component does is
//! carried out by the caller; what is decided here is the order, what gets reported,
//! and how failures are gathered.
use vstd::prelude::*;

use crate::cli::{label_spec, selected, selected_spec, Component};
use crate::paths::strings_view;
use crate::manifest::{opt_view, Environment, FileCopy, Files, Manifest, WindowsSettings, CURRENT_VERSION};
use crate::settings::{summary, summary_spec};
use crate::text::{decimal, join, push_decimal, push_str, string_of};

verus! {

/// The order in which `setup` applies components: settings first, apps last, because
/// installing takes longest.
pub open spec fn apply_sequence() -> Seq<Component> {
    seq![Component::Windows, Component::Environment, Component::Files, Component::Apps]
}

/// The order in which `export` captures components.
pub open spec fn export_sequence() -> Seq<Component> {
    seq![Component::Apps, Component::Windows, Component::Environment, Component::Files]
}

/// The components of `sequence`, in order, that a run with these lists handles.
pub open spec fn chosen(sequence: Seq<Component>, only: Seq<Component>, skip: Seq<Component>) -> Seq<Component>
    decreases sequence.len(),
{
    if sequence.len() == 0 {
        Seq::empty()
    } else {
        let before = chosen(sequence.drop_last(), only, skip);
        if selected_spec(only, skip, sequence.last()) {
            before.push(sequence.last())
        } else {
            before
        }
    }
}

fn chosen_of(sequence: [Component; 4], only: &[Component], skip: &[Component]) -> (out: Vec<Component>)
    ensures
        out@ == chosen(sequence@, only@, skip@),
{
    let mut out: Vec<Component> = Vec::new();
    let mut k: usize = 0;
    assert(sequence@.take(0) =~= Seq::<Component>::empty());
    while k < 4
        invariant
            k <= 4,
            out@ == chosen(sequence@.take(k as int), only@, skip@),
        decreases 4 - k,
    {
        assert(sequence@.take(k + 1).drop_last() =~= sequence@.take(k as int));
        if selected(only, skip, sequence[k]) {
            out.push(sequence[k]);
        }
        k = k + 1;
    }
    assert(sequence@.take(4) =~= sequence@);
    out
}

/// The components `setup --only ..` applies, in apply order.
pub fn apply_order(only: &[Component]) -> (order: Vec<Component>)
    ensures
        order@ == chosen(apply_sequence(), only@, Seq::empty()),
{
    let sequence = [Component::Windows, Component::Environment, Component::Files, Component::Apps];
    assert(sequence@ == apply_sequence());
    let none: Vec<Component> = Vec::new();
    chosen_of(sequence, only, none.as_slice())
}

/// The components `export --skip ..` captures, in capture order.
pub fn export_order(skip: &[Component]) -> (order: Vec<Component>)
    ensures
        order@ == chosen(export_sequence(), Seq::empty(), skip@),
{
    let sequence = [Component::Apps, Component::Windows, Component::Environment, Component::Files];
    assert(sequence@ == export_sequence());
    let none: Vec<Component> = Vec::new();
    chosen_of(sequence, none.as_slice(), skip)
}

/// The heading a component's output starts with.
pub open spec fn section_spec(component: Component) -> Seq<char> {
    "["@ + label_spec(component) + "]"@
}

pub fn section_line(component: Component) -> (line: String)
    ensures
        line@ == section_spec(component),
{
    let mut out: Vec<char> = Vec::new();
    push_str(&mut out, "[");
    push_str(&mut out, component.label());
    push_str(&mut out, "]");
    string_of(out.as_slice())
}

/// A run of `setup`: the components it applies, how many have reported back, and the
/// problems they reported.
pub struct ApplyRun {
    pub dry_run: bool,
    pub only: Vec<Component>,
    pub order: Vec<Component>,
    pub done: usize,
    pub failures: Vec<String>,
}

/// The entry a failed component leaves in the problem list.
pub open spec fn failure_spec(component: Component, error: Seq<char>) -> Seq<char> {
    label_spec(component) + ": "@ + error
}

/// The problems of the components that failed among `outcomes`, in order.
pub open spec fn failures_of(order: Seq<Component>, outcomes: Seq<Option<Seq<char>>>) -> Seq<Seq<char>>
    decreases outcomes.len(),
{
    if outcomes.len() == 0 {
        Seq::empty()
    } else {
        let before = failures_of(order, outcomes.drop_last());
        match outcomes.last() {
            Some(error) => before.push(failure_spec(order[outcomes.len() - 1], error)),
            None => before,
        }
    }
}

impl ApplyRun {
    /// The run stands after the components before `done` reported `outcomes`, a
    /// problem text for a failure and nothing for a success.
    pub open spec fn after(&self, outcomes: Seq<Option<Seq<char>>>) -> bool {
        &&& self.order@ == chosen(apply_sequence(), self.only@, Seq::empty())
        &&& self.done == outcomes.len()
        &&& self.done <= self.order@.len()
        &&& self.failures@.len() == failures_of(self.order@, outcomes).len()
        &&& forall|i: int|
            0 <= i < self.failures@.len() ==> #[trigger] self.failures@[i]@ == failures_of(self.order@, outcomes)[i]
    }

    /// Opening lines of the run: a blank line, and a dry run's warning.
    pub fn start(only: &[Component], dry_run: bool) -> (run: ApplyRun)
        ensures
            run.after(Seq::empty()),
            run.only@ == only@,
            run.dry_run == dry_run,
    {
        let order = apply_order(only);
        let mut kept: Vec<Component> = Vec::new();
        let mut k: usize = 0;
        while k < only.len()
            invariant
                k <= only.len(),
                kept@ == only@.take(k as int),
            decreases only.len() - k,
        {
            assert(only@.take(k + 1) =~= only@.take(k as int).push(only@[k as int]));
            kept.push(only[k]);
            k = k + 1;
        }
        assert(only@.take(only.len() as int) =~= only@);
        ApplyRun { dry_run, only: kept, order, done: 0, failures: Vec::new() }
    }

    /// The component to apply next, if any is left.
    pub fn next_component(&self) -> (next: Option<Component>)
        ensures
            self.done < self.order@.len() ==> next == Some(self.order@[self.done as int]),
            self.done >= self.order@.len() ==> next is None,
    {
        if self.done < self.order.len() {
            Some(self.order[self.done])
        } else {
            None
        }
    }

    /// Takes the outcome of the component just applied; a failure is remembered and
    /// the run goes on with the next component all the same.
    pub fn record(&mut self, outcome: Result<(), String>)
        requires
            old(self).done < old(self).order@.len(),
        ensures
            final(self).done == old(self).done + 1,
            final(self).order == old(self).order,
            final(self).only == old(self).only,
            final(self).dry_run == old(self).dry_run,
            forall|outcomes: Seq<Option<Seq<char>>>|
                #[trigger] old(self).after(outcomes) ==> final(self).after(
                    outcomes.push(
                        match outcome {
                            Ok(()) => None,
                            Err(e) => Some(e@),
                        },
                    ),
                ),
    {
        let ghost before = self.failures@;
        let component = self.order[self.done];
        match &outcome {
            Ok(()) => {},
            Err(error) => {
                let mut out: Vec<char> = Vec::new();
                push_str(&mut out, component.label());
                push_str(&mut out, ": ");
                push_str(&mut out, error.as_str());
                self.failures.push(string_of(out.as_slice()));
            },
        }
        let total = self.order.len();
        assert(self.done < total);
        self.done = self.done + 1;
        proof {
            let seen = match outcome {
                Ok(()) => None,
                Err(e) => Some(e@),
            };
            assert forall|outcomes: Seq<Option<Seq<char>>>| #[trigger] old(self).after(outcomes) implies self.after(
                outcomes.push(seen),
            ) by {
                let more = outcomes.push(seen);
                assert(more.drop_last() =~= outcomes);
                assert(more.last() == seen);
                assert(more.len() - 1 == old(self).done);
                if seen is Some {
                    assert forall|i: int| 0 <= i < self.failures@.len() implies #[trigger] self.failures@[i]@
                        == failures_of(self.order@, more)[i] by {
                        if i < before.len() {
                            assert(self.failures@[i] == before[i]);
                        }
                    }
                } else {
                    assert forall|i: int| 0 <= i < self.failures@.len() implies #[trigger] self.failures@[i]@
                        == failures_of(self.order@, more)[i] by {
                        assert(self.failures@[i] == before[i]);
                    }
                }
            }
        }
    }

    /// The closing lines of a successful run, or the error that reports every problem.
    pub fn finish(&self) -> (result: Result<Vec<String>, String>)
        ensures
            self.failures@.len() > 0 ==> (result matches Err(message) && message@ == problems_spec(
                strings_view(self.failures@),
            )),
            self.failures@.len() == 0 ==> (result matches Ok(lines) && strings_view(lines@) == closing_spec(
                self.only@,
                self.dry_run,
            )),
    {
        if self.failures.len() > 0 {
            Err(problems_message(&self.failures))
        } else {
            Ok(closing_lines(self.only.as_slice(), self.dry_run))
        }
    }
}

/// The error a run with problems ends in.
pub open spec fn problems_spec(failures: Seq<Seq<char>>) -> Seq<char> {
    "setup finished with "@ + decimal(failures.len()) + " problem(s):\n  - "@ + join(failures, "\n  - "@)
}

fn problems_message(failures: &Vec<String>) -> (message: String)
    ensures
        message@ == problems_spec(strings_view(failures@)),
{
    let mut parts: Vec<Vec<char>> = Vec::new();
    let mut k: usize = 0;
    while k < failures.len()
        invariant
            k <= failures.len(),
            parts@.len() == k,
            forall|i: int| 0 <= i < k ==> #[trigger] parts@[i]@ == failures@[i]@,
        decreases failures.len() - k,
    {
        parts.push(crate::text::chars_of(failures[k].as_str()));
        k = k + 1;
    }
    assert(crate::text::char_vecs_view(parts@) =~= strings_view(failures@));
    let mut out: Vec<char> = Vec::new();
    push_str(&mut out, "setup finished with ");
    push_decimal(&mut out, failures.len() as u64);
    push_str(&mut out, " problem(s):\n  - ");
    crate::text::push_joined(&mut out, &parts, "\n  - ");
    string_of(out.as_slice())
}

/// The lines a successful run ends with.
pub open spec fn closing_spec(only: Seq<Component>, dry_run: bool) -> Seq<Seq<char>> {
    if dry_run {
        seq![Seq::empty(), "Dry run complete - nothing was changed."@]
    } else {
        let lines = seq![Seq::empty(), "Done."@];
        let lines = if selected_spec(only, Seq::empty(), Component::Environment) {
            lines.push("Open a new terminal so the restored environment is picked up."@)
        } else {
            lines
        };
        if selected_spec(only, Seq::empty(), Component::Apps) || selected_spec(
            only,
            Seq::empty(),
            Component::Windows,
        ) {
            lines.push("Some changes may need a restart before they take effect."@)
        } else {
            lines
        }
    }
}

fn closing_lines(only: &[Component], dry_run: bool) -> (lines: Vec<String>)
    ensures
        strings_view(lines@) == closing_spec(only@, dry_run),
{
    let none: Vec<Component> = Vec::new();
    let mut lines: Vec<String> = Vec::new();
    lines.push(String::new());
    if dry_run {
        lines.push(String::from_str("Dry run complete - nothing was changed."));
        assert(strings_view(lines@) =~= closing_spec(only@, dry_run));
        return lines;
    }
    lines.push(String::from_str("Done."));
    if selected(only, none.as_slice(), Component::Environment) {
        lines.push(String::from_str("Open a new terminal so the restored environment is picked up."));
    }
    if selected(only, none.as_slice(), Component::Apps) || selected(only, none.as_slice(), Component::Windows) {
        lines.push(String::from_str("Some changes may need a restart before they take effect."));
    }
    assert(strings_view(lines@) =~= closing_spec(only@, dry_run));
    lines
}

/// The lines a run opens with: a blank line, then for a dry run a warning and
/// another blank line.
pub fn opening_lines(dry_run: bool) -> (lines: Vec<String>)
    ensures
        strings_view(lines@) == if dry_run {
            seq![Seq::empty(), "Dry run - nothing will be changed."@, Seq::empty()]
        } else {
            seq![Seq::<char>::empty()]
        },
{
    let mut lines: Vec<String> = Vec::new();
    lines.push(String::new());
    if dry_run {
        lines.push(String::from_str("Dry run - nothing will be changed."));
        lines.push(String::new());
    }
    proof {
        if dry_run {
            assert(strings_view(lines@) =~= seq![Seq::empty(), "Dry run - nothing will be changed."@, Seq::empty()]);
        } else {
            assert(strings_view(lines@) =~= seq![Seq::<char>::empty()]);
        }
    }
    lines
}


/// How many of `outcomes` are failures.
pub open spec fn count_failed(outcomes: Seq<Option<Seq<char>>>) -> nat
    decreases outcomes.len(),
{
    if outcomes.len() == 0 {
        0
    } else {
        count_failed(outcomes.drop_last()) + if outcomes.last() is Some {
            1nat
        } else {
            0nat
        }
    }
}

/// However many components fail, the problem list holds one entry for each failed
/// component, naming it with its problem, and none for a component that succeeded.
pub proof fn every_failure_is_reported(order: Seq<Component>, outcomes: Seq<Option<Seq<char>>>)
    requires
        outcomes.len() <= order.len(),
    ensures
        failures_of(order, outcomes).len() == count_failed(outcomes),
        forall|i: int|
            0 <= i < outcomes.len() && #[trigger] outcomes[i] is Some ==> failures_of(order, outcomes).contains(
                failure_spec(order[i], outcomes[i]->0),
            ),
    decreases outcomes.len(),
{
    if outcomes.len() > 0 {
        let before = outcomes.drop_last();
        every_failure_is_reported(order, before);
        let f = failures_of(order, outcomes);
        let fb = failures_of(order, before);
        assert forall|i: int| 0 <= i < outcomes.len() && #[trigger] outcomes[i] is Some implies f.contains(
            failure_spec(order[i], outcomes[i]->0),
        ) by {
            if i < outcomes.len() - 1 {
                assert(before[i] == outcomes[i]);
                let k = choose|k: int| 0 <= k < fb.len() && fb[k] == failure_spec(order[i], outcomes[i]->0);
                assert(f[k] == fb[k]);
            } else {
                assert(f[f.len() - 1] == failure_spec(order[i], outcomes[i]->0));
            }
        }
    }
}

// ---------------------------------------------------------------------------
// Export

/// The line an export opens with.
pub open spec fn export_intro_spec(machine: Seq<char>, output: Seq<char>) -> Seq<char> {
    if machine.len() == 0 {
        "Exporting this machine into "@ + output
    } else {
        "Exporting "@ + machine + " into "@ + output
    }
}

pub fn export_intro(machine: &str, output: &str) -> (line: String)
    ensures
        line@ == export_intro_spec(machine@, output@),
{
    let mut out: Vec<char> = Vec::new();
    if crate::text::chars_of(machine).len() == 0 {
        push_str(&mut out, "Exporting this machine into ");
    } else {
        push_str(&mut out, "Exporting ");
        push_str(&mut out, machine);
        push_str(&mut out, " into ");
    }
    push_str(&mut out, output);
    string_of(out.as_slice())
}

/// The manifest an export starts from: the current format, stamped with `now`, naming
/// the machine where it has a name, and nothing captured yet.
pub fn export_header(machine: &str, now: &str) -> (m: Manifest)
    ensures
        m.version == CURRENT_VERSION,
        opt_view(m.exported_at) == Some(now@),
        opt_view(m.source_machine) == if machine@.len() == 0 {
            None
        } else {
            Some(machine@)
        },
        m.apps@.len() == 0,
        m.windows.is_empty_spec(),
        m.environment.variables@.len() == 0,
        m.environment.path@.len() == 0,
        m.environment.wf(),
        m.files.copy@.len() == 0,
{
    let source_machine = if crate::text::chars_of(machine).len() == 0 {
        None
    } else {
        Some(String::from_str(machine))
    };
    Manifest {
        version: CURRENT_VERSION,
        exported_at: Some(String::from_str(now)),
        source_machine,
        apps: Vec::new(),
        windows: WindowsSettings {
            dark_mode: None,
            show_file_extensions: None,
            show_hidden_files: None,
            developer_mode: None,
        },
        environment: Environment { variables: Vec::new(), path: Vec::new() },
        files: Files { copy: Vec::new() },
    }
}

/// The line reporting captured packages.
pub fn apps_report(count: usize) -> (line: String)
    ensures
        line@ == "  "@ + decimal(count as nat) + " packages"@,
{
    let mut out: Vec<char> = Vec::new();
    push_str(&mut out, "  ");
    push_decimal(&mut out, count as u64);
    push_str(&mut out, " packages");
    string_of(out.as_slice())
}

/// The line reporting captured Windows settings.
pub fn windows_report(settings: &WindowsSettings) -> (line: String)
    ensures
        line@ == "  "@ + summary_spec(*settings),
{
    let mut out: Vec<char> = Vec::new();
    push_str(&mut out, "  ");
    let text = summary(settings);
    push_str(&mut out, text.as_str());
    string_of(out.as_slice())
}

/// The names of a list of variables.
pub open spec fn names_of(variables: Seq<(String, String)>) -> Seq<Seq<char>> {
    Seq::new(variables.len(), |i: int| variables[i].0@)
}

/// The lines reporting captured environment variables and PATH entries.
pub open spec fn environment_report_spec(variables: Seq<(String, String)>, path_len: nat) -> Seq<Seq<char>> {
    let first = if variables.len() == 0 {
        "  no variables outside the Windows defaults"@
    } else {
        "  "@ + decimal(variables.len()) + " variables: "@ + join(names_of(variables), ", "@)
    };
    seq![first, "  "@ + decimal(path_len) + " PATH entries"@]
}

pub fn environment_report(variables: &[(String, String)], path: &[String]) -> (lines: Vec<String>)
    ensures
        strings_view(lines@) == environment_report_spec(variables@, path@.len()),
{
    let mut lines: Vec<String> = Vec::new();
    if variables.len() == 0 {
        lines.push(String::from_str("  no variables outside the Windows defaults"));
    } else {
        let mut parts: Vec<Vec<char>> = Vec::new();
        let mut k: usize = 0;
        while k < variables.len()
            invariant
                k <= variables.len(),
                parts@.len() == k,
                forall|i: int| 0 <= i < k ==> #[trigger] parts@[i]@ == variables@[i].0@,
            decreases variables.len() - k,
        {
            parts.push(crate::text::chars_of(variables[k].0.as_str()));
            k = k + 1;
        }
        assert(crate::text::char_vecs_view(parts@) =~= names_of(variables@));
        let mut out: Vec<char> = Vec::new();
        push_str(&mut out, "  ");
        push_decimal(&mut out, variables.len() as u64);
        push_str(&mut out, " variables: ");
        crate::text::push_joined(&mut out, &parts, ", ");
        lines.push(string_of(out.as_slice()));
    }
    let mut out: Vec<char> = Vec::new();
    push_str(&mut out, "  ");
    push_decimal(&mut out, path.len() as u64);
    push_str(&mut out, " PATH entries");
    lines.push(string_of(out.as_slice()));
    assert(strings_view(lines@) =~= environment_report_spec(variables@, path@.len()));
    lines
}

/// The lines reporting captured files: each source, or a hint when there are none.
pub open spec fn files_report_spec(copies: Seq<FileCopy>) -> Seq<Seq<char>> {
    if copies.len() == 0 {
        seq!["  no known config files found - add your own with --include"@]
    } else {
        Seq::new(copies.len(), |i: int| "  "@ + copies[i].source@)
    }
}

pub fn files_report(copies: &[FileCopy]) -> (lines: Vec<String>)
    ensures
        strings_view(lines@) == files_report_spec(copies@),
{
    let mut lines: Vec<String> = Vec::new();
    if copies.len() == 0 {
        lines.push(String::from_str("  no known config files found - add your own with --include"));
        assert(strings_view(lines@) =~= files_report_spec(copies@));
        return lines;
    }
    let mut k: usize = 0;
    while k < copies.len()
        invariant
            k <= copies.len(),
            lines@.len() == k,
            forall|i: int| 0 <= i < k ==> #[trigger] lines@[i]@ == "  "@ + copies@[i].source@,
        decreases copies.len() - k,
    {
        let mut out: Vec<char> = Vec::new();
        push_str(&mut out, "  ");
        push_str(&mut out, copies[k].source.as_str());
        lines.push(string_of(out.as_slice()));
        k = k + 1;
    }
    assert(strings_view(lines@) =~= files_report_spec(copies@));
    lines
}

/// The lines an export ends with: where the bundle is, and how to apply it.
pub open spec fn export_closing_spec(manifest_path: Seq<char>, output: Seq<char>) -> Seq<Seq<char>> {
    seq![
        Seq::empty(),
        "Bundle ready: "@ + manifest_path,
        "Keep it where you can reach it after reinstalling Windows (USB drive, cloud storage, another machine)."@,
        Seq::empty(),
        "After reinstalling, run:"@,
        "  works-after-reinstall setup \""@ + output + "\""@,
    ]
}

pub fn export_closing(manifest_path: &str, output: &str) -> (lines: Vec<String>)
    ensures
        strings_view(lines@) == export_closing_spec(manifest_path@, output@),
{
    let mut lines: Vec<String> = Vec::new();
    lines.push(String::new());
    let mut out: Vec<char> = Vec::new();
    push_str(&mut out, "Bundle ready: ");
    push_str(&mut out, manifest_path);
    lines.push(string_of(out.as_slice()));
    lines.push(
        String::from_str(
            "Keep it where you can reach it after reinstalling Windows (USB drive, cloud storage, another machine).",
        ),
    );
    lines.push(String::new());
    lines.push(String::from_str("After reinstalling, run:"));
    let mut run: Vec<char> = Vec::new();
    push_str(&mut run, "  works-after-reinstall setup \"");
    push_str(&mut run, output);
    push_str(&mut run, "\"");
    lines.push(string_of(run.as_slice()));
    assert(strings_view(lines@) =~= export_closing_spec(manifest_path@, output@));
    lines
}

/// The error an export stops with when its output path names a file.
pub fn not_a_directory(output: &str) -> (message: String)
    ensures
        message@ == output@ + " exists and is not a directory"@,
{
    let mut out: Vec<char> = Vec::new();
    push_str(&mut out, output);
    push_str(&mut out, " exists and is not a directory");
    string_of(out.as_slice())
}

} // verus!
