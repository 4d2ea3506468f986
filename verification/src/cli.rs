//! The components a bundle is made of, and which of them a run selects.
use vstd::prelude::*;

verus! {

/// One part of a machine's setup that can be captured and restored on its own.
#[derive(Clone, Copy, Debug, PartialEq, Eq, Structural)]
pub enum Component {
    Apps,
    Environment,
    Windows,
    Files,
}

/// Every component, in the order interfaces list them.
pub fn all_components() -> (all: [Component; 4])
    ensures
        all@ == seq![Component::Apps, Component::Environment, Component::Windows, Component::Files],
{
    let all = [Component::Apps, Component::Environment, Component::Windows, Component::Files];
    assert(all@ =~= seq![
        Component::Apps,
        Component::Environment,
        Component::Windows,
        Component::Files,
    ]);
    all
}

pub open spec fn label_spec(c: Component) -> Seq<char> {
    match c {
        Component::Apps => "apps"@,
        Component::Environment => "environment"@,
        Component::Windows => "windows"@,
        Component::Files => "files"@,
    }
}

pub open spec fn title_spec(c: Component) -> Seq<char> {
    match c {
        Component::Apps => "Applications"@,
        Component::Environment => "Environment variables"@,
        Component::Windows => "Windows settings"@,
        Component::Files => "Configuration files"@,
    }
}

impl Component {
    /// Lower-case name used on the command line and in bundle output.
    pub fn label(self) -> (name: &'static str)
        ensures
            name@ == label_spec(self),
    {
        match self {
            Component::Apps => "apps",
            Component::Environment => "environment",
            Component::Windows => "windows",
            Component::Files => "files",
        }
    }

    /// Human-friendly name used by the interactive interface.
    pub fn title(self) -> (name: &'static str)
        ensures
            name@ == title_spec(self),
    {
        match self {
            Component::Apps => "Applications",
            Component::Environment => "Environment variables",
            Component::Windows => "Windows settings",
            Component::Files => "Configuration files",
        }
    }
}

/// A run applies `component` when `only` names it, or, with `only` empty, when `skip`
/// does not.
pub open spec fn selected_spec(only: Seq<Component>, skip: Seq<Component>, component: Component) -> bool {
    if only.len() > 0 {
        only.contains(component)
    } else {
        !skip.contains(component)
    }
}

fn contains_component(list: &[Component], component: Component) -> (found: bool)
    ensures
        found == list@.contains(component),
{
    let mut i: usize = 0;
    while i < list.len()
        invariant
            i <= list.len(),
            forall|k: int| 0 <= k < i ==> list@[k] != component,
        decreases list.len() - i,
    {
        if list[i] == component {
            assert(list@[i as int] == component);
            return true;
        }
        i = i + 1;
    }
    false
}

/// Whether a run with these `--only` and `--skip` lists handles `component`:
/// a non-empty `only` decides alone, otherwise everything not skipped is handled.
pub fn selected(only: &[Component], skip: &[Component], component: Component) -> (chosen: bool)
    ensures
        chosen == selected_spec(only@, skip@, component),
{
    if only.len() > 0 {
        return contains_component(only, component);
    }
    !contains_component(skip, component)
}

/// What the command line asked for: a command, or none to open the interactive
/// interface.
#[derive(Clone, Debug, PartialEq, Eq)]
pub struct Cli {
    pub command: Option<Command>,
}

#[derive(Clone, Debug, PartialEq, Eq)]
pub enum Command {
    /// Capture this machine into a portable config bundle.
    Export(ExportArgs),
    /// Rebuild this machine from a config bundle.
    Setup(SetupArgs),
    /// Create a starter bundle you can edit and apply.
    Starter(StarterArgs),
    /// Open the interactive interface.
    Ui,
}

#[derive(Clone, Debug, PartialEq, Eq)]
pub struct StarterArgs {
    /// Folder to write the starter bundle into.
    pub dir: String,
    /// Overwrite an existing bundle in that folder.
    pub force: bool,
    /// Print the apps you can pick from instead of writing a bundle.
    pub list: bool,
}

#[derive(Clone, Debug, PartialEq, Eq)]
pub struct ExportArgs {
    /// Directory to write the bundle into.
    pub output: String,
    /// Extra files to put in the bundle.
    pub extra_files: Vec<String>,
    /// Components to leave out of the bundle.
    pub skip: Vec<Component>,
}

#[derive(Clone, Debug, PartialEq, Eq)]
pub struct SetupArgs {
    /// Bundle directory or manifest file to apply; without it, nearby bundles are
    /// searched for.
    pub bundle: Option<String>,
    /// Show what would change without changing anything.
    pub dry_run: bool,
    /// Components to apply, all when empty.
    pub only: Vec<Component>,
}

} // verus!
