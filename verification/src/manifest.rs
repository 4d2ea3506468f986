//! The bundle manifest: what a machine should look like, and the rules it must obey.
use vstd::prelude::*;

use crate::text::{chars_of, decimal_string, string_of, trim, trim_chars};

verus! {

/// File name of the manifest inside a bundle folder.
pub fn manifest_file() -> (name: &'static str)
    ensures
        name@ == "works-after-reinstall.yaml"@,
{
    "works-after-reinstall.yaml"
}

/// The newest manifest format this build understands.
pub const CURRENT_VERSION: u32 = 1;

/// The version a manifest gets when it does not name one.
pub fn current_version() -> (v: u32)
    ensures
        v == CURRENT_VERSION,
{
    CURRENT_VERSION
}

#[derive(Clone, Debug, PartialEq, Eq)]
pub struct Manifest {
    /// Manifest format version.
    pub version: u32,
    /// When the bundle was captured.
    pub exported_at: Option<String>,
    /// Machine the bundle was captured from.
    pub source_machine: Option<String>,
    /// WinGet packages to install.
    pub apps: Vec<App>,
    /// Windows preferences to reapply.
    pub windows: WindowsSettings,
    /// Environment variables and PATH entries to restore.
    pub environment: Environment,
    /// Files to copy back into place.
    pub files: Files,
}

#[derive(Clone, Copy, Debug, PartialEq, Eq, Structural)]
pub struct WindowsSettings {
    pub dark_mode: Option<bool>,
    pub show_file_extensions: Option<bool>,
    pub show_hidden_files: Option<bool>,
    pub developer_mode: Option<bool>,
}

/// User environment variables, each name once and in ascending order, and PATH
/// entries to merge.
#[derive(Clone, Debug, PartialEq, Eq)]
pub struct Environment {
    pub variables: Vec<(String, String)>,
    pub path: Vec<String>,
}

#[derive(Clone, Debug, PartialEq, Eq)]
pub struct Files {
    pub copy: Vec<FileCopy>,
}

#[derive(Clone, Debug, PartialEq, Eq)]
pub struct FileCopy {
    /// Path inside the bundle.
    pub source: String,
    /// Destination on the machine, with %VARS% and ~ expanded on apply.
    pub destination: String,
}

#[derive(Clone, Debug, PartialEq, Eq)]
pub enum App {
    /// A package from the default WinGet source.
    Id(String),
    /// A package that needs a specific source or installer arguments.
    Detailed(AppDetail),
}

#[derive(Clone, Debug, PartialEq, Eq)]
pub struct AppDetail {
    pub id: String,
    /// WinGet source the package came from, e.g. msstore.
    pub source: Option<String>,
    /// Installer arguments the package was originally installed with.
    pub arguments: Option<String>,
}

/// Variables as `(name, value)` texts.
pub open spec fn vars_view(v: Seq<(String, String)>) -> Seq<(Seq<char>, Seq<char>)> {
    Seq::new(v.len(), |k: int| (v[k].0@, v[k].1@))
}

pub open spec fn opt_view(o: Option<String>) -> Option<Seq<char>> {
    match o {
        Some(s) => Some(s@),
        None => None,
    }
}

impl App {
    pub open spec fn id_spec(&self) -> Seq<char> {
        match self {
            App::Id(id) => id@,
            App::Detailed(detail) => detail.id@,
        }
    }

    pub open spec fn source_spec(&self) -> Option<Seq<char>> {
        match self {
            App::Id(_) => None,
            App::Detailed(detail) => opt_view(detail.source),
        }
    }

    pub open spec fn arguments_spec(&self) -> Option<Seq<char>> {
        match self {
            App::Id(_) => None,
            App::Detailed(detail) => opt_view(detail.arguments),
        }
    }

    pub fn id(&self) -> (id: &str)
        ensures
            id@ == self.id_spec(),
    {
        match self {
            App::Id(id) => id.as_str(),
            App::Detailed(detail) => detail.id.as_str(),
        }
    }

    pub fn source(&self) -> (source: Option<&str>)
        ensures
            match source {
                Some(s) => self.source_spec() == Some(s@),
                None => self.source_spec() is None,
            },
    {
        match self {
            App::Id(_) => None,
            App::Detailed(detail) => match &detail.source {
                Some(s) => Some(s.as_str()),
                None => None,
            },
        }
    }

    pub fn arguments(&self) -> (arguments: Option<&str>)
        ensures
            match arguments {
                Some(s) => self.arguments_spec() == Some(s@),
                None => self.arguments_spec() is None,
            },
    {
        match self {
            App::Id(_) => None,
            App::Detailed(detail) => match &detail.arguments {
                Some(s) => Some(s.as_str()),
                None => None,
            },
        }
    }
}

/// Why a manifest is refused.
#[derive(Clone, Copy, Debug, PartialEq, Eq, Structural)]
pub enum ManifestError {
    NewerVersion { version: u32, max: u32 },
    AppWithoutId,
    CopyWithoutSource,
    CopyWithoutDestination,
}

/// Text that is empty or white space only.
pub open spec fn blank(s: Seq<char>) -> bool {
    trim(s).len() == 0
}

/// The problem of the first file entry that lacks a source or a destination.
pub open spec fn copies_problem(copies: Seq<FileCopy>) -> Option<ManifestError>
    decreases copies.len(),
{
    if copies.len() == 0 {
        None
    } else if blank(copies[0].source@) {
        Some(ManifestError::CopyWithoutSource)
    } else if blank(copies[0].destination@) {
        Some(ManifestError::CopyWithoutDestination)
    } else {
        copies_problem(copies.drop_first())
    }
}

pub open spec fn has_app_without_id(apps: Seq<App>) -> bool {
    exists|i: int| 0 <= i < apps.len() && blank(#[trigger] apps[i].id_spec())
}

/// The first rule a manifest breaks, in the order they are checked: the version, then
/// the app ids, then the file entries.
pub open spec fn manifest_problem(m: Manifest) -> Option<ManifestError> {
    if m.version > CURRENT_VERSION {
        Some(ManifestError::NewerVersion { version: m.version, max: CURRENT_VERSION })
    } else if has_app_without_id(m.apps@) {
        Some(ManifestError::AppWithoutId)
    } else {
        copies_problem(m.files.copy@)
    }
}

fn is_blank(s: &str) -> (b: bool)
    ensures
        b == blank(s@),
{
    let cs = chars_of(s);
    trim_chars(cs.as_slice()).len() == 0
}

impl ManifestError {
    pub open spec fn message_spec(&self) -> Seq<char> {
        match self {
            ManifestError::NewerVersion { version, max } => "manifest version "@ + crate::text::decimal(
                *version as nat,
            ) + " is newer than this build understands (max "@ + crate::text::decimal(*max as nat)
                + ")"@,
            ManifestError::AppWithoutId => "apps contains an entry without a package identifier"@,
            ManifestError::CopyWithoutSource => "files.copy contains an entry without a source"@,
            ManifestError::CopyWithoutDestination =>
                "files.copy contains an entry without a destination"@,
        }
    }

    /// The sentence reported to the user.
    pub fn message(&self) -> (text: String)
        ensures
            text@ == self.message_spec(),
    {
        match self {
            ManifestError::NewerVersion { version, max } => {
                let mut text = String::from_str("manifest version ");
                text.append(decimal_string(*version as u64).as_str());
                text.append(" is newer than this build understands (max ");
                text.append(decimal_string(*max as u64).as_str());
                text.append(")");
                text
            },
            ManifestError::AppWithoutId => String::from_str(
                "apps contains an entry without a package identifier",
            ),
            ManifestError::CopyWithoutSource => String::from_str(
                "files.copy contains an entry without a source",
            ),
            ManifestError::CopyWithoutDestination => String::from_str(
                "files.copy contains an entry without a destination",
            ),
        }
    }
}

impl Manifest {
    /// Checks the rules a manifest must obey before anything is applied: a version this
    /// build understands, an id on every app, a source and a destination on every file.
    pub fn validate(&self) -> (result: Result<(), ManifestError>)
        ensures
            match manifest_problem(*self) {
                None => result == Ok::<(), ManifestError>(()),
                Some(problem) => result == Err::<(), ManifestError>(problem),
            },
    {
        if self.version > CURRENT_VERSION {
            return Err(ManifestError::NewerVersion { version: self.version, max: CURRENT_VERSION });
        }
        let mut i: usize = 0;
        while i < self.apps.len()
            invariant
                i <= self.apps.len(),
                self.version <= CURRENT_VERSION,
                forall|k: int| 0 <= k < i ==> !blank(#[trigger] self.apps@[k].id_spec()),
            decreases self.apps.len() - i,
        {
            if is_blank(self.apps[i].id()) {
                assert(blank(self.apps@[i as int].id_spec()));
                return Err(ManifestError::AppWithoutId);
            }
            i = i + 1;
        }
        let ghost copies = self.files.copy@;
        assert(copies.skip(0) =~= copies);
        let mut j: usize = 0;
        while j < self.files.copy.len()
            invariant
                j <= copies.len(),
                copies == self.files.copy@,
                self.version <= CURRENT_VERSION,
                !has_app_without_id(self.apps@),
                copies_problem(copies) == copies_problem(copies.skip(j as int)),
            decreases copies.len() - j,
        {
            let ghost rest = copies.skip(j as int);
            assert(rest[0] == copies[j as int]);
            assert(rest.drop_first() =~= copies.skip(j + 1));
            let copy = &self.files.copy[j];
            if is_blank(copy.source.as_str()) {
                return Err(ManifestError::CopyWithoutSource);
            }
            if is_blank(copy.destination.as_str()) {
                return Err(ManifestError::CopyWithoutDestination);
            }
            j = j + 1;
        }
        assert(copies.skip(copies.len() as int) =~= Seq::<FileCopy>::empty());
        Ok(())
    }
}

impl WindowsSettings {
    pub open spec fn is_empty_spec(&self) -> bool {
        self.dark_mode is None && self.show_file_extensions is None && self.show_hidden_files is None
            && self.developer_mode is None
    }

    pub fn is_empty(&self) -> (empty: bool)
        ensures
            empty == self.is_empty_spec(),
    {
        self.dark_mode.is_none() && self.show_file_extensions.is_none()
            && self.show_hidden_files.is_none() && self.developer_mode.is_none()
    }
}

impl Environment {
    /// The invariant of the variables: each name once, names in ascending order, as a
    /// sorted map holds them.
    pub open spec fn wf(&self) -> bool {
        crate::vars::names_ascending(vars_view(self.variables@))
    }

    pub fn is_empty(&self) -> (empty: bool)
        ensures
            empty == (self.variables@.len() == 0 && self.path@.len() == 0),
    {
        self.variables.len() == 0 && self.path.len() == 0
    }
}

impl Files {
    pub fn is_empty(&self) -> (empty: bool)
        ensures
            empty == (self.copy@.len() == 0),
    {
        self.copy.len() == 0
    }
}

impl Default for WindowsSettings {
    fn default() -> (s: Self)
        ensures
            s.is_empty_spec(),
    {
        WindowsSettings {
            dark_mode: None,
            show_file_extensions: None,
            show_hidden_files: None,
            developer_mode: None,
        }
    }
}

impl Default for Environment {
    fn default() -> (e: Self)
        ensures
            e.variables@.len() == 0,
            e.path@.len() == 0,
            e.wf(),
    {
        Environment { variables: Vec::new(), path: Vec::new() }
    }
}

impl Default for Files {
    fn default() -> (f: Self)
        ensures
            f.copy@.len() == 0,
    {
        Files { copy: Vec::new() }
    }
}

impl Default for Manifest {
    /// An empty manifest; like a derived default its version is 0.
    fn default() -> (m: Self)
        ensures
            m.version == 0,
            m.exported_at is None,
            m.source_machine is None,
            m.apps@.len() == 0,
            m.windows.is_empty_spec(),
            m.environment.variables@.len() == 0,
            m.environment.path@.len() == 0,
            m.environment.wf(),
            m.files.copy@.len() == 0,
    {
        Manifest {
            version: 0,
            exported_at: None,
            source_machine: None,
            apps: Vec::new(),
            windows: WindowsSettings {
                dark_mode: None,
                show_file_extensions: None,
                show_hidden_files: None,
                developer_mode: None,
            },
            environment: Environment { variables: Vec::new(), path: Vec::new() },
            files: Files { copy: Vec::new() },
        }
    }
}

} // verus!
