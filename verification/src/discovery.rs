//! Finding a bundle to apply: what counts as the same bundle twice, and what `setup`
//! does when it is given no bundle, or one that is not there. Looking at the disk and
//! asking at the terminal are the caller's; what to ask and what follows from the
//! answers is decided here.
use vstd::prelude::*;

use crate::paths::strings_view;
use crate::text::{chars_of, join, lower_all, lower_chars, push_str, same_chars, string_of};

verus! {

/// The folder `setup` and `export` use when given none.
pub const DEFAULT_BUNDLE_DIR: &'static str = "works-after-reinstall-bundle";

/// The bundle `setup` goes on with, or none because there is nothing to apply.
#[derive(Clone, Debug, PartialEq, Eq)]
pub enum BundleChoice {
    Ready(String),
    NothingToApply,
}

pub open spec fn is_slash(c: char) -> bool {
    c == '\\' || c == '/'
}

/// `cs` without the slashes it ends with.
pub open spec fn trim_slashes_end(cs: Seq<char>) -> Seq<char>
    decreases cs.len(),
{
    if cs.len() > 0 && is_slash(cs.last()) {
        trim_slashes_end(cs.drop_last())
    } else {
        cs
    }
}

/// What makes two folders the same bundle: their paths without trailing slashes,
/// ignoring ASCII case.
pub open spec fn bundle_key_spec(dir: Seq<char>) -> Seq<char> {
    lower_all(trim_slashes_end(dir))
}

pub fn bundle_key(dir: &str) -> (key: Vec<char>)
    ensures
        key@ == bundle_key_spec(dir@),
{
    let mut cs = chars_of(dir);
    while cs.len() > 0 && (cs[cs.len() - 1] == '\\' || cs[cs.len() - 1] == '/')
        invariant
            trim_slashes_end(cs@) == trim_slashes_end(dir@),
        decreases cs.len(),
    {
        let n = cs.len() - 1;
        cs.truncate(n);
    }
    lower_chars(cs.as_slice())
}

pub open spec fn keys_of(found: Seq<String>) -> Seq<Seq<char>> {
    Seq::new(found.len(), |i: int| bundle_key_spec(found[i]@))
}

pub open spec fn chars_view(seen: Seq<Vec<char>>) -> Seq<Seq<char>> {
    Seq::new(seen.len(), |i: int| seen[i]@)
}

/// Adds `dir` to the bundles found when it holds a manifest and no bundle with the
/// same key was found before; `seen` keeps the keys of what was found.
pub fn consider(dir: &str, has_manifest: bool, found: &mut Vec<String>, seen: &mut Vec<Vec<char>>)
    ensures
        !has_manifest || chars_view(old(seen)@).contains(bundle_key_spec(dir@)) ==> final(found)@ == old(found)@
            && final(seen)@ == old(seen)@,
        has_manifest && !chars_view(old(seen)@).contains(bundle_key_spec(dir@)) ==> final(found)@.len() == old(
            found,
        )@.len() + 1 && final(found)@.drop_last() == old(found)@ && final(found)@.last()@ == dir@ && chars_view(
            final(seen)@,
        ) == chars_view(old(seen)@).push(bundle_key_spec(dir@)),
{
    if !has_manifest {
        return;
    }
    let key = bundle_key(dir);
    let mut i: usize = 0;
    while i < seen.len()
        invariant
            i <= seen@.len(),
            key@ == bundle_key_spec(dir@),
            forall|k: int| 0 <= k < i ==> chars_view(seen@)[k] != key@,
        decreases seen@.len() - i,
    {
        if same_chars(seen[i].as_slice(), key.as_slice()) {
            assert(chars_view(seen@)[i as int] == key@);
            return;
        }
        i = i + 1;
    }
    let ghost before = seen@;
    seen.push(key);
    found.push(String::from_str(dir));
    assert(chars_view(seen@) =~= chars_view(before).push(bundle_key_spec(dir@)));
    assert(found@.drop_last() =~= old(found)@);
}

/// Considering folders one after another never reports one bundle twice: the keys
/// of what was found stay distinct and stay the keys `seen` holds.
pub proof fn no_bundle_is_reported_twice(
    found: Seq<String>,
    seen: Seq<Vec<char>>,
    found_after: Seq<String>,
    seen_after: Seq<Vec<char>>,
    dir: Seq<char>,
    has_manifest: bool,
)
    requires
        chars_view(seen) == keys_of(found),
        forall|i: int, j: int| 0 <= i < j < found.len() ==> keys_of(found)[i] != keys_of(found)[j],
        !has_manifest || chars_view(seen).contains(bundle_key_spec(dir)) ==> found_after == found && seen_after
            == seen,
        has_manifest && !chars_view(seen).contains(bundle_key_spec(dir)) ==> found_after.len() == found.len() + 1
            && found_after.drop_last() == found && found_after.last()@ == dir && chars_view(seen_after) == chars_view(
            seen,
        ).push(bundle_key_spec(dir)),
    ensures
        chars_view(seen_after) == keys_of(found_after),
        forall|i: int, j: int|
            0 <= i < j < found_after.len() ==> keys_of(found_after)[i] != keys_of(found_after)[j],
{
    if has_manifest && !chars_view(seen).contains(bundle_key_spec(dir)) {
        assert forall|i: int| 0 <= i < found.len() implies found_after[i] == found[i] by {
            assert(found_after.drop_last()[i] == found_after[i]);
        }
        assert(keys_of(found_after) =~= keys_of(found).push(bundle_key_spec(dir)));
        assert forall|i: int, j: int| 0 <= i < j < found_after.len() implies keys_of(found_after)[i] != keys_of(
            found_after,
        )[j] by {
            if j == found.len() {
                assert(chars_view(seen)[i] == keys_of(found)[i]);
            }
        }
    }
}

/// A list of paths, one `  - path` per line.
pub open spec fn bullet_list_spec(paths: Seq<String>) -> Seq<char> {
    join(Seq::new(paths.len(), |i: int| "  - "@ + paths[i]@), "\n"@)
}

pub fn bullet_list(paths: &[String]) -> (text: String)
    ensures
        text@ == bullet_list_spec(paths@),
{
    let mut parts: Vec<Vec<char>> = Vec::new();
    let mut k: usize = 0;
    while k < paths.len()
        invariant
            k <= paths.len(),
            parts@.len() == k,
            forall|i: int| 0 <= i < k ==> #[trigger] parts@[i]@ == "  - "@ + paths@[i]@,
        decreases paths.len() - k,
    {
        let mut line: Vec<char> = Vec::new();
        push_str(&mut line, "  - ");
        push_str(&mut line, paths[k].as_str());
        parts.push(line);
        k = k + 1;
    }
    assert(crate::text::char_vecs_view(parts@) =~= Seq::new(paths@.len(), |i: int| "  - "@ + paths@[i]@));
    let mut out: Vec<char> = Vec::new();
    crate::text::push_joined(&mut out, &parts, "\n");
    string_of(out.as_slice())
}

/// Where bundles are looked for, in words.
pub open spec fn search_locations_spec(exe_dir_known: bool, home_known: bool) -> Seq<char> {
    let places = seq!["this folder"@];
    let places = if exe_dir_known {
        places.push("the folder holding the exe"@)
    } else {
        places
    };
    let places = if home_known {
        places.push("Desktop and Downloads"@)
    } else {
        places
    };
    join(places, ", "@)
}

pub fn describe_search_locations(exe_dir_known: bool, home_known: bool) -> (text: String)
    ensures
        text@ == search_locations_spec(exe_dir_known, home_known),
{
    let mut parts: Vec<Vec<char>> = Vec::new();
    parts.push(chars_of("this folder"));
    if exe_dir_known {
        parts.push(chars_of("the folder holding the exe"));
    }
    if home_known {
        parts.push(chars_of("Desktop and Downloads"));
    }
    proof {
        let places = seq!["this folder"@];
        let places = if exe_dir_known {
            places.push("the folder holding the exe"@)
        } else {
            places
        };
        let places = if home_known {
            places.push("Desktop and Downloads"@)
        } else {
            places
        };
        assert(crate::text::char_vecs_view(parts@) =~= places);
    }
    let mut out: Vec<char> = Vec::new();
    crate::text::push_joined(&mut out, &parts, ", ");
    string_of(out.as_slice())
}

/// What `setup PATH` goes on with: the bundle when it exists, otherwise an error that
/// suggests the next step or lists the bundles found nearby.
pub open spec fn requested_spec(path: Seq<char>, exists: bool, nearby: Seq<String>) -> Result<Seq<char>, Seq<char>> {
    if exists {
        Ok(path)
    } else if nearby.len() == 0 {
        Err(
            "bundle not found: "@ + path
                + "\n  run `works-after-reinstall export` to create one, or pass the path to an existing bundle"@,
        )
    } else {
        Err("bundle not found: "@ + path + "\n  bundles found nearby:\n"@ + bullet_list_spec(nearby))
    }
}

pub fn requested_bundle(path: &str, exists: bool, nearby: &[String]) -> (result: Result<String, String>)
    ensures
        match (result, requested_spec(path@, exists, nearby@)) {
            (Ok(b), Ok(s)) => b@ == s,
            (Err(e), Err(s)) => e@ == s,
            _ => false,
        },
{
    if exists {
        return Ok(String::from_str(path));
    }
    let mut out: Vec<char> = Vec::new();
    push_str(&mut out, "bundle not found: ");
    push_str(&mut out, path);
    if nearby.len() == 0 {
        push_str(&mut out, "\n  run `works-after-reinstall export` to create one, or pass the path to an existing bundle");
    } else {
        push_str(&mut out, "\n  bundles found nearby:\n");
        let list = bullet_list(nearby);
        push_str(&mut out, list.as_str());
    }
    Err(string_of(out.as_slice()))
}

/// What `setup` without a bundle does next.
#[derive(Clone, Debug, PartialEq, Eq)]
pub enum BundleStep {
    /// Apply this bundle.
    Ready(String),
    /// Say which bundle was found, then apply it.
    Announce { line: String, bundle: String },
    /// Nothing found: offer to export this machine.
    OfferExport,
    /// Several found: ask which, showing these labels.
    Choose { question: String, labels: Vec<String> },
    /// Several found and nobody to ask: stop with this error.
    Refuse(String),
}

/// The next step of `setup` without a bundle: the default folder when it exists,
/// otherwise whatever the search found.
pub fn unrequested_bundle(default_is_dir: bool, found: &[String], interactive: bool) -> (step: BundleStep)
    ensures
        default_is_dir ==> (step matches BundleStep::Ready(b) && b@ == DEFAULT_BUNDLE_DIR@),
        !default_is_dir && found@.len() == 0 ==> step is OfferExport,
        !default_is_dir && found@.len() == 1 ==> (step matches BundleStep::Announce { line, bundle } && bundle@
            == found@[0]@ && line@ == "Using the bundle found at "@ + found@[0]@ + "\n"@),
        !default_is_dir && found@.len() > 1 && !interactive ==> (step matches BundleStep::Refuse(message) && message@
            == "no bundle given and several were found:\n"@ + bullet_list_spec(found@)),
        !default_is_dir && found@.len() > 1 && interactive ==> (step matches BundleStep::Choose { question, labels }
            && question@ == "Which bundle should I apply?"@ && labels@.len() == found@.len() && forall|i: int|
            0 <= i < found@.len() ==> #[trigger] labels@[i]@ == found@[i]@),
{
    if default_is_dir {
        return BundleStep::Ready(String::from_str(DEFAULT_BUNDLE_DIR));
    }
    if found.len() == 0 {
        return BundleStep::OfferExport;
    }
    if found.len() == 1 {
        let mut out: Vec<char> = Vec::new();
        push_str(&mut out, "Using the bundle found at ");
        push_str(&mut out, found[0].as_str());
        push_str(&mut out, "\n");
        return BundleStep::Announce { line: string_of(out.as_slice()), bundle: found[0].clone() };
    }
    if !interactive {
        let mut out: Vec<char> = Vec::new();
        push_str(&mut out, "no bundle given and several were found:\n");
        let list = bullet_list(found);
        push_str(&mut out, list.as_str());
        return BundleStep::Refuse(string_of(out.as_slice()));
    }
    let mut labels: Vec<String> = Vec::new();
    let mut k: usize = 0;
    while k < found.len()
        invariant
            k <= found.len(),
            labels@.len() == k,
            forall|i: int| 0 <= i < k ==> #[trigger] labels@[i]@ == found@[i]@,
        decreases found.len() - k,
    {
        labels.push(found[k].clone());
        k = k + 1;
    }
    BundleStep::Choose { question: String::from_str("Which bundle should I apply?"), labels }
}

/// The bundle a choice among `found` picks; none when the choice was cancelled.
pub fn chosen_bundle(found: &[String], choice: Option<usize>) -> (result: BundleChoice)
    requires
        choice matches Some(i) ==> i < found@.len(),
    ensures
        match choice {
            Some(i) => result matches BundleChoice::Ready(b) && b@ == found@[i as int]@,
            None => result is NothingToApply,
        },
{
    match choice {
        Some(i) => BundleChoice::Ready(found[i].clone()),
        None => BundleChoice::NothingToApply,
    }
}

/// The refusal when no bundle exists and nobody can be asked to export one.
pub open spec fn no_bundle_spec(searched: Seq<char>) -> Seq<char> {
    "no bundle found - looked in "@ + searched
        + "\n  run `works-after-reinstall export` here to capture this machine first, or pass the bundle path"@
}

pub fn no_bundle_message(searched: &str) -> (message: String)
    ensures
        message@ == no_bundle_spec(searched@),
{
    let mut out: Vec<char> = Vec::new();
    push_str(&mut out, "no bundle found - looked in ");
    push_str(&mut out, searched);
    push_str(
        &mut out,
        "\n  run `works-after-reinstall export` here to capture this machine first, or pass the bundle path",
    );
    string_of(out.as_slice())
}

/// What is said before offering to export this machine.
pub fn offer_export_lines(searched: &str) -> (lines: Vec<String>)
    ensures
        strings_view(lines@) == seq![
            "No bundle found here."@,
            Seq::empty(),
            "A bundle is a folder containing works-after-reinstall.yaml."@,
            "I looked in "@ + searched@ + "."@,
            Seq::empty(),
            "If you are on the machine you want to capture, I can create one now."@,
        ],
{
    let mut lines: Vec<String> = Vec::new();
    lines.push(String::from_str("No bundle found here."));
    lines.push(String::new());
    lines.push(String::from_str("A bundle is a folder containing works-after-reinstall.yaml."));
    let mut out: Vec<char> = Vec::new();
    push_str(&mut out, "I looked in ");
    push_str(&mut out, searched);
    push_str(&mut out, ".");
    lines.push(string_of(out.as_slice()));
    lines.push(String::new());
    lines.push(String::from_str("If you are on the machine you want to capture, I can create one now."));
    assert(strings_view(lines@) =~= seq![
        "No bundle found here."@,
        Seq::empty(),
        "A bundle is a folder containing works-after-reinstall.yaml."@,
        "I looked in "@ + searched@ + "."@,
        Seq::empty(),
        "If you are on the machine you want to capture, I can create one now."@,
    ]);
    lines
}

/// The question that offers the export.
pub fn offer_export_question() -> (question: &'static str)
    ensures
        question@ == "Export this machine into ./works-after-reinstall-bundle?"@,
{
    "Export this machine into ./works-after-reinstall-bundle?"
}

/// What is said when the export is declined.
pub fn declined_lines() -> (lines: Vec<String>)
    ensures
        strings_view(lines@) == seq![
            Seq::empty(),
            "Nothing to do then. Run `works-after-reinstall export` when you are ready to capture this machine."@,
        ],
{
    let mut lines: Vec<String> = Vec::new();
    lines.push(String::new());
    lines.push(
        String::from_str(
            "Nothing to do then. Run `works-after-reinstall export` when you are ready to capture this machine.",
        ),
    );
    assert(strings_view(lines@) =~= seq![
        Seq::empty(),
        "Nothing to do then. Run `works-after-reinstall export` when you are ready to capture this machine."@,
    ]);
    lines
}

/// What is said once the offered export is written to `output`.
pub fn exported_lines(output: &str) -> (lines: Vec<String>)
    ensures
        strings_view(lines@) == seq![
            Seq::empty(),
            "That bundle is ready to be taken to the new machine:"@,
            "  1. copy \""@ + output@ + "\" somewhere you will still have it after reinstalling"@,
            "  2. after the reinstall, run the exe next to it and pick \"Setup from a bundle\""@,
        ],
{
    let mut lines: Vec<String> = Vec::new();
    lines.push(String::new());
    lines.push(String::from_str("That bundle is ready to be taken to the new machine:"));
    let mut out: Vec<char> = Vec::new();
    push_str(&mut out, "  1. copy \"");
    push_str(&mut out, output);
    push_str(&mut out, "\" somewhere you will still have it after reinstalling");
    lines.push(string_of(out.as_slice()));
    lines.push(String::from_str("  2. after the reinstall, run the exe next to it and pick \"Setup from a bundle\""));
    assert(strings_view(lines@) =~= seq![
        Seq::empty(),
        "That bundle is ready to be taken to the new machine:"@,
        "  1. copy \""@ + output@ + "\" somewhere you will still have it after reinstalling"@,
        "  2. after the reinstall, run the exe next to it and pick \"Setup from a bundle\""@,
    ]);
    lines
}

} // verus!
