//! User environment variables as the registry holds them, and the rules for capturing
//! and restoring them.
use vstd::prelude::*;

use crate::paths::{env_view, path_entries, same_path, same_path_spec, split_path_entries, strings_view};
use crate::text::{chars_of, decimal, lower_all, lower_chars, push_decimal, string_of, trim, trim_chars};
use crate::utf16::{
    bytes_of_units, decode_utf16_bytes, encode_utf16_bytes, strip_zeros, units_of_bytes,
    utf16_decode, utf16_encode,
};

verus! {

/// The registry value types this tool reads or writes; every other type is `Other`.
#[derive(Clone, Copy, Debug, PartialEq, Eq, Structural)]
pub enum ValueKind {
    Text,
    ExpandableText,
    Dword,
    Other,
}

/// A registry value: its type and its raw bytes.
#[derive(Clone, Debug, PartialEq, Eq)]
pub struct RawValue {
    pub bytes: Vec<u8>,
    pub kind: ValueKind,
}

/// Text stored as `REG_EXPAND_SZ` when `expand`, else `REG_SZ`.
pub fn encode_as(value: &str, expand: bool) -> (raw: RawValue)
    ensures
        raw.bytes@ == bytes_of_units(utf16_encode(value@)) + seq![0u8, 0u8],
        raw.kind == (if expand {
            ValueKind::ExpandableText
        } else {
            ValueKind::Text
        }),
{
    let cs = chars_of(value);
    RawValue {
        bytes: encode_utf16_bytes(cs.as_slice()),
        kind: if expand {
            ValueKind::ExpandableText
        } else {
            ValueKind::Text
        },
    }
}

/// Whether `cs` holds a `%NAME%` reference: two `%` with a non-empty name between them
/// and no other `%` in the name.
pub open spec fn has_variable_reference(cs: Seq<char>) -> bool {
    exists|i: int, j: int|
        0 <= i && i + 1 < j < cs.len() && #[trigger] cs[i] == '%' && #[trigger] cs[j] == '%'
            && forall|m: int| i < m < j ==> cs[m] != '%'
}

/// Text stored so that a value holding a `%VARIABLE%` reference stays expandable.
pub fn encode(value: &str) -> (raw: RawValue)
    ensures
        raw.bytes@ == bytes_of_units(utf16_encode(value@)) + seq![0u8, 0u8],
        raw.kind == (if has_variable_reference(value@) {
            ValueKind::ExpandableText
        } else {
            ValueKind::Text
        }),
{
    let cs = chars_of(value);
    let mut expand = false;
    let mut last: Option<usize> = None;
    let mut k: usize = 0;
    while k < cs.len()
        invariant
            k <= cs.len(),
            cs@ == value@,
            expand == exists|i: int, j: int|
                0 <= i && i + 1 < j < k && #[trigger] cs@[i] == '%' && #[trigger] cs@[j] == '%'
                    && forall|m: int| i < m < j ==> cs@[m] != '%',
            match last {
                Some(l) => l < k && cs@[l as int] == '%' && forall|m: int| l < m < k ==> cs@[m] != '%',
                None => forall|m: int| 0 <= m < k ==> cs@[m] != '%',
            },
        decreases cs.len() - k,
    {
        if cs[k] == '%' {
            match last {
                Some(l) => {
                    if l + 1 < k {
                        assert(cs@[l as int] == '%' && cs@[k as int] == '%');
                        expand = true;
                    } else {
                        proof {
                            if !expand {
                                assert forall|i: int, j: int|
                                    0 <= i && i + 1 < j < k + 1 && #[trigger] cs@[i] == '%' && #[trigger] cs@[j] == '%'
                                        implies !(forall|m: int| i < m < j ==> cs@[m] != '%') by {
                                    if j == k {
                                        assert(i < l as int);
                                        assert(cs@[l as int] == '%');
                                    } else {
                                        assert(!(forall|m: int| i < m < j ==> cs@[m] != '%'));
                                    }
                                }
                            }
                        }
                    }
                },
                None => {
                    proof {
                        if !expand {
                            assert forall|i: int, j: int|
                                0 <= i && i + 1 < j < k + 1 && #[trigger] cs@[i] == '%' && #[trigger] cs@[j] == '%'
                                    implies !(forall|m: int| i < m < j ==> cs@[m] != '%') by {
                                if j == k {
                                    assert(cs@[i] != '%');
                                } else {
                                    assert(!(forall|m: int| i < m < j ==> cs@[m] != '%'));
                                }
                            }
                        }
                    }
                },
            }
            last = Some(k);
        } else {
            proof {
                if !expand {
                    assert forall|i: int, j: int|
                        0 <= i && i + 1 < j < k + 1 && #[trigger] cs@[i] == '%' && #[trigger] cs@[j] == '%'
                            implies !(forall|m: int| i < m < j ==> cs@[m] != '%') by {
                        assert(j != k);
                        assert(!(forall|m: int| i < m < j ==> cs@[m] != '%'));
                    }
                }
            }
        }
        k = k + 1;
    }
    encode_as(value, expand)
}

/// The text a `REG_SZ` or `REG_EXPAND_SZ` value's bytes hold.
pub open spec fn text_of_bytes(bytes: Seq<u8>) -> Seq<char> {
    utf16_decode(strip_zeros(units_of_bytes(bytes)))
}

/// The number the first four bytes of a `REG_DWORD` hold.
pub open spec fn dword_of_bytes(b: Seq<u8>) -> nat {
    (b[0] + 256 * b[1] + 65536 * b[2] + 16777216 * b[3]) as nat
}

/// The text a value reads as: strings as they are, a `REG_DWORD` of at least four bytes
/// as its decimal number, anything else as nothing.
pub open spec fn decode_spec(raw: RawValue) -> Option<Seq<char>> {
    match raw.kind {
        ValueKind::Text | ValueKind::ExpandableText => Some(text_of_bytes(raw.bytes@)),
        ValueKind::Dword => if raw.bytes@.len() >= 4 {
            Some(decimal(dword_of_bytes(raw.bytes@)))
        } else {
            None
        },
        ValueKind::Other => None,
    }
}

/// Little-endian UTF-16 bytes as text, trailing NULs dropped, bad surrogates replaced.
pub fn decode_utf16(bytes: &[u8]) -> (text: String)
    ensures
        text@ == text_of_bytes(bytes@),
{
    let cs = decode_utf16_bytes(bytes);
    string_of(cs.as_slice())
}

/// The text a registry value reads as, when it holds text or a number.
pub fn decode(raw: &RawValue) -> (text: Option<String>)
    ensures
        match text {
            Some(t) => decode_spec(*raw) == Some(t@),
            None => decode_spec(*raw) is None,
        },
{
    match raw.kind {
        ValueKind::Text | ValueKind::ExpandableText => Some(decode_utf16(raw.bytes.as_slice())),
        ValueKind::Dword => {
            if raw.bytes.len() >= 4 {
                let b = &raw.bytes;
                let n: u64 = (b[0] as u64) + 256 * (b[1] as u64) + 65536 * (b[2] as u64) + 16777216
                    * (b[3] as u64);
                let mut cs: Vec<char> = Vec::new();
                push_decimal(&mut cs, n);
                assert(cs@ =~= decimal(dword_of_bytes(raw.bytes@)));
                Some(string_of(cs.as_slice()))
            } else {
                None
            }
        },
        ValueKind::Other => None,
    }
}

/// Text written with `encode` reads back unchanged, provided it does not end in a NUL.
pub proof fn encoded_text_decodes_to_itself(value: Seq<char>, expand: bool, raw: RawValue)
    requires
        value.len() == 0 || value.last() != '\0',
        raw.bytes@ == bytes_of_units(utf16_encode(value)) + seq![0u8, 0u8],
        raw.kind == (if expand {
            ValueKind::ExpandableText
        } else {
            ValueKind::Text
        }),
    ensures
        decode_spec(raw) == Some(value),
{
    crate::utf16::utf16_round_trip(value);
}


pub open spec fn windows_defaults() -> Seq<Seq<char>> {
    seq![
        "allusersprofile"@, "appdata"@, "computername"@, "comspec"@, "driverdata"@,
        "homedrive"@, "homepath"@, "localappdata"@, "logonserver"@, "number_of_processors"@,
        "onedrive"@, "pathext"@, "processor_architecture"@, "processor_identifier"@,
        "processor_level"@, "processor_revision"@, "programdata"@, "programfiles"@,
        "programfiles(x86)"@, "programw6432"@, "psmodulepath"@, "public"@, "sessionname"@,
        "systemdrive"@, "systemroot"@, "temp"@, "tmp"@, "userdomain"@,
        "userdomain_roamingprofile"@, "username"@, "userprofile"@, "windir"@,
    ]
}

fn windows_default_names() -> (names: Vec<&'static str>)
    ensures
        names@.len() == windows_defaults().len(),
        forall|k: int| 0 <= k < names@.len() ==> #[trigger] names@[k]@ == windows_defaults()[k],
{
    let names = vec![
        "allusersprofile", "appdata", "computername", "comspec", "driverdata",
        "homedrive", "homepath", "localappdata", "logonserver", "number_of_processors",
        "onedrive", "pathext", "processor_architecture", "processor_identifier",
        "processor_level", "processor_revision", "programdata", "programfiles",
        "programfiles(x86)", "programw6432", "psmodulepath", "public", "sessionname",
        "systemdrive", "systemroot", "temp", "tmp", "userdomain",
        "userdomain_roamingprofile", "username", "userprofile", "windir",
    ];
    names
}

/// Variables Windows creates by itself, so a fresh install already has them.
pub open spec fn is_windows_default_spec(name: Seq<char>) -> bool {
    windows_defaults().contains(lower_all(name))
}

/// Whether `name` is one of the variables Windows sets on its own, ignoring ASCII case.
pub fn is_windows_default(name: &str) -> (default: bool)
    ensures
        default == is_windows_default_spec(name@),
{
    let lowered = lower_chars(chars_of(name).as_slice());
    let names = windows_default_names();
    let mut k: usize = 0;
    while k < names.len()
        invariant
            k <= names@.len(),
            names@.len() == windows_defaults().len(),
            forall|j: int| 0 <= j < names@.len() ==> #[trigger] names@[j]@ == windows_defaults()[j],
            lowered@ == lower_all(name@),
            forall|j: int| 0 <= j < k ==> windows_defaults()[j] != lowered@,
        decreases names@.len() - k,
    {
        if crate::text::same_chars(chars_of(names[k]).as_slice(), lowered.as_slice()) {
            assert(windows_defaults()[k as int] == lowered@);
            return true;
        }
        k = k + 1;
    }
    false
}

pub open spec fn default_path_entry() -> Seq<char> {
    "%USERPROFILE%\\AppData\\Local\\Microsoft\\WindowsApps"@
}

/// Whether `entry` is the `WindowsApps` folder every fresh install puts on PATH.
pub fn is_default_path_entry(entry: &str, vars: &[(String, String)]) -> (default: bool)
    ensures
        default == same_path_spec(entry@, default_path_entry(), env_view(vars)),
{
    same_path(entry, "%USERPROFILE%\\AppData\\Local\\Microsoft\\WindowsApps", vars)
}

/// PATH entries without the default `WindowsApps` one.
pub open spec fn without_default_entries(es: Seq<Seq<char>>, vars: Seq<(Seq<char>, Seq<char>)>) -> Seq<
    Seq<char>,
>
    decreases es.len(),
{
    if es.len() == 0 {
        Seq::empty()
    } else if same_path_spec(es.last(), default_path_entry(), vars) {
        without_default_entries(es.drop_last(), vars)
    } else {
        without_default_entries(es.drop_last(), vars).push(es.last())
    }
}

pub open spec fn is_path_name(name: Seq<char>) -> bool {
    lower_all(name) == "path"@
}

/// A registry entry worth reading: its name does not start with `=` and its value reads
/// as text.
pub open spec fn readable(name: Seq<char>, raw: RawValue) -> bool {
    !(name.len() > 0 && name[0] == '=') && decode_spec(raw) is Some
}

pub open spec fn entries_view(entries: Seq<(String, RawValue)>) -> Seq<(Seq<char>, RawValue)> {
    Seq::new(entries.len(), |k: int| (entries[k].0@, entries[k].1))
}

/// The variables worth keeping, in registry order: readable, not PATH, not a Windows
/// default, not blank.
pub open spec fn kept_variables(entries: Seq<(Seq<char>, RawValue)>) -> Seq<(Seq<char>, Seq<char>)>
    decreases entries.len(),
{
    if entries.len() == 0 {
        Seq::empty()
    } else {
        let (name, raw) = entries.last();
        let rest = kept_variables(entries.drop_last());
        if readable(name, raw) && !is_path_name(name) && !is_windows_default_spec(name) && trim(
            decode_spec(raw).unwrap(),
        ).len() != 0 {
            rest.push((name, decode_spec(raw).unwrap()))
        } else {
            rest
        }
    }
}

/// The PATH entries of the last readable PATH value, the default one dropped.
pub open spec fn captured_path(entries: Seq<(Seq<char>, RawValue)>, vars: Seq<(Seq<char>, Seq<char>)>) -> Seq<
    Seq<char>,
>
    decreases entries.len(),
{
    if entries.len() == 0 {
        Seq::empty()
    } else {
        let (name, raw) = entries.last();
        if readable(name, raw) && is_path_name(name) {
            without_default_entries(path_entries(decode_spec(raw).unwrap()), vars)
        } else {
            captured_path(entries.drop_last(), vars)
        }
    }
}

fn drop_default_entries(entries: Vec<String>, vars: &[(String, String)]) -> (kept: Vec<String>)
    ensures
        strings_view(kept@) == without_default_entries(strings_view(entries@), env_view(vars)),
{
    let ghost es = strings_view(entries@);
    let mut kept: Vec<String> = Vec::new();
    let mut i: usize = 0;
    while i < entries.len()
        invariant
            i <= entries.len(),
            es == strings_view(entries@),
            strings_view(kept@) == without_default_entries(es.take(i as int), env_view(vars)),
        decreases entries.len() - i,
    {
        proof {
            assert(es.take(i + 1).drop_last() =~= es.take(i as int));
            assert(es.take(i + 1).last() == entries@[i as int]@);
        }
        if !is_default_path_entry(entries[i].as_str(), vars) {
            let ghost before = strings_view(kept@);
            kept.push(entries[i].clone());
            assert(strings_view(kept@) =~= before.push(entries@[i as int]@));
        }
        i = i + 1;
    }
    assert(es.take(entries.len() as int) =~= es);
    kept
}

/// What `export` keeps of the user's environment, from the registry values in the order
/// they were enumerated: the variables outside the Windows defaults (sorted by name, a
/// later value winning) and the PATH entries apart from the default one.
pub fn capture_from(entries: &[(String, RawValue)], vars: &[(String, String)]) -> (captured: (
    Vec<(String, String)>,
    Vec<String>,
))
    ensures
        crate::vars::names_ascending(crate::manifest::vars_view(captured.0@)),
        crate::vars::var_map(crate::manifest::vars_view(captured.0@)) == crate::vars::var_map(
            kept_variables(entries_view(entries@)),
        ),
        strings_view(captured.1@) == captured_path(entries_view(entries@), env_view(vars)),
{
    let ghost ev = entries_view(entries@);
    let mut variables: Vec<(String, String)> = Vec::new();
    let mut path: Vec<String> = Vec::new();
    let mut i: usize = 0;
    assert(crate::manifest::vars_view(variables@) =~= Seq::<(Seq<char>, Seq<char>)>::empty());
    while i < entries.len()
        invariant
            i <= entries.len(),
            ev == entries_view(entries@),
            crate::vars::names_ascending(crate::manifest::vars_view(variables@)),
            crate::vars::var_map(crate::manifest::vars_view(variables@)) == crate::vars::var_map(
                kept_variables(ev.take(i as int)),
            ),
            strings_view(path@) == captured_path(ev.take(i as int), env_view(vars)),
        decreases entries.len() - i,
    {
        let ghost prefix = ev.take(i + 1);
        proof {
            assert(prefix.drop_last() =~= ev.take(i as int));
            assert(prefix.last() == ev[i as int]);
        }
        let name = &entries[i].0;
        let name_chars = chars_of(name.as_str());
        let starts_with_equals = name_chars.len() > 0 && name_chars[0] == '=';
        if !starts_with_equals {
            match decode(&entries[i].1) {
                Some(text) => {
                    let lowered = lower_chars(name_chars.as_slice());
                    let path_chars = chars_of("path");
                    if crate::text::same_chars(lowered.as_slice(), path_chars.as_slice()) {
                        let split = split_path_entries(text.as_str());
                        path = drop_default_entries(split, vars);
                    } else {
                        let blank = trim_chars(chars_of(text.as_str()).as_slice()).len() == 0;
                        if !is_windows_default(name.as_str()) && !blank {
                            let ghost before = kept_variables(ev.take(i as int));
                            let ghost pair = (name@, text@);
                            crate::vars::set_variable(&mut variables, name.clone(), text);
                            proof {
                                assert(kept_variables(prefix) == before.push(pair));
                                assert(before.push(pair).drop_last() =~= before);
                                assert(before.push(pair).last() == pair);
                            }
                        }
                    }
                },
                None => {},
            }
        }
        i = i + 1;
    }
    assert(ev.take(entries.len() as int) =~= ev);
    (variables, path)
}


/// Some entry of `entries` names the same place as `a`.
pub open spec fn contains_same(entries: Seq<Seq<char>>, a: Seq<char>, vars: Seq<(Seq<char>, Seq<char>)>) -> bool {
    exists|i: int| 0 <= i < entries.len() && same_path_spec(#[trigger] entries[i], a, vars)
}

/// PATH entries after merging `adds` in order: an addition already present (as the same
/// place) is left alone, a missing one is appended.
pub open spec fn merged(
    entries: Seq<Seq<char>>,
    adds: Seq<Seq<char>>,
    vars: Seq<(Seq<char>, Seq<char>)>,
) -> Seq<Seq<char>>
    decreases adds.len(),
{
    if adds.len() == 0 {
        entries
    } else if contains_same(entries, adds[0], vars) {
        merged(entries, adds.drop_first(), vars)
    } else {
        merged(entries.push(adds[0]), adds.drop_first(), vars)
    }
}

/// The line reported for each addition while merging.
pub open spec fn merge_messages(
    entries: Seq<Seq<char>>,
    adds: Seq<Seq<char>>,
    vars: Seq<(Seq<char>, Seq<char>)>,
) -> Seq<Seq<char>>
    decreases adds.len(),
{
    if adds.len() == 0 {
        Seq::empty()
    } else if contains_same(entries, adds[0], vars) {
        seq!["  Path already contains "@ + adds[0]] + merge_messages(entries, adds.drop_first(), vars)
    } else {
        seq!["  Path += "@ + adds[0]] + merge_messages(entries.push(adds[0]), adds.drop_first(), vars)
    }
}

/// The PATH text after appending `added`: the old text stays as it is, character for
/// character, and the new entries follow it, separated by `;`.
pub open spec fn appended_path(current: Seq<char>, added: Seq<Seq<char>>) -> Seq<char> {
    if added.len() == 0 {
        current
    } else if current.len() == 0 || current.last() == ';' {
        current + crate::text::join(added, ";"@)
    } else {
        current + ";"@ + crate::text::join(added, ";"@)
    }
}

/// The outcome of merging additions into a PATH value.
pub struct PathMerge {
    /// The additions that were missing, in order.
    pub added: Vec<String>,
    /// The new PATH text.
    pub value: String,
    pub messages: Vec<String>,
    pub changed: bool,
}

fn contains_same_path(entries: &Vec<String>, a: &str, vars: &[(String, String)]) -> (found: bool)
    ensures
        found == contains_same(strings_view(entries@), a@, env_view(vars)),
{
    let ghost es = strings_view(entries@);
    let mut i: usize = 0;
    while i < entries.len()
        invariant
            i <= entries.len(),
            es == strings_view(entries@),
            forall|k: int| 0 <= k < i ==> !same_path_spec(#[trigger] es[k], a@, env_view(vars)),
        decreases entries.len() - i,
    {
        if same_path(entries[i].as_str(), a, vars) {
            assert(same_path_spec(es[i as int], a@, env_view(vars)));
            return true;
        }
        i = i + 1;
    }
    false
}

fn message_with(prefix: &str, text: &str) -> (line: String)
    ensures
        line@ == prefix@ + text@,
{
    let mut out: Vec<char> = Vec::new();
    crate::text::push_str(&mut out, prefix);
    crate::text::push_str(&mut out, text);
    string_of(out.as_slice())
}

/// Merges `additions` into the PATH value `current`: an addition that names the same
/// place as an entry already there (or as an earlier addition) is reported and skipped,
/// the missing ones are appended in order after the old text, which is kept exactly as
/// it was, so no existing entry is removed or reordered.
pub fn merge_path(current: &str, additions: &[String], vars: &[(String, String)]) -> (merge: PathMerge)
    ensures
        strings_view(merge.added@) == merged(path_entries(current@), strings_view(additions@), env_view(vars)).skip(
            path_entries(current@).len() as int,
        ),
        merge.value@ == appended_path(current@, strings_view(merge.added@)),
        strings_view(merge.messages@) == merge_messages(
            path_entries(current@),
            strings_view(additions@),
            env_view(vars),
        ),
        merge.changed == (merge.added@.len() > 0),
{
    let mut entries = split_path_entries(current);
    let ghost start = strings_view(entries@);
    let ghost adds = strings_view(additions@);
    let ghost vv = env_view(vars);
    let mut messages: Vec<String> = Vec::new();
    let mut changed = false;
    let mut i: usize = 0;
    assert(adds.skip(0) =~= adds);
    assert(strings_view(messages@) =~= Seq::<Seq<char>>::empty());
    while i < additions.len()
        invariant
            i <= additions.len(),
            adds == strings_view(additions@),
            vv == env_view(vars),
            start == path_entries(current@),
            merged(strings_view(entries@), adds.skip(i as int), vv) == merged(start, adds, vv),
            strings_view(messages@) + merge_messages(strings_view(entries@), adds.skip(i as int), vv)
                == merge_messages(start, adds, vv),
            changed == (entries@.len() > start.len()),
            entries@.len() >= start.len(),
        decreases additions.len() - i,
    {
        let ghost es = strings_view(entries@);
        let ghost rest = adds.skip(i as int);
        let ghost msgs = strings_view(messages@);
        proof {
            assert(rest[0] == additions@[i as int]@);
            assert(rest.drop_first() =~= adds.skip(i + 1));
        }
        let addition = &additions[i];
        if contains_same_path(&entries, addition.as_str(), vars) {
            messages.push(message_with("  Path already contains ", addition.as_str()));
            proof {
                assert(strings_view(messages@) =~= msgs.push("  Path already contains "@ + rest[0]));
                assert(strings_view(messages@) + merge_messages(es, adds.skip(i + 1), vv) =~= msgs
                    + merge_messages(es, rest, vv));
            }
        } else {
            messages.push(message_with("  Path += ", addition.as_str()));
            entries.push(addition.clone());
            changed = true;
            proof {
                assert(strings_view(entries@) =~= es.push(rest[0]));
                assert(strings_view(messages@) =~= msgs.push("  Path += "@ + rest[0]));
                assert(strings_view(messages@) + merge_messages(
                    strings_view(entries@),
                    adds.skip(i + 1),
                    vv,
                ) =~= msgs + merge_messages(es, rest, vv));
            }
        }
        i = i + 1;
    }
    proof {
        assert(adds.skip(additions.len() as int) =~= Seq::<Seq<char>>::empty());
        assert(strings_view(messages@) + Seq::<Seq<char>>::empty() =~= strings_view(messages@));
    }
    let start_len = start_count(current);
    let mut added: Vec<String> = Vec::new();
    let mut k: usize = start_len;
    assert(strings_view(added@) =~= strings_view(entries@).subrange(start_len as int, k as int));
    while k < entries.len()
        invariant
            start_len <= k <= entries.len(),
            strings_view(added@) == strings_view(entries@).subrange(start_len as int, k as int),
        decreases entries.len() - k,
    {
        let ghost before = strings_view(added@);
        added.push(entries[k].clone());
        assert(strings_view(added@) =~= before.push(entries@[k as int]@));
        assert(strings_view(added@) =~= strings_view(entries@).subrange(start_len as int, k + 1));
        k = k + 1;
    }
    assert(strings_view(entries@).subrange(start_len as int, entries.len() as int) =~= strings_view(entries@).skip(
        start_len as int,
    ));
    let cur = chars_of(current);
    let mut out: Vec<char> = Vec::new();
    if added.len() > 0 {
        crate::text::push_chars(&mut out, cur.as_slice());
        if cur.len() > 0 && cur[cur.len() - 1] != ';' {
            out.push(';');
            proof {
                reveal_strlit(";");
            }
        }
        let joined = joined_chars(&added);
        crate::text::push_chars(&mut out, joined.as_slice());
        proof {
            reveal_strlit(";");
        }
    } else {
        crate::text::push_chars(&mut out, cur.as_slice());
    }
    let value = string_of(out.as_slice());
    PathMerge { added, value, messages, changed }
}

fn start_count(current: &str) -> (n: usize)
    ensures
        n == path_entries(current@).len(),
{
    split_path_entries(current).len()
}

/// The characters of `entries` joined by `;`.
fn joined_chars(entries: &Vec<String>) -> (joined: Vec<char>)
    ensures
        joined@ == crate::text::join(strings_view(entries@), ";"@),
{
    let mut parts: Vec<Vec<char>> = Vec::new();
    let mut i: usize = 0;
    while i < entries.len()
        invariant
            i <= entries.len(),
            crate::text::char_vecs_view(parts@) == strings_view(entries@).take(i as int),
        decreases entries.len() - i,
    {
        let ghost before = crate::text::char_vecs_view(parts@);
        parts.push(chars_of(entries[i].as_str()));
        assert(crate::text::char_vecs_view(parts@) =~= before.push(entries@[i as int]@));
        assert(strings_view(entries@).take(i + 1) =~= strings_view(entries@).take(i as int).push(
            entries@[i as int]@,
        ));
        i = i + 1;
    }
    assert(strings_view(entries@).take(entries.len() as int) =~= strings_view(entries@));
    let mut joined: Vec<char> = Vec::new();
    crate::text::push_joined(&mut joined, &parts, ";");
    assert(joined@ =~= crate::text::join(strings_view(entries@), ";"@));
    joined
}

proof fn lemma_merged_keeps_prefix(e: Seq<Seq<char>>, adds: Seq<Seq<char>>, vars: Seq<(Seq<char>, Seq<char>)>)
    ensures
        merged(e, adds, vars).len() >= e.len(),
        merged(e, adds, vars).take(e.len() as int) == e,
    decreases adds.len(),
{
    if adds.len() == 0 {
        assert(e.take(e.len() as int) =~= e);
    } else if contains_same(e, adds[0], vars) {
        lemma_merged_keeps_prefix(e, adds.drop_first(), vars);
    } else {
        let e2 = e.push(adds[0]);
        lemma_merged_keeps_prefix(e2, adds.drop_first(), vars);
        let m = merged(e2, adds.drop_first(), vars);
        assert(m.take(e.len() as int) =~= m.take(e2.len() as int).take(e.len() as int));
        assert(e2.take(e.len() as int) =~= e);
    }
}

proof fn lemma_contains_same_prefix(
    e: Seq<Seq<char>>,
    m: Seq<Seq<char>>,
    a: Seq<char>,
    vars: Seq<(Seq<char>, Seq<char>)>,
)
    requires
        m.len() >= e.len(),
        m.take(e.len() as int) == e,
        contains_same(e, a, vars),
    ensures
        contains_same(m, a, vars),
{
    let i = choose|i: int| 0 <= i < e.len() && same_path_spec(#[trigger] e[i], a, vars);
    assert(m[i] == m.take(e.len() as int)[i]);
}

proof fn lemma_merged_covers(e: Seq<Seq<char>>, adds: Seq<Seq<char>>, vars: Seq<(Seq<char>, Seq<char>)>)
    ensures
        forall|k: int| 0 <= k < adds.len() ==> contains_same(merged(e, adds, vars), #[trigger] adds[k], vars),
    decreases adds.len(),
{
    if adds.len() > 0 {
        let e2 = if contains_same(e, adds[0], vars) {
            e
        } else {
            e.push(adds[0])
        };
        if !contains_same(e, adds[0], vars) {
            assert(e2[e.len() as int] == adds[0]);
            assert(same_path_spec(e2[e.len() as int], adds[0], vars));
        }
        assert(contains_same(e2, adds[0], vars));
        lemma_merged_covers(e2, adds.drop_first(), vars);
        lemma_merged_keeps_prefix(e2, adds.drop_first(), vars);
        lemma_contains_same_prefix(e2, merged(e2, adds.drop_first(), vars), adds[0], vars);
        assert forall|k: int| 0 <= k < adds.len() implies contains_same(
            merged(e, adds, vars),
            #[trigger] adds[k],
            vars,
        ) by {
            if k > 0 {
                assert(adds[k] == adds.drop_first()[k - 1]);
            }
        }
    }
}

proof fn lemma_merged_when_covered(e: Seq<Seq<char>>, adds: Seq<Seq<char>>, vars: Seq<(Seq<char>, Seq<char>)>)
    requires
        forall|k: int| 0 <= k < adds.len() ==> contains_same(e, #[trigger] adds[k], vars),
    ensures
        merged(e, adds, vars) == e,
    decreases adds.len(),
{
    if adds.len() > 0 {
        assert(contains_same(e, adds[0], vars));
        assert forall|k: int| 0 <= k < adds.drop_first().len() implies contains_same(
            e,
            #[trigger] adds.drop_first()[k],
            vars,
        ) by {
            assert(adds.drop_first()[k] == adds[k + 1]);
        }
        lemma_merged_when_covered(e, adds.drop_first(), vars);
    }
}

/// Merging PATH additions keeps every existing entry where it was, leaves every
/// addition present afterwards, and merging the same additions again changes nothing.
pub proof fn path_merge_laws(e: Seq<Seq<char>>, adds: Seq<Seq<char>>, vars: Seq<(Seq<char>, Seq<char>)>)
    ensures
        merged(e, adds, vars).len() >= e.len(),
        merged(e, adds, vars).take(e.len() as int) == e,
        forall|k: int| 0 <= k < adds.len() ==> contains_same(merged(e, adds, vars), #[trigger] adds[k], vars),
        merged(merged(e, adds, vars), adds, vars) == merged(e, adds, vars),
{
    lemma_merged_keeps_prefix(e, adds, vars);
    lemma_merged_covers(e, adds, vars);
    lemma_merged_when_covered(merged(e, adds, vars), adds, vars);
}

/// What restoring one variable reports, and whether it must be written.
pub struct VariableStep {
    pub message: String,
    pub write: bool,
}

/// A variable already holding `value` is reported and left alone; otherwise it is
/// reported and written.
pub fn variable_step(name: &str, value: &str, existing: Option<&RawValue>) -> (step: VariableStep)
    ensures
        step.write == !(existing matches Some(raw) && decode_spec(*raw) == Some(value@)),
        step.message@ == (if step.write {
            "  set "@ + name@ + " = "@ + value@
        } else {
            "  "@ + name@ + " already set"@
        }),
{
    let same = match existing {
        Some(raw) => match decode(raw) {
            Some(text) => crate::text::same_chars(
                chars_of(text.as_str()).as_slice(),
                chars_of(value).as_slice(),
            ),
            None => false,
        },
        None => false,
    };
    let mut out: Vec<char> = Vec::new();
    if same {
        crate::text::push_str(&mut out, "  ");
        crate::text::push_str(&mut out, name);
        crate::text::push_str(&mut out, " already set");
    } else {
        crate::text::push_str(&mut out, "  set ");
        crate::text::push_str(&mut out, name);
        crate::text::push_str(&mut out, " = ");
        crate::text::push_str(&mut out, value);
    }
    VariableStep { message: string_of(out.as_slice()), write: !same }
}

/// The text of the current PATH value to merge into: empty when there is none, nothing
/// when it holds a type that does not read as text.
pub fn current_path_text(existing: Option<&RawValue>) -> (text: Option<String>)
    ensures
        match existing {
            None => text matches Some(t) && t@.len() == 0,
            Some(raw) => match text {
                Some(t) => decode_spec(*raw) == Some(t@),
                None => decode_spec(*raw) is None,
            },
        },
{
    match existing {
        None => Some(String::new()),
        Some(raw) => decode(raw),
    }
}

/// A registry key's values as `(name, (type, bytes))`. Names match ignoring ASCII case.
pub type RegistryView = Seq<(Seq<char>, (ValueKind, Seq<u8>))>;

/// Registry values as the names, types and bytes they hold.
pub open spec fn registry_view(values: Seq<(String, RawValue)>) -> RegistryView {
    Seq::new(values.len(), |i: int| (values[i].0@, (values[i].1.kind, values[i].1.bytes@)))
}

/// A value as its type and bytes.
pub open spec fn raw_view(raw: RawValue) -> (ValueKind, Seq<u8>) {
    (raw.kind, raw.bytes@)
}

/// The text a value of this type and these bytes reads as (see `decode_spec`).
pub open spec fn decode_view(v: (ValueKind, Seq<u8>)) -> Option<Seq<char>> {
    match v.0 {
        ValueKind::Text | ValueKind::ExpandableText => Some(text_of_bytes(v.1)),
        ValueKind::Dword => if v.1.len() >= 4 {
            Some(decimal(dword_of_bytes(v.1)))
        } else {
            None
        },
        ValueKind::Other => None,
    }
}

/// Two registry names that name the same value.
pub open spec fn same_name(a: Seq<char>, b: Seq<char>) -> bool {
    lower_all(a) == lower_all(b)
}

/// The index of the first value at or after `k` whose lowered name is `key`.
pub open spec fn reg_find(reg: RegistryView, key: Seq<char>, k: int) -> Option<int>
    decreases reg.len() - k,
{
    if k < 0 || k >= reg.len() {
        None
    } else if lower_all(reg[k].0) == key {
        Some(k)
    } else {
        reg_find(reg, key, k + 1)
    }
}

/// The value named `name`, if there is one.
pub open spec fn reg_get(reg: RegistryView, name: Seq<char>) -> Option<(ValueKind, Seq<u8>)> {
    match reg_find(reg, lower_all(name), 0) {
        Some(k) => Some(reg[k].1),
        None => None,
    }
}

/// The registry after writing `v` under `name`: an existing value of that name is
/// replaced where it stands, otherwise a new one is added.
pub open spec fn reg_set(reg: RegistryView, name: Seq<char>, v: (ValueKind, Seq<u8>)) -> RegistryView {
    match reg_find(reg, lower_all(name), 0) {
        Some(k) => reg.update(k, (reg[k].0, v)),
        None => reg.push((name, v)),
    }
}

/// The registry after the writes `ws`, in order.
pub open spec fn apply_writes(reg: RegistryView, ws: RegistryView) -> RegistryView
    decreases ws.len(),
{
    if ws.len() == 0 {
        reg
    } else {
        reg_set(apply_writes(reg, ws.drop_last()), ws.last().0, ws.last().1)
    }
}

proof fn lemma_find(reg: RegistryView, key: Seq<char>, k: int)
    requires
        0 <= k,
    ensures
        match reg_find(reg, key, k) {
            Some(j) => k <= j < reg.len() && lower_all(reg[j].0) == key && forall|m: int|
                k <= m < j ==> lower_all(#[trigger] reg[m].0) != key,
            None => forall|m: int| k <= m < reg.len() ==> lower_all(#[trigger] reg[m].0) != key,
        },
    decreases reg.len() - k,
{
    if k < reg.len() && lower_all(reg[k].0) != key {
        lemma_find(reg, key, k + 1);
    }
}

proof fn lemma_find_names(r1: RegistryView, r2: RegistryView, key: Seq<char>, k: int)
    requires
        r1.len() == r2.len(),
        forall|i: int| 0 <= i < r1.len() ==> #[trigger] r1[i].0 == r2[i].0,
    ensures
        reg_find(r1, key, k) == reg_find(r2, key, k),
    decreases r1.len() - k,
{
    if 0 <= k < r1.len() {
        assert(r1[k].0 == r2[k].0);
        lemma_find_names(r1, r2, key, k + 1);
    }
}

proof fn lemma_find_push(reg: RegistryView, x: (Seq<char>, (ValueKind, Seq<u8>)), key: Seq<char>, k: int)
    requires
        0 <= k <= reg.len(),
    ensures
        reg_find(reg.push(x), key, k) == (match reg_find(reg, key, k) {
            Some(j) => Some(j),
            None => if lower_all(x.0) == key {
                Some(reg.len() as int)
            } else {
                None
            },
        }),
    decreases reg.len() - k,
{
    let r2 = reg.push(x);
    if k < reg.len() {
        assert(r2[k] == reg[k]);
        lemma_find_push(reg, x, key, k + 1);
    } else {
        assert(r2[k] == x);
        assert(reg_find(r2, key, k + 1) is None);
    }
}

/// Reading a name after a write gives what was written under a name that matches it,
/// and what was there before under any other name.
pub proof fn lemma_get_set(reg: RegistryView, a: Seq<char>, v: (ValueKind, Seq<u8>), b: Seq<char>)
    ensures
        reg_get(reg_set(reg, a, v), b) == (if same_name(a, b) {
            Some(v)
        } else {
            reg_get(reg, b)
        }),
{
    let ka = lower_all(a);
    let kb = lower_all(b);
    lemma_find(reg, ka, 0);
    lemma_find(reg, kb, 0);
    match reg_find(reg, ka, 0) {
        Some(k) => {
            let r2 = reg.update(k, (reg[k].0, v));
            assert forall|i: int| 0 <= i < reg.len() implies #[trigger] reg[i].0 == r2[i].0 by {}
            lemma_find_names(reg, r2, kb, 0);
            match reg_find(reg, kb, 0) {
                Some(j) => {
                    if j == k {
                        assert(ka == kb);
                    }
                },
                None => {},
            }
        },
        None => {
            lemma_find_push(reg, (a, v), kb, 0);
            match reg_find(reg, kb, 0) {
                Some(j) => {
                    assert(reg.push((a, v))[j] == reg[j]);
                    if ka == kb {
                        assert(lower_all(reg[j].0) == ka);
                    }
                },
                None => {},
            }
        },
    }
}

/// How a value is encoded, as type and bytes.
pub open spec fn encode_view(value: Seq<char>) -> (ValueKind, Seq<u8>) {
    (
        if has_variable_reference(value) {
            ValueKind::ExpandableText
        } else {
            ValueKind::Text
        },
        bytes_of_units(utf16_encode(value)) + seq![0u8, 0u8],
    )
}

/// Whether a variable must be written: unless it already reads as `value`.
pub open spec fn needs_write(existing: Option<(ValueKind, Seq<u8>)>, value: Seq<char>) -> bool {
    !(existing matches Some(x) && decode_view(x) == Some(value))
}

/// The line reported for one variable.
pub open spec fn variable_line(name: Seq<char>, value: Seq<char>, write: bool) -> Seq<char> {
    if write {
        "  set "@ + name + " = "@ + value
    } else {
        "  "@ + name + " already set"@
    }
}

/// Restoring the variables `vs` in order into `reg`: the lines reported, the registry
/// after, and whether anything was written.
pub open spec fn variables_phase(vs: Seq<(Seq<char>, Seq<char>)>, reg: RegistryView, dry_run: bool) -> (
    Seq<Seq<char>>,
    RegistryView,
    bool,
)
    decreases vs.len(),
{
    if vs.len() == 0 {
        (Seq::empty(), reg, false)
    } else {
        let w = needs_write(reg_get(reg, vs[0].0), vs[0].1);
        let reg1 = if w && !dry_run {
            reg_set(reg, vs[0].0, encode_view(vs[0].1))
        } else {
            reg
        };
        let rest = variables_phase(vs.drop_first(), reg1, dry_run);
        (seq![variable_line(vs[0].0, vs[0].1, w)] + rest.0, rest.1, (w && !dry_run) || rest.2)
    }
}

/// Merging `adds` into the registry's PATH: nothing when PATH holds a type that does
/// not read as text; otherwise the lines reported, the registry after, and whether PATH
/// was written (keeping its expandable type).
pub open spec fn path_phase(
    adds: Seq<Seq<char>>,
    reg: RegistryView,
    vars: Seq<(Seq<char>, Seq<char>)>,
    dry_run: bool,
) -> Option<(Seq<Seq<char>>, RegistryView, bool)> {
    let existing = reg_get(reg, "Path"@);
    if existing matches Some(x) && decode_view(x) is None {
        None
    } else {
        let current = match existing {
            Some(x) => decode_view(x).unwrap(),
            None => Seq::empty(),
        };
        let e = path_entries(current);
        let added = merged(e, adds, vars).skip(e.len() as int);
        let expand = existing matches Some(x) && x.0 == ValueKind::ExpandableText;
        let value = (
            if expand {
                ValueKind::ExpandableText
            } else {
                ValueKind::Text
            },
            bytes_of_units(utf16_encode(appended_path(current, added))) + seq![0u8, 0u8],
        );
        let reg1 = if added.len() > 0 && !dry_run {
            reg_set(reg, "Path"@, value)
        } else {
            reg
        };
        Some((merge_messages(e, adds, vars), reg1, added.len() > 0 && !dry_run))
    }
}

/// Restoring variables and PATH additions into the user environment `reg`. `Ok` holds
/// the lines reported, the registry after and whether a settings change is broadcast;
/// `Err` holds the lines and registry at the point where PATH turned out not to be
/// mergeable.
pub open spec fn restore_outcome(
    vs: Seq<(Seq<char>, Seq<char>)>,
    adds: Seq<Seq<char>>,
    reg: RegistryView,
    vars: Seq<(Seq<char>, Seq<char>)>,
    dry_run: bool,
) -> Result<(Seq<Seq<char>>, RegistryView, bool), (Seq<Seq<char>>, RegistryView)> {
    if vs.len() == 0 && adds.len() == 0 {
        Ok((seq!["  nothing to restore"@], reg, false))
    } else {
        let v = variables_phase(vs, reg, dry_run);
        match path_phase(adds, v.1, vars, dry_run) {
            None => Err((v.0, v.1)),
            Some(p) => {
                let changed = v.2 || p.2;
                Ok((
                    v.0 + p.0 + if changed {
                        Seq::empty()
                    } else {
                        seq!["  nothing to change"@]
                    },
                    p.1,
                    changed,
                ))
            },
        }
    }
}

/// One variable's line and the write it makes.
pub struct EnvStep {
    pub line: String,
    pub write: Option<(String, RawValue)>,
}

/// What restoring the environment does, in order: each step's line and write, then,
/// unless PATH cannot be merged, the PATH lines, the PATH write, the closing line and
/// whether to broadcast the change.
pub struct EnvPlan {
    pub steps: Vec<EnvStep>,
    pub path_error: bool,
    pub path_lines: Vec<String>,
    pub path_write: Option<RawValue>,
    pub closing: Option<String>,
    pub broadcast: bool,
}

pub open spec fn step_writes(steps: Seq<EnvStep>) -> RegistryView
    decreases steps.len(),
{
    if steps.len() == 0 {
        Seq::empty()
    } else {
        step_writes(steps.drop_last()) + match steps.last().write {
            Some(w) => seq![(w.0@, raw_view(w.1))],
            None => Seq::empty(),
        }
    }
}

/// The lines a plan reports, in order.
pub open spec fn plan_lines(plan: EnvPlan) -> Seq<Seq<char>> {
    Seq::new(plan.steps@.len(), |i: int| plan.steps@[i].line@) + if plan.path_error {
        Seq::empty()
    } else {
        strings_view(plan.path_lines@) + match plan.closing {
            Some(c) => seq![c@],
            None => Seq::empty(),
        }
    }
}

/// The writes a plan makes, in order.
pub open spec fn plan_writes(plan: EnvPlan) -> RegistryView {
    step_writes(plan.steps@) + if plan.path_error {
        Seq::empty()
    } else {
        match plan.path_write {
            Some(w) => seq![("Path"@, raw_view(w))],
            None => Seq::empty(),
        }
    }
}

fn copy_raw(raw: &RawValue) -> (out: RawValue)
    ensures
        raw_view(out) == raw_view(*raw),
{
    let mut bytes: Vec<u8> = Vec::new();
    let mut i: usize = 0;
    while i < raw.bytes.len()
        invariant
            i <= raw.bytes.len(),
            bytes@ == raw.bytes@.take(i as int),
        decreases raw.bytes.len() - i,
    {
        bytes.push(raw.bytes[i]);
        assert(raw.bytes@.take(i + 1) =~= raw.bytes@.take(i as int).push(raw.bytes@[i as int]));
        i = i + 1;
    }
    assert(raw.bytes@.take(raw.bytes.len() as int) =~= raw.bytes@);
    RawValue { bytes, kind: raw.kind }
}

fn copy_registry(values: &[(String, RawValue)]) -> (out: Vec<(String, RawValue)>)
    ensures
        registry_view(out@) == registry_view(values@),
{
    let mut out: Vec<(String, RawValue)> = Vec::new();
    let mut i: usize = 0;
    while i < values.len()
        invariant
            i <= values.len(),
            registry_view(out@) == registry_view(values@).take(i as int),
        decreases values.len() - i,
    {
        let ghost before = registry_view(out@);
        out.push((values[i].0.clone(), copy_raw(&values[i].1)));
        assert(registry_view(out@) =~= before.push(registry_view(values@)[i as int]));
        assert(registry_view(values@).take(i + 1) =~= registry_view(values@).take(i as int).push(
            registry_view(values@)[i as int],
        ));
        i = i + 1;
    }
    assert(registry_view(values@).take(values.len() as int) =~= registry_view(values@));
    out
}

fn find_value(reg: &Vec<(String, RawValue)>, name: &str) -> (found: Option<usize>)
    ensures
        found matches Some(k) ==> k < reg@.len(),
        reg_find(registry_view(reg@), lower_all(name@), 0) == match found {
            Some(k) => Some(k as int),
            None => None,
        },
{
    let ghost rv = registry_view(reg@);
    let key = lower_chars(chars_of(name).as_slice());
    let mut k: usize = 0;
    while k < reg.len()
        invariant
            k <= reg.len(),
            rv == registry_view(reg@),
            key@ == lower_all(name@),
            reg_find(rv, key@, 0) == reg_find(rv, key@, k as int),
        decreases reg.len() - k,
    {
        let lowered = lower_chars(chars_of(reg[k].0.as_str()).as_slice());
        if crate::text::same_chars(lowered.as_slice(), key.as_slice()) {
            assert(lower_all(rv[k as int].0) == key@);
            return Some(k);
        }
        k = k + 1;
    }
    None
}

fn set_value(reg: &mut Vec<(String, RawValue)>, name: &String, raw: RawValue)
    ensures
        registry_view(final(reg)@) == reg_set(registry_view(old(reg)@), name@, raw_view(raw)),
{
    let ghost rv = registry_view(reg@);
    match find_value(reg, name.as_str()) {
        Some(k) => {
            let existing_name = reg[k].0.clone();
            reg.set(k, (existing_name, raw));
            assert(registry_view(reg@) =~= rv.update(k as int, (rv[k as int].0, raw_view(raw))));
        },
        None => {
            reg.push((name.clone(), raw));
            assert(registry_view(reg@) =~= rv.push((name@, raw_view(raw))));
        },
    }
}

proof fn lemma_decode_view(raw: RawValue)
    ensures
        decode_spec(raw) == decode_view(raw_view(raw)),
{
}

/// Plans restoring the variables `variables` (each name once) and the PATH
/// `additions` into the user environment whose values are `registry`, with `vars` the
/// process environment paths are expanded against.
pub fn restore_plan(
    variables: &[(String, String)],
    additions: &[String],
    registry: &[(String, RawValue)],
    vars: &[(String, String)],
    dry_run: bool,
) -> (plan: EnvPlan)
    ensures
        match restore_outcome(
            crate::manifest::vars_view(variables@),
            strings_view(additions@),
            registry_view(registry@),
            env_view(vars),
            dry_run,
        ) {
            Ok(o) => !plan.path_error && plan_lines(plan) == o.0 && apply_writes(
                registry_view(registry@),
                plan_writes(plan),
            ) == o.1 && plan.broadcast == o.2,
            Err(o) => plan.path_error && plan_lines(plan) == o.0 && apply_writes(
                registry_view(registry@),
                plan_writes(plan),
            ) == o.1 && !plan.broadcast,
        },
{
    let ghost vs = crate::manifest::vars_view(variables@);
    let ghost r0 = registry_view(registry@);
    if variables.len() == 0 && additions.len() == 0 {
        let plan = EnvPlan {
            steps: Vec::new(),
            path_error: false,
            path_lines: Vec::new(),
            path_write: None,
            closing: Some(String::from_str("  nothing to restore")),
            broadcast: false,
        };
        assert(plan_lines(plan) =~= seq!["  nothing to restore"@]);
        assert(plan_writes(plan) =~= Seq::<(Seq<char>, (ValueKind, Seq<u8>))>::empty());
        return plan;
    }
    let mut reg = copy_registry(registry);
    let mut steps: Vec<EnvStep> = Vec::new();
    let mut changed = false;
    let mut i: usize = 0;
    assert(vs.skip(0) =~= vs);
    while i < variables.len()
        invariant
            i <= variables.len(),
            vs == crate::manifest::vars_view(variables@),
            r0 == registry_view(registry@),
            apply_writes(r0, step_writes(steps@)) == registry_view(reg@),
            variables_phase(vs, r0, dry_run).0 == Seq::new(steps@.len(), |k: int| steps@[k].line@)
                + variables_phase(vs.skip(i as int), registry_view(reg@), dry_run).0,
            variables_phase(vs, r0, dry_run).1 == variables_phase(vs.skip(i as int), registry_view(reg@), dry_run).1,
            variables_phase(vs, r0, dry_run).2 == (changed || variables_phase(
                vs.skip(i as int),
                registry_view(reg@),
                dry_run,
            ).2),
        decreases variables.len() - i,
    {
        let ghost rv = registry_view(reg@);
        let ghost rest = vs.skip(i as int);
        let ghost lines_before = Seq::new(steps@.len(), |k: int| steps@[k].line@);
        let ghost ws_before = step_writes(steps@);
        proof {
            assert(rest[0] == (variables@[i as int].0@, variables@[i as int].1@));
            assert(rest.drop_first() =~= vs.skip(i + 1));
        }
        let name = &variables[i].0;
        let value = &variables[i].1;
        let found = find_value(&reg, name.as_str());
        let step = match found {
            Some(k) => {
                proof {
                    lemma_decode_view(reg@[k as int].1);
                }
                variable_step(name.as_str(), value.as_str(), Some(&reg[k].1))
            },
            None => variable_step(name.as_str(), value.as_str(), None),
        };
        assert(step.write == needs_write(reg_get(rv, rest[0].0), rest[0].1));
        let ghost steps_before = steps@;
        if step.write && !dry_run {
            let raw = encode(value.as_str());
            let copy = copy_raw(&raw);
            steps.push(EnvStep { line: step.message, write: Some((name.clone(), copy)) });
            set_value(&mut reg, name, raw);
            changed = true;
            proof {
                assert(steps@.drop_last() =~= steps_before);
                assert(step_writes(steps@) =~= ws_before + seq![(name@, raw_view(copy))]);
                let wsn = step_writes(steps@);
                assert(wsn.drop_last() =~= ws_before);
                assert(raw_view(raw) == encode_view(rest[0].1));
            }
        } else {
            steps.push(EnvStep { line: step.message, write: None });
            proof {
                assert(steps@.drop_last() =~= steps_before);
                assert(step_writes(steps@) =~= ws_before);
            }
        }
        proof {
            assert(Seq::new(steps@.len(), |k: int| steps@[k].line@) =~= lines_before.push(step.message@));
            assert(lines_before.push(step.message@) + variables_phase(vs.skip(i + 1), registry_view(reg@), dry_run).0
                =~= lines_before + (seq![step.message@] + variables_phase(vs.skip(i + 1), registry_view(reg@), dry_run).0));
        }
        i = i + 1;
    }
    proof {
        assert(vs.skip(variables.len() as int) =~= Seq::<(Seq<char>, Seq<char>)>::empty());
    }
    let ghost v = variables_phase(vs, r0, dry_run);
    assert(registry_view(reg@) == v.1);
    let path_name = String::from_str("Path");
    let found = find_value(&reg, path_name.as_str());
    proof {
        reveal_strlit("Path");
    }
    let existing: Option<&RawValue> = match found {
        Some(k) => Some(&reg[k].1),
        None => None,
    };
    let ghost existing_view = reg_get(v.1, "Path"@);
    proof {
        match existing {
            Some(raw) => {
                lemma_decode_view(*raw);
                assert(existing_view == Some(raw_view(*raw)));
            },
            None => {
                assert(existing_view is None);
            },
        }
    }
    let current = current_path_text(existing);
    match current {
        None => {
            let plan = EnvPlan {
                steps,
                path_error: true,
                path_lines: Vec::new(),
                path_write: None,
                closing: None,
                broadcast: false,
            };
            proof {
                assert(path_phase(strings_view(additions@), v.1, env_view(vars), dry_run) is None);
                assert(plan_lines(plan) =~= v.0);
                assert(plan_writes(plan) =~= step_writes(plan.steps@));
            }
            plan
        },
        Some(text) => {
            let merge = merge_path(text.as_str(), additions, vars);
            let expand = match existing {
                Some(raw) => match raw.kind {
                    ValueKind::ExpandableText => true,
                    _ => false,
                },
                None => false,
            };
            let path_write = if merge.changed && !dry_run {
                changed = true;
                Some(encode_as(merge.value.as_str(), expand))
            } else {
                None
            };
            let closing = if changed {
                None
            } else {
                Some(String::from_str("  nothing to change"))
            };
            let plan = EnvPlan {
                steps,
                path_error: false,
                path_lines: merge.messages,
                path_write,
                closing,
                broadcast: changed,
            };
            proof {
                let pp = path_phase(strings_view(additions@), v.1, env_view(vars), dry_run);
                assert(pp is Some);
                assert(text@ == (match existing_view {
                    Some(x) => decode_view(x).unwrap(),
                    None => Seq::<char>::empty(),
                }));
                assert(pp.unwrap().0 == strings_view(plan.path_lines@));
                assert(pp.unwrap().2 == (merge.changed && !dry_run));
                let lines = Seq::new(plan.steps@.len(), |k: int| plan.steps@[k].line@);
                assert(lines == v.0);
                let ws = step_writes(plan.steps@);
                if plan.path_write is Some {
                    let all = plan_writes(plan);
                    assert(all.drop_last() =~= ws);
                    assert(all.last() == ("Path"@, raw_view(plan.path_write->0)));
                } else {
                    assert(plan_writes(plan) =~= ws);
                }
                assert(plan_lines(plan) =~= v.0 + pp.unwrap().0 + if changed {
                    Seq::<Seq<char>>::empty()
                } else {
                    seq!["  nothing to change"@]
                });
            }
            plan
        },
    }
}

/// The text after appending plain entries has exactly those entries after the old ones.
proof fn lemma_path_entries_appended(c: Seq<char>, n: Seq<Seq<char>>)
    requires
        crate::paths::plain_entries(n),
    ensures
        path_entries(appended_path(c, n)) == path_entries(c) + n,
{
    reveal_strlit(";");
    if n.len() == 0 {
        assert(path_entries(c) + n =~= path_entries(c));
    } else if c.len() == 0 {
        crate::paths::lemma_path_entries_append(c, n);
        crate::paths::lemma_path_entries_empty();
        // c + ";" + join(n) splits as c's pieces then n; with c empty its piece is blank.
        let j = crate::text::join(n, ";"@);
        crate::paths::lemma_split_join(c, j, ';');
        crate::paths::lemma_kept_append(crate::paths::split_on(c, ';'), crate::paths::split_on(j, ';'));
        crate::paths::lemma_split_join(Seq::empty(), j, ';');
        assert(c + j =~= j);
        lemma_join_entries(n);
        assert(path_entries(c) =~= Seq::<Seq<char>>::empty());
        assert(path_entries(c) + n =~= n);
    } else if c.last() == ';' {
        let c0 = c.drop_last();
        let j = crate::text::join(n, ";"@);
        assert(c =~= c0 + seq![';'] + Seq::<char>::empty());
        assert(c + j =~= c0 + seq![';'] + j);
        crate::paths::lemma_path_entries_append(c0, n);
        crate::paths::lemma_split_join(c0, Seq::<char>::empty(), ';');
        crate::paths::lemma_kept_append(
            crate::paths::split_on(c0, ';'),
            crate::paths::split_on(Seq::<char>::empty(), ';'),
        );
        crate::paths::lemma_path_entries_empty();
        assert(path_entries(c) =~= path_entries(c0));
    } else {
        let j = crate::text::join(n, ";"@);
        assert(c + ";"@ + j =~= c + seq![';'] + j);
        crate::paths::lemma_path_entries_append(c, n);
    }
}

/// The entries of joined plain entries are those entries.
proof fn lemma_join_entries(n: Seq<Seq<char>>)
    requires
        crate::paths::plain_entries(n),
        n.len() > 0,
    ensures
        path_entries(crate::text::join(n, ";"@)) == n,
{
    crate::paths::lemma_path_entries_append(Seq::empty(), n);
    crate::paths::lemma_path_entries_empty();
    let j = crate::text::join(n, ";"@);
    crate::paths::lemma_split_join(Seq::empty(), j, ';');
    crate::paths::lemma_kept_append(
        crate::paths::split_on(Seq::<char>::empty(), ';'),
        crate::paths::split_on(j, ';'),
    );
    assert(Seq::<char>::empty() + seq![';'] + j =~= seq![';'] + j);
    // path_entries(";" + j) == [] + path_entries(j) and also == [] + n
    assert(path_entries(j) == n);
}

proof fn lemma_join_last(n: Seq<Seq<char>>)
    requires
        n.len() > 0,
        n.last().len() > 0,
    ensures
        crate::text::join(n, ";"@).len() > 0,
        crate::text::join(n, ";"@).last() == n.last().last(),
{
}

/// Every entry a merge appends is one of the additions.
proof fn lemma_merged_from_adds(e: Seq<Seq<char>>, adds: Seq<Seq<char>>, vars: Seq<(Seq<char>, Seq<char>)>)
    ensures
        forall|k: int|
            e.len() <= k < merged(e, adds, vars).len() ==> exists|j: int|
                0 <= j < adds.len() && #[trigger] merged(e, adds, vars)[k] == adds[j],
    decreases adds.len(),
{
    if adds.len() > 0 {
        let rest = adds.drop_first();
        if contains_same(e, adds[0], vars) {
            lemma_merged_from_adds(e, rest, vars);
            assert forall|k: int| e.len() <= k < merged(e, adds, vars).len() implies exists|j: int|
                0 <= j < adds.len() && #[trigger] merged(e, adds, vars)[k] == adds[j] by {
                let j = choose|j: int| 0 <= j < rest.len() && merged(e, rest, vars)[k] == rest[j];
                assert(adds[j + 1] == rest[j]);
            }
        } else {
            let e2 = e.push(adds[0]);
            lemma_merged_from_adds(e2, rest, vars);
            lemma_merged_keeps_prefix(e2, rest, vars);
            assert forall|k: int| e.len() <= k < merged(e, adds, vars).len() implies exists|j: int|
                0 <= j < adds.len() && #[trigger] merged(e, adds, vars)[k] == adds[j] by {
                let m = merged(e2, rest, vars);
                if k == e.len() {
                    assert(m[k] == m.take(e2.len() as int)[k]);
                    assert(m[k] == adds[0]);
                } else {
                    let j = choose|j: int| 0 <= j < rest.len() && m[k] == rest[j];
                    assert(adds[j + 1] == rest[j]);
                }
            }
        }
    }
}

/// Merging additions that are all present reports each as already there.
proof fn lemma_messages_when_covered(
    e: Seq<Seq<char>>,
    adds: Seq<Seq<char>>,
    vars: Seq<(Seq<char>, Seq<char>)>,
)
    requires
        forall|k: int| 0 <= k < adds.len() ==> contains_same(e, #[trigger] adds[k], vars),
    ensures
        merge_messages(e, adds, vars) == Seq::new(adds.len(), |k: int| "  Path already contains "@ + adds[k]),
    decreases adds.len(),
{
    if adds.len() > 0 {
        assert(contains_same(e, adds[0], vars));
        let rest = adds.drop_first();
        assert forall|k: int| 0 <= k < rest.len() implies contains_same(e, #[trigger] rest[k], vars) by {
            assert(rest[k] == adds[k + 1]);
        }
        lemma_messages_when_covered(e, rest, vars);
        assert(merge_messages(e, adds, vars) =~= Seq::new(adds.len(), |k: int| "  Path already contains "@ + adds[k]));
    } else {
        assert(merge_messages(e, adds, vars) =~= Seq::new(adds.len(), |k: int| "  Path already contains "@ + adds[k]));
    }
}

proof fn lemma_same_name_refl(a: Seq<char>)
    ensures
        same_name(a, a),
{
}

/// Restoring variables leaves every other name as it was.
proof fn lemma_variables_keep_others(
    vs: Seq<(Seq<char>, Seq<char>)>,
    reg: RegistryView,
    dry_run: bool,
    b: Seq<char>,
)
    requires
        forall|i: int| 0 <= i < vs.len() ==> !same_name(#[trigger] vs[i].0, b),
    ensures
        reg_get(variables_phase(vs, reg, dry_run).1, b) == reg_get(reg, b),
    decreases vs.len(),
{
    if vs.len() > 0 {
        let w = needs_write(reg_get(reg, vs[0].0), vs[0].1);
        let reg1 = if w && !dry_run {
            reg_set(reg, vs[0].0, encode_view(vs[0].1))
        } else {
            reg
        };
        assert(!same_name(vs[0].0, b));
        lemma_get_set(reg, vs[0].0, encode_view(vs[0].1), b);
        let rest = vs.drop_first();
        assert forall|i: int| 0 <= i < rest.len() implies !same_name(#[trigger] rest[i].0, b) by {
            assert(rest[i] == vs[i + 1]);
        }
        lemma_variables_keep_others(rest, reg1, dry_run, b);
    }
}

/// An encoded value reads back as the text, unless the text ends in a NUL.
proof fn lemma_encode_view_decodes(value: Seq<char>)
    requires
        value.len() == 0 || value.last() != '\0',
    ensures
        decode_view(encode_view(value)) == Some(value),
{
    crate::utf16::utf16_round_trip(value);
}

/// Each variable whose name is not in `vs`'s names.
pub open spec fn distinct_names(vs: Seq<(Seq<char>, Seq<char>)>) -> bool {
    forall|i: int, j: int| 0 <= i < j < vs.len() ==> !same_name(#[trigger] vs[i].0, #[trigger] vs[j].0)
}

/// Every variable of `vs` reads as its value in `reg`.
pub open spec fn variables_hold(vs: Seq<(Seq<char>, Seq<char>)>, reg: RegistryView) -> bool {
    forall|i: int|
        0 <= i < vs.len() ==> (reg_get(reg, #[trigger] vs[i].0) matches Some(x) && decode_view(x) == Some(vs[i].1))
}

proof fn lemma_variables_set(vs: Seq<(Seq<char>, Seq<char>)>, reg: RegistryView)
    requires
        distinct_names(vs),
        forall|i: int| 0 <= i < vs.len() ==> (#[trigger] vs[i].1.len() == 0 || vs[i].1.last() != '\0'),
    ensures
        variables_hold(vs, variables_phase(vs, reg, false).1),
    decreases vs.len(),
{
    if vs.len() > 0 {
        let w = needs_write(reg_get(reg, vs[0].0), vs[0].1);
        let reg1 = if w {
            reg_set(reg, vs[0].0, encode_view(vs[0].1))
        } else {
            reg
        };
        let rest = vs.drop_first();
        assert(vs[0].1.len() == 0 || vs[0].1.last() != '\0');
        lemma_get_set(reg, vs[0].0, encode_view(vs[0].1), vs[0].0);
        lemma_same_name_refl(vs[0].0);
        lemma_encode_view_decodes(vs[0].1);
        assert forall|i: int| 0 <= i < rest.len() implies !same_name(#[trigger] rest[i].0, vs[0].0) by {
            assert(rest[i] == vs[i + 1]);
            assert(!same_name(vs[0].0, vs[i + 1].0));
        }
        lemma_variables_keep_others(rest, reg1, false, vs[0].0);
        assert forall|i: int, j: int| 0 <= i < j < rest.len() implies !same_name(#[trigger] rest[i].0, #[trigger] rest[j].0) by {
            assert(rest[i] == vs[i + 1] && rest[j] == vs[j + 1]);
        }
        assert forall|i: int| 0 <= i < rest.len() implies (#[trigger] rest[i].1.len() == 0 || rest[i].1.last() != '\0') by {
            assert(rest[i] == vs[i + 1]);
        }
        lemma_variables_set(rest, reg1);
        let fin = variables_phase(vs, reg, false).1;
        assert forall|i: int| 0 <= i < vs.len() implies (reg_get(fin, #[trigger] vs[i].0) matches Some(x) && decode_view(x)
            == Some(vs[i].1)) by {
            if i > 0 {
                assert(vs[i] == rest[i - 1]);
            }
        }
    }
}

/// The lines restoring variables that all hold already reports.
pub open spec fn already_set_lines(vs: Seq<(Seq<char>, Seq<char>)>) -> Seq<Seq<char>> {
    Seq::new(vs.len(), |i: int| "  "@ + vs[i].0 + " already set"@)
}

proof fn lemma_variables_settled(vs: Seq<(Seq<char>, Seq<char>)>, reg: RegistryView)
    requires
        variables_hold(vs, reg),
    ensures
        variables_phase(vs, reg, false) == (already_set_lines(vs), reg, false),
    decreases vs.len(),
{
    if vs.len() > 0 {
        assert(reg_get(reg, vs[0].0) matches Some(x) && decode_view(x) == Some(vs[0].1));
        let rest = vs.drop_first();
        assert forall|i: int| 0 <= i < rest.len() implies (reg_get(reg, #[trigger] rest[i].0) matches Some(x)
            && decode_view(x) == Some(rest[i].1)) by {
            assert(rest[i] == vs[i + 1]);
        }
        lemma_variables_settled(rest, reg);
        assert(seq![variable_line(vs[0].0, vs[0].1, false)] + already_set_lines(rest) =~= already_set_lines(vs));
    } else {
        assert(already_set_lines(vs) =~= Seq::<Seq<char>>::empty());
    }
}

/// What a restore reports when everything is in place already.
pub open spec fn settled_lines(vs: Seq<(Seq<char>, Seq<char>)>, adds: Seq<Seq<char>>) -> Seq<Seq<char>> {
    if vs.len() == 0 && adds.len() == 0 {
        seq!["  nothing to restore"@]
    } else {
        already_set_lines(vs) + Seq::new(adds.len(), |k: int| "  Path already contains "@ + adds[k]) + seq![
            "  nothing to change"@,
        ]
    }
}

/// Restoring the same variables and PATH additions a second time, after a restore that
/// succeeded and with nothing else changing the environment in between, writes nothing
/// and broadcasts nothing: every variable is reported as already set, every addition as
/// already on PATH, and then that nothing changed. It holds for variables named apart
/// from each other and from `Path`, values that do not end in a NUL, and additions that
/// are trimmed, non-blank and free of `;` and NUL.
pub proof fn restoring_twice_changes_nothing(
    vs: Seq<(Seq<char>, Seq<char>)>,
    adds: Seq<Seq<char>>,
    reg: RegistryView,
    vars: Seq<(Seq<char>, Seq<char>)>,
)
    requires
        distinct_names(vs),
        forall|i: int| 0 <= i < vs.len() ==> !same_name(#[trigger] vs[i].0, "Path"@),
        forall|i: int| 0 <= i < vs.len() ==> (#[trigger] vs[i].1.len() == 0 || vs[i].1.last() != '\0'),
        crate::paths::plain_entries(adds),
        forall|k: int| 0 <= k < adds.len() ==> !(#[trigger] adds[k]).contains('\0'),
        restore_outcome(vs, adds, reg, vars, false) is Ok,
    ensures
        (restore_outcome(vs, adds, reg, vars, false) matches Ok(first) ==> restore_outcome(
            vs,
            adds,
            first.1,
            vars,
            false,
        ) == Ok::<(Seq<Seq<char>>, RegistryView, bool), (Seq<Seq<char>>, RegistryView)>(
            (settled_lines(vs, adds), first.1, false),
        )),
{
    if !(vs.len() == 0 && adds.len() == 0) {
        let v1 = variables_phase(vs, reg, false);
        let p1 = path_phase(adds, v1.1, vars, false).unwrap();
        let after1 = p1.1;
        lemma_variables_set(vs, reg);
        let existing1 = reg_get(v1.1, "Path"@);
        let cur1 = match existing1 {
            Some(x) => decode_view(x).unwrap(),
            None => Seq::empty(),
        };
        let e1 = path_entries(cur1);
        let added1 = merged(e1, adds, vars).skip(e1.len() as int);
        let expand1 = existing1 matches Some(x) && x.0 == ValueKind::ExpandableText;
        let value1 = (
            if expand1 {
                ValueKind::ExpandableText
            } else {
                ValueKind::Text
            },
            bytes_of_units(utf16_encode(appended_path(cur1, added1))) + seq![0u8, 0u8],
        );
        // The variables still hold after the PATH write.
        assert forall|i: int| 0 <= i < vs.len() implies (reg_get(after1, #[trigger] vs[i].0) matches Some(x)
            && decode_view(x) == Some(vs[i].1)) by {
            lemma_get_set(v1.1, "Path"@, value1, vs[i].0);
            assert(!same_name(vs[i].0, "Path"@));
        }
        lemma_variables_settled(vs, after1);
        // The PATH entries afterwards are those the first merge produced.
        lemma_merged_keeps_prefix(e1, adds, vars);
        let m1 = merged(e1, adds, vars);
        assert(m1 =~= m1.take(e1.len() as int) + added1);
        assert(m1 == e1 + added1);
        lemma_merged_from_adds(e1, adds, vars);
        assert forall|k: int| 0 <= k < added1.len() implies trim(#[trigger] added1[k]) == added1[k] && added1[k].len()
            > 0 && !added1[k].contains(';') && !added1[k].contains('\0') by {
            assert(added1[k] == m1[e1.len() + k]);
            let j = choose|j: int| 0 <= j < adds.len() && m1[e1.len() + k] == adds[j];
            assert(trim(adds[j]) == adds[j]);
        }
        let existing2 = reg_get(after1, "Path"@);
        let cur2 = match existing2 {
            Some(x) => decode_view(x).unwrap(),
            None => Seq::empty(),
        };
        if added1.len() > 0 {
            lemma_get_set(v1.1, "Path"@, value1, "Path"@);
            lemma_same_name_refl("Path"@);
            let t = appended_path(cur1, added1);
            let lastp = added1.last();
            assert(lastp.len() > 0);
            assert(lastp.last() != '\0') by {
                assert(!lastp.contains('\0'));
                assert(lastp[lastp.len() - 1] == lastp.last());
            }
            lemma_join_last(added1);
            crate::utf16::utf16_round_trip(t);
            assert(decode_view(value1) == Some(t));
            assert(cur2 == t);
            lemma_path_entries_appended(cur1, added1);
        } else {
            assert(after1 == v1.1);
            assert(cur2 == cur1);
            assert(e1 + added1 =~= e1);
        }
        let e2 = path_entries(cur2);
        assert(e2 == m1);
        lemma_merged_covers(e1, adds, vars);
        lemma_merged_when_covered(e2, adds, vars);
        lemma_messages_when_covered(e2, adds, vars);
        assert(merged(e2, adds, vars).skip(e2.len() as int) =~= Seq::<Seq<char>>::empty());
        let p2 = path_phase(adds, after1, vars, false);
        assert(p2 == Some((Seq::new(adds.len(), |k: int| "  Path already contains "@ + adds[k]), after1, false)));
        let out2 = restore_outcome(vs, adds, after1, vars, false);
        assert(out2 matches Ok(o) && o.0 =~= settled_lines(vs, adds) && o.1 == after1 && !o.2);
    }
}

} // verus!
