//! Configuration files: where captured files go in a bundle, and where they are restored.
use vstd::prelude::*;

use crate::paths::{env_view, expand, expand_spec, lookup, lookup_var, strings_view};
use crate::text::{chars_of, decimal, digit, push_chars, push_decimal, push_str, same_chars, string_of};

verus! {

pub open spec fn digits_value(ds: Seq<char>) -> int
    decreases ds.len(),
{
    if ds.len() == 0 {
        0
    } else {
        digits_value(ds.drop_last()) * 10 + (ds.last() as u32 - 48)
    }
}

proof fn lemma_digit_value(d: nat)
    requires
        d < 10,
    ensures
        digit(d) as u32 - 48 == d,
{
}

proof fn lemma_decimal_value(n: nat)
    ensures
        digits_value(decimal(n)) == n,
    decreases n,
{
    if n < 10 {
        lemma_digit_value(n);
        let ds = seq![digit(n)];
        assert(ds.drop_last() =~= Seq::<char>::empty());
        assert(digits_value(ds.drop_last()) == 0);
        assert(ds.last() == digit(n));
        assert(digits_value(ds) == n);
    } else {
        lemma_decimal_value(n / 10);
        lemma_digit_value(n % 10);
        let ds = decimal(n);
        assert(ds.drop_last() =~= decimal(n / 10));
        assert(ds.last() == digit(n % 10));
        assert(digits_value(ds) == (n / 10) * 10 + n % 10);
    }
}

/// The name tried for the `k`th use of `base`: `base.k`.
pub open spec fn numbered(base: Seq<char>, k: nat) -> Seq<char> {
    base + "."@ + decimal(k)
}

proof fn lemma_numbered_injective(base: Seq<char>, a: nat, b: nat)
    requires
        numbered(base, a) == numbered(base, b),
    ensures
        a == b,
{
    reveal_strlit(".");
    let x = numbered(base, a);
    let y = numbered(base, b);
    assert(x.skip(base.len() as int + 1) =~= decimal(a));
    assert(y.skip(base.len() as int + 1) =~= decimal(b));
    lemma_decimal_value(a);
    lemma_decimal_value(b);
}

/// The name `unique_name` picks: `base` when unused, else the first free `base.k` with k
/// counting from 2.
pub open spec fn first_free(base: Seq<char>, used: Seq<Seq<char>>) -> Seq<char> {
    if !used.contains(base) {
        base
    } else {
        numbered(
            base,
            choose|k: nat|
                2 <= k && !used.contains(#[trigger] numbered(base, k)) && forall|j: nat|
                    2 <= j < k ==> used.contains(#[trigger] numbered(base, j)),
        )
    }
}

fn contains_name(used: &Vec<String>, name: &[char]) -> (found: bool)
    ensures
        found == strings_view(used@).contains(name@),
{
    let mut i: usize = 0;
    while i < used.len()
        invariant
            i <= used.len(),
            forall|k: int| 0 <= k < i ==> used@[k]@ != name@,
        decreases used.len() - i,
    {
        if same_chars(chars_of(used[i].as_str()).as_slice(), name) {
            assert(strings_view(used@)[i as int] == name@);
            return true;
        }
        i = i + 1;
    }
    proof {
        if strings_view(used@).contains(name@) {
            let k = choose|k: int| 0 <= k < used@.len() && strings_view(used@)[k] == name@;
            assert(used@[k]@ == name@);
        }
    }
    false
}

proof fn lemma_taken_names_bound(base: Seq<char>, used: Seq<Seq<char>>, k: nat)
    requires
        2 <= k,
        forall|j: nat| 2 <= j <= k ==> used.contains(#[trigger] numbered(base, j)),
    ensures
        k - 1 <= used.len(),
{
    let range = vstd::set_lib::set_int_range(2, k as int + 1);
    vstd::set_lib::lemma_int_range(2, k as int + 1);
    let f = |j: int| numbered(base, j as nat);
    let image = range.map(f);
    assert(vstd::relations::injective_on(f, range)) by {
        assert forall|a: int, b: int| range.contains(a) && range.contains(b) && #[trigger] f(a)
            == #[trigger] f(b) implies a == b by {
            lemma_numbered_injective(base, a as nat, b as nat);
        }
    }
    vstd::set_lib::lemma_map_size(range, image, f);
    assert(image.subset_of(used.to_set())) by {
        assert forall|x: Seq<char>| image.contains(x) implies used.to_set().contains(x) by {
            let j = choose|j: int| range.contains(j) && f(j) == x;
            assert(used.contains(numbered(base, j as nat)));
        }
    }
    used.lemma_cardinality_of_set();
    vstd::set_lib::lemma_len_subset(image, used.to_set());
}

/// A bundle file name not yet in `used`, recorded there: `base` itself, or `base.2`,
/// `base.3`, ... the first that is free.
pub fn unique_name(base: &str, used: &mut Vec<String>) -> (name: String)
    requires
        old(used)@.len() + 2 <= usize::MAX,
    ensures
        name@ == first_free(base@, strings_view(old(used)@)),
        !strings_view(old(used)@).contains(name@),
        final(used)@ == old(used)@.push(name),
{
    let ghost taken = strings_view(used@);
    let base_chars = chars_of(base);
    if !contains_name(used, base_chars.as_slice()) {
        let name = String::from_str(base);
        used.push(name.clone());
        return name;
    }
    let mut k: usize = 2;
    loop
        invariant
            2 <= k <= used@.len() + 2,
            used@.len() + 2 <= usize::MAX,
            used@ == old(used)@,
            taken == strings_view(used@),
            base_chars@ == base@,
            taken.contains(base@),
            forall|j: nat| 2 <= j < k ==> taken.contains(#[trigger] numbered(base@, j)),
        decreases used@.len() + 2 - k,
    {
        let mut candidate: Vec<char> = base_chars.clone();
        candidate.push('.');
        push_decimal(&mut candidate, k as u64);
        proof {
            reveal_strlit(".");
            assert(candidate@ =~= numbered(base@, k as nat));
        }
        if !contains_name(used, candidate.as_slice()) {
            let name = string_of(candidate.as_slice());
            proof {
                let w = choose|w: nat|
                    2 <= w && !taken.contains(#[trigger] numbered(base@, w)) && forall|j: nat|
                        2 <= j < w ==> taken.contains(#[trigger] numbered(base@, j));
                if w < k {
                    assert(taken.contains(numbered(base@, w)));
                } else if w > k {
                    assert(taken.contains(numbered(base@, k as nat)));
                }
                assert(name@ == first_free(base@, taken));
            }
            used.push(name.clone());
            return name;
        }
        proof {
            lemma_taken_names_bound(base@, taken, k as nat);
            assert(strings_view(used@).len() == used@.len());
        }
        k = k + 1;
    }
}


pub open spec fn is_sep(c: char) -> bool {
    c == '\\' || c == '/'
}

/// The first position at or after `i` that does not hold a separator.
pub open spec fn skip_seps(cs: Seq<char>, i: int) -> int
    decreases cs.len() - i,
{
    if 0 <= i < cs.len() && is_sep(cs[i]) {
        skip_seps(cs, i + 1)
    } else {
        i
    }
}

/// The first position at or after `i` that holds a separator, or the end.
pub open spec fn component_end(cs: Seq<char>, i: int) -> int
    decreases cs.len() - i,
{
    if 0 <= i < cs.len() && !is_sep(cs[i]) {
        component_end(cs, i + 1)
    } else {
        i
    }
}

/// What is left of `p` from position `i` once the components of `b` from position `j`
/// are matched one by one against those of `p`, components being the runs between `\`
/// or `/` separators; nothing when they differ.
pub open spec fn strip_from(p: Seq<char>, b: Seq<char>, i: int, j: int) -> Option<Seq<char>>
    decreases p.len() - i,
{
    let i2 = skip_seps(p, i);
    let j2 = skip_seps(b, j);
    if j2 >= b.len() {
        if 0 <= i2 <= p.len() {
            Some(p.subrange(i2, p.len() as int))
        } else {
            None
        }
    } else if i2 >= p.len() {
        None
    } else {
        let ie = component_end(p, i2);
        let je = component_end(b, j2);
        if 0 <= i < ie <= p.len() && 0 <= i2 <= ie && 0 <= j2 <= je <= b.len() && p.subrange(i2, ie)
            == b.subrange(j2, je) {
            strip_from(p, b, ie, je)
        } else {
            None
        }
    }
}

/// `p` relative to `base` when the components of `base` begin `p`.
pub open spec fn strip_prefix_spec(p: Seq<char>, base: Seq<char>) -> Option<Seq<char>> {
    strip_from(p, base, 0, 0)
}

proof fn lemma_skip_seps(cs: Seq<char>, i: int)
    requires
        0 <= i <= cs.len(),
    ensures
        i <= skip_seps(cs, i) <= cs.len(),
        skip_seps(cs, i) < cs.len() ==> !is_sep(cs[skip_seps(cs, i)]),
    decreases cs.len() - i,
{
    if i < cs.len() && is_sep(cs[i]) {
        lemma_skip_seps(cs, i + 1);
    }
}

proof fn lemma_component_end(cs: Seq<char>, i: int)
    requires
        0 <= i <= cs.len(),
    ensures
        i <= component_end(cs, i) <= cs.len(),
        i < cs.len() && !is_sep(cs[i]) ==> i < component_end(cs, i),
    decreases cs.len() - i,
{
    if i < cs.len() && !is_sep(cs[i]) {
        lemma_component_end(cs, i + 1);
    }
}

fn skip_separators(cs: &[char], i: usize) -> (k: usize)
    requires
        i <= cs.len(),
    ensures
        k == skip_seps(cs@, i as int),
{
    let mut k = i;
    while k < cs.len() && (cs[k] == '\\' || cs[k] == '/')
        invariant
            i <= k <= cs.len(),
            skip_seps(cs@, i as int) == skip_seps(cs@, k as int),
        decreases cs.len() - k,
    {
        k = k + 1;
    }
    k
}

fn find_component_end(cs: &[char], i: usize) -> (k: usize)
    requires
        i <= cs.len(),
    ensures
        k == component_end(cs@, i as int),
{
    let mut k = i;
    while k < cs.len() && !(cs[k] == '\\' || cs[k] == '/')
        invariant
            i <= k <= cs.len(),
            component_end(cs@, i as int) == component_end(cs@, k as int),
        decreases cs.len() - k,
    {
        k = k + 1;
    }
    k
}

fn same_range(a: &[char], a0: usize, a1: usize, b: &[char], b0: usize, b1: usize) -> (eq: bool)
    requires
        a0 <= a1 <= a.len(),
        b0 <= b1 <= b.len(),
    ensures
        eq == (a@.subrange(a0 as int, a1 as int) == b@.subrange(b0 as int, b1 as int)),
{
    if a1 - a0 != b1 - b0 {
        assert(a@.subrange(a0 as int, a1 as int).len() != b@.subrange(b0 as int, b1 as int).len());
        return false;
    }
    let mut k: usize = 0;
    while k < a1 - a0
        invariant
            a0 <= a1 <= a.len(),
            b0 <= b1 <= b.len(),
            a1 - a0 == b1 - b0,
            k <= a1 - a0,
            forall|t: int| 0 <= t < k ==> a@.subrange(a0 as int, a1 as int)[t] == #[trigger] b@.subrange(b0 as int, b1 as int)[t],
        decreases a1 - a0 - k,
    {
        if a[a0 + k] != b[b0 + k] {
            assert(a@.subrange(a0 as int, a1 as int)[k as int] != b@.subrange(b0 as int, b1 as int)[k as int]);
            return false;
        }
        k = k + 1;
    }
    assert(a@.subrange(a0 as int, a1 as int) =~= b@.subrange(b0 as int, b1 as int));
    true
}

fn copy_from(cs: &[char], from: usize) -> (out: Vec<char>)
    requires
        from <= cs.len(),
    ensures
        out@ == cs@.subrange(from as int, cs.len() as int),
{
    let mut out: Vec<char> = Vec::new();
    let mut i = from;
    while i < cs.len()
        invariant
            from <= i <= cs.len(),
            out@ == cs@.subrange(from as int, i as int),
        decreases cs.len() - i,
    {
        out.push(cs[i]);
        i = i + 1;
    }
    out
}

/// `path` relative to `base`, when the components of `base` begin it.
pub fn strip_prefix(path: &[char], base: &[char]) -> (rest: Option<Vec<char>>)
    ensures
        match rest {
            Some(r) => strip_prefix_spec(path@, base@) == Some(r@),
            None => strip_prefix_spec(path@, base@) is None,
        },
{
    let mut i: usize = 0;
    let mut j: usize = 0;
    loop
        invariant
            i <= path.len(),
            j <= base.len(),
            strip_prefix_spec(path@, base@) == strip_from(path@, base@, i as int, j as int),
        decreases path.len() - i,
    {
        let i2 = skip_separators(path, i);
        let j2 = skip_separators(base, j);
        proof {
            lemma_skip_seps(path@, i as int);
            lemma_skip_seps(base@, j as int);
        }
        if j2 >= base.len() {
            return Some(copy_from(path, i2));
        }
        if i2 >= path.len() {
            return None;
        }
        let ie = find_component_end(path, i2);
        let je = find_component_end(base, j2);
        proof {
            lemma_component_end(path@, i2 as int);
            lemma_component_end(base@, j2 as int);
        }
        if !same_range(path, i2, ie, base, j2, je) {
            return None;
        }
        i = ie;
        j = je;
    }
}

pub open spec fn userprofile_prefix() -> Seq<char> {
    "%USERPROFILE%\\"@
}

/// The portable destination for a captured file: under the home folder it becomes
/// `%USERPROFILE%\` and the rest of the path, anything else stays as it is.
pub open spec fn destination_spec(path: Seq<char>, home: Option<Seq<char>>) -> Seq<char> {
    match home {
        Some(h) => match strip_prefix_spec(path, h) {
            Some(rel) => userprofile_prefix() + rel,
            None => path,
        },
        None => path,
    }
}

pub fn destination_for_home(path: &str, home: Option<&str>) -> (dest: String)
    ensures
        dest@ == destination_spec(path@, match home {
            Some(h) => Some(h@),
            None => None,
        }),
{
    let cs = chars_of(path);
    match home {
        Some(h) => {
            let hs = chars_of(h);
            match strip_prefix(cs.as_slice(), hs.as_slice()) {
                Some(rel) => {
                    let mut out: Vec<char> = Vec::new();
                    push_str(&mut out, "%USERPROFILE%\\");
                    push_chars(&mut out, rel.as_slice());
                    string_of(out.as_slice())
                },
                None => String::from_str(path),
            }
        },
        None => String::from_str(path),
    }
}

/// The home folder the environment names: `USERPROFILE` when set and not empty, else
/// `HOMEDRIVE` followed by `HOMEPATH` when both are set and not both empty.
pub open spec fn home_spec(vars: Seq<(Seq<char>, Seq<char>)>) -> Option<Seq<char>> {
    match lookup(vars, "USERPROFILE"@) {
        Some(p) if p.len() > 0 => Some(p),
        _ => match (lookup(vars, "HOMEDRIVE"@), lookup(vars, "HOMEPATH"@)) {
            (Some(d), Some(p)) => if d.len() == 0 && p.len() == 0 {
                None
            } else {
                Some(d + p)
            },
            _ => None,
        },
    }
}

pub fn home_dir(vars: &[(String, String)]) -> (home: Option<String>)
    ensures
        match home {
            Some(h) => home_spec(env_view(vars)) == Some(h@),
            None => home_spec(env_view(vars)) is None,
        },
{
    let profile = lookup_var(vars, chars_of("USERPROFILE").as_slice());
    if let Some(p) = profile {
        if p.len() > 0 {
            return Some(string_of(p.as_slice()));
        }
    }
    let drive = lookup_var(vars, chars_of("HOMEDRIVE").as_slice());
    let path = lookup_var(vars, chars_of("HOMEPATH").as_slice());
    match (drive, path) {
        (Some(d), Some(p)) => {
            if d.len() == 0 && p.len() == 0 {
                None
            } else {
                let mut out = d;
                push_chars(&mut out, p.as_slice());
                Some(string_of(out.as_slice()))
            }
        },
        _ => None,
    }
}

/// The destination `--include <path>` gets: portable when under the home folder.
pub fn destination_for(path: &str, vars: &[(String, String)]) -> (dest: String)
    ensures
        dest@ == destination_spec(path@, home_spec(env_view(vars))),
{
    match home_dir(vars) {
        Some(h) => destination_for_home(path, Some(h.as_str())),
        None => destination_for_home(path, None),
    }
}

pub open spec fn is_drive_letter(c: char) -> bool {
    ('a' <= c && c <= 'z') || ('A' <= c && c <= 'Z')
}

/// A path that stands on its own: a drive with a root (`C:\`) or a UNC share (`\\`).
pub open spec fn is_absolute_spec(cs: Seq<char>) -> bool {
    (cs.len() >= 3 && is_drive_letter(cs[0]) && cs[1] == ':' && is_sep(cs[2])) || (cs.len() >= 2
        && is_sep(cs[0]) && is_sep(cs[1]))
}

pub fn is_absolute(cs: &[char]) -> (abs: bool)
    ensures
        abs == is_absolute_spec(cs@),
{
    (cs.len() >= 3 && (('a' <= cs[0] && cs[0] <= 'z') || ('A' <= cs[0] && cs[0] <= 'Z')) && cs[1]
        == ':' && (cs[2] == '\\' || cs[2] == '/')) || (cs.len() >= 2 && (cs[0] == '\\' || cs[0]
        == '/') && (cs[1] == '\\' || cs[1] == '/'))
}

/// `rel` inside `base`: `rel` itself when absolute, else joined with a `\` unless
/// `base` is empty or already ends in a separator.
pub open spec fn join_spec(base: Seq<char>, rel: Seq<char>) -> Seq<char> {
    if is_absolute_spec(rel) || base.len() == 0 {
        rel
    } else if is_sep(base.last()) {
        base + rel
    } else {
        base + "\\"@ + rel
    }
}

/// Where a file entry's source is: its path, with `%VARIABLES%` and `~` expanded, taken
/// inside the bundle folder unless absolute.
pub fn resolve_source(bundle: &str, source: &str, vars: &[(String, String)]) -> (path: String)
    ensures
        path@ == join_spec(bundle@, expand_spec(source@, env_view(vars))),
{
    let expanded = expand(source, vars);
    let rel = chars_of(expanded.as_str());
    let base = chars_of(bundle);
    if is_absolute(rel.as_slice()) || base.len() == 0 {
        return expanded;
    }
    let mut out = base.clone();
    if !(base[base.len() - 1] == '\\' || base[base.len() - 1] == '/') {
        out.push('\\');
    }
    push_chars(&mut out, rel.as_slice());
    proof {
        reveal_strlit("\\");
        assert(out@ =~= join_spec(bundle@, expand_spec(source@, env_view(vars))));
    }
    string_of(out.as_slice())
}


/// A configuration file `export` looks for: its name in the bundle, where it usually is,
/// and where it goes back to.
pub struct KnownFile {
    pub bundle_name: &'static str,
    pub source: &'static str,
    pub destination: &'static str,
}

pub open spec fn known_spec() -> Seq<(Seq<char>, Seq<char>, Seq<char>)> {
    seq![
        ("gitconfig"@, "~/.gitconfig"@, "%USERPROFILE%\\.gitconfig"@),
        ("gitignore_global"@, "~/.gitignore_global"@, "%USERPROFILE%\\.gitignore_global"@),
        ("ssh_config"@, "~/.ssh/config"@, "%USERPROFILE%\\.ssh\\config"@),
        ("wslconfig"@, "~/.wslconfig"@, "%USERPROFILE%\\.wslconfig"@),
        ("npmrc"@, "~/.npmrc"@, "%USERPROFILE%\\.npmrc"@),
        ("vimrc"@, "~/.vimrc"@, "%USERPROFILE%\\.vimrc"@),
        ("editorconfig"@, "~/.editorconfig"@, "%USERPROFILE%\\.editorconfig"@),
        ("powershell_profile.ps1"@, "~/Documents/PowerShell/Microsoft.PowerShell_profile.ps1"@, "%USERPROFILE%\\Documents\\PowerShell\\Microsoft.PowerShell_profile.ps1"@),
        ("windows_powershell_profile.ps1"@, "~/Documents/WindowsPowerShell/Microsoft.PowerShell_profile.ps1"@, "%USERPROFILE%\\Documents\\WindowsPowerShell\\Microsoft.PowerShell_profile.ps1"@),
        ("vscode_settings.json"@, "%APPDATA%/Code/User/settings.json"@, "%APPDATA%\\Code\\User\\settings.json"@),
        ("vscode_keybindings.json"@, "%APPDATA%/Code/User/keybindings.json"@, "%APPDATA%\\Code\\User\\keybindings.json"@),
    ]
}

pub open spec fn known_view(k: Seq<KnownFile>) -> Seq<(Seq<char>, Seq<char>, Seq<char>)> {
    Seq::new(k.len(), |i: int| (k[i].bundle_name@, k[i].source@, k[i].destination@))
}

/// The files `export` captures when they exist.
pub fn known_files() -> (known: Vec<KnownFile>)
    ensures
        known_view(known@) == known_spec(),
{
    let mut out: Vec<KnownFile> = Vec::new();
    out.push(KnownFile { bundle_name: "gitconfig", source: "~/.gitconfig", destination: "%USERPROFILE%\\.gitconfig" });
    out.push(KnownFile { bundle_name: "gitignore_global", source: "~/.gitignore_global", destination: "%USERPROFILE%\\.gitignore_global" });
    out.push(KnownFile { bundle_name: "ssh_config", source: "~/.ssh/config", destination: "%USERPROFILE%\\.ssh\\config" });
    out.push(KnownFile { bundle_name: "wslconfig", source: "~/.wslconfig", destination: "%USERPROFILE%\\.wslconfig" });
    out.push(KnownFile { bundle_name: "npmrc", source: "~/.npmrc", destination: "%USERPROFILE%\\.npmrc" });
    out.push(KnownFile { bundle_name: "vimrc", source: "~/.vimrc", destination: "%USERPROFILE%\\.vimrc" });
    out.push(KnownFile { bundle_name: "editorconfig", source: "~/.editorconfig", destination: "%USERPROFILE%\\.editorconfig" });
    out.push(KnownFile { bundle_name: "powershell_profile.ps1", source: "~/Documents/PowerShell/Microsoft.PowerShell_profile.ps1", destination: "%USERPROFILE%\\Documents\\PowerShell\\Microsoft.PowerShell_profile.ps1" });
    out.push(KnownFile { bundle_name: "windows_powershell_profile.ps1", source: "~/Documents/WindowsPowerShell/Microsoft.PowerShell_profile.ps1", destination: "%USERPROFILE%\\Documents\\WindowsPowerShell\\Microsoft.PowerShell_profile.ps1" });
    out.push(KnownFile { bundle_name: "vscode_settings.json", source: "%APPDATA%/Code/User/settings.json", destination: "%APPDATA%\\Code\\User\\settings.json" });
    out.push(KnownFile { bundle_name: "vscode_keybindings.json", source: "%APPDATA%/Code/User/keybindings.json", destination: "%APPDATA%\\Code\\User\\keybindings.json" });
    assert(known_view(out@) =~= known_spec());
    out
}


/// `cs` without trailing separators.
pub open spec fn trim_trailing_seps(cs: Seq<char>) -> Seq<char>
    decreases cs.len(),
{
    if cs.len() > 0 && is_sep(cs.last()) {
        trim_trailing_seps(cs.drop_last())
    } else {
        cs
    }
}

/// The characters after the last separator.
pub open spec fn last_component(cs: Seq<char>) -> Seq<char>
    decreases cs.len(),
{
    if cs.len() == 0 || is_sep(cs.last()) {
        Seq::empty()
    } else {
        last_component(cs.drop_last()).push(cs.last())
    }
}

/// The file name of a path: its last component, unless that is empty or `..`.
pub open spec fn file_name_spec(cs: Seq<char>) -> Option<Seq<char>> {
    let c = last_component(trim_trailing_seps(cs));
    if c.len() == 0 || c == ".."@ {
        None
    } else {
        Some(c)
    }
}

pub fn file_name(cs: &[char]) -> (name: Option<Vec<char>>)
    ensures
        match name {
            Some(n) => file_name_spec(cs@) == Some(n@),
            None => file_name_spec(cs@) is None,
        },
{
    let mut end = cs.len();
    assert(cs@.take(end as int) =~= cs@);
    while end > 0 && (cs[end - 1] == '\\' || cs[end - 1] == '/')
        invariant
            end <= cs.len(),
            trim_trailing_seps(cs@) == trim_trailing_seps(cs@.take(end as int)),
        decreases end,
    {
        assert(cs@.take(end as int).drop_last() =~= cs@.take(end - 1));
        end = end - 1;
    }
    let ghost t = cs@.take(end as int);
    assert(trim_trailing_seps(t) == t);
    let mut start = end;
    while start > 0 && !(cs[start - 1] == '\\' || cs[start - 1] == '/')
        invariant
            start <= end <= cs.len(),
            t == cs@.take(end as int),
            last_component(t) == last_component(cs@.take(start as int)) + cs@.subrange(
                start as int,
                end as int,
            ),
        decreases start,
    {
        proof {
            let u = cs@.take(start as int);
            assert(u.drop_last() =~= cs@.take(start - 1));
            assert(u.last() == cs@[start - 1]);
            assert(last_component(u) == last_component(cs@.take(start - 1)).push(cs@[start - 1]));
            assert(last_component(cs@.take(start - 1)).push(cs@[start - 1]) + cs@.subrange(
                start as int,
                end as int,
            ) =~= last_component(cs@.take(start - 1)) + cs@.subrange(start - 1, end as int));
        }
        start = start - 1;
    }
    proof {
        let u = cs@.take(start as int);
        if start > 0 {
            assert(u.last() == cs@[start - 1]);
        }
        assert(last_component(u) =~= Seq::<char>::empty());
        assert(last_component(t) =~= cs@.subrange(start as int, end as int));
    }
    let mut out: Vec<char> = Vec::new();
    let mut i = start;
    while i < end
        invariant
            start <= i <= end <= cs.len(),
            out@ == cs@.subrange(start as int, i as int),
        decreases end - i,
    {
        out.push(cs[i]);
        i = i + 1;
    }
    let dots = chars_of("..");
    if out.len() == 0 || same_chars(out.as_slice(), dots.as_slice()) {
        None
    } else {
        Some(out)
    }
}

/// A file `export` copies into the bundle, and the manifest entry that restores it.
pub struct PlannedCopy {
    pub from: String,
    pub name: String,
    pub entry: crate::manifest::FileCopy,
}

/// An `--include` argument, and whether its expanded path is a file.
pub struct IncludedFile {
    pub path: String,
    pub is_file: bool,
}

/// The copies to make, then the error to stop with, if any.
pub struct CapturePlan {
    pub copies: Vec<PlannedCopy>,
    pub error: Option<String>,
}

pub open spec fn planned_view(p: Seq<PlannedCopy>) -> Seq<(Seq<char>, Seq<char>, Seq<char>, Seq<char>)> {
    Seq::new(p.len(), |i: int| (p[i].from@, p[i].name@, p[i].entry.source@, p[i].entry.destination@))
}

/// Planned copies as `(from, name, source entry, destination entry)`, the names used so
/// far, and the destinations taken so far with ASCII case folded.
pub type PlanState = (Seq<(Seq<char>, Seq<char>, Seq<char>, Seq<char>)>, Seq<Seq<char>>, Seq<Seq<char>>);

pub open spec fn take_file(st: PlanState, from: Seq<char>, base: Seq<char>, dest: Seq<char>) -> PlanState {
    let name = first_free(base, st.1);
    (st.0.push((from, name, "files/"@ + name, dest)), st.1.push(name), st.2.push(crate::text::lower_all(dest)))
}

/// The plan after the first `n` known files, those present taken under their own names.
pub open spec fn known_plan(n: nat, present: Seq<bool>, vars: Seq<(Seq<char>, Seq<char>)>) -> PlanState
    decreases n,
{
    if n == 0 {
        (Seq::empty(), Seq::empty(), Seq::empty())
    } else {
        let st = known_plan((n - 1) as nat, present, vars);
        let k = known_spec()[n - 1];
        if present[n - 1] {
            take_file(st, expand_spec(k.1, vars), k.0, k.2)
        } else {
            st
        }
    }
}

/// The plan after the first `m` includes: stopped at one that is not a file, one whose
/// destination is already taken skipped, the others taken under their file name.
pub open spec fn include_plan(
    m: nat,
    start: PlanState,
    includes: Seq<(Seq<char>, bool)>,
    vars: Seq<(Seq<char>, Seq<char>)>,
) -> (PlanState, Option<Seq<char>>)
    decreases m,
{
    if m == 0 {
        (start, None)
    } else {
        let (st, err) = include_plan((m - 1) as nat, start, includes, vars);
        if err is Some {
            (st, err)
        } else {
            let path = expand_spec(includes[m - 1].0, vars);
            let dest = destination_spec(path, home_spec(vars));
            if !includes[m - 1].1 {
                (st, Some("cannot include "@ + path + ": not a file"@))
            } else if st.2.contains(crate::text::lower_all(dest)) {
                (st, None)
            } else {
                let base = match file_name_spec(path) {
                    Some(n) => n,
                    None => "file"@,
                };
                (take_file(st, path, base, dest), None)
            }
        }
    }
}

proof fn lemma_include_plan_stops(
    m0: nat,
    m: nat,
    start: PlanState,
    includes: Seq<(Seq<char>, bool)>,
    vars: Seq<(Seq<char>, Seq<char>)>,
)
    requires
        m0 <= m,
        include_plan(m0, start, includes, vars).1 is Some,
    ensures
        include_plan(m, start, includes, vars) == include_plan(m0, start, includes, vars),
    decreases m - m0,
{
    if m > m0 {
        lemma_include_plan_stops(m0, (m - 1) as nat, start, includes, vars);
    }
}

pub open spec fn includes_view(v: Seq<IncludedFile>) -> Seq<(Seq<char>, bool)> {
    Seq::new(v.len(), |i: int| (v[i].path@, v[i].is_file))
}

fn contains_chars(list: &Vec<Vec<char>>, x: &[char]) -> (found: bool)
    ensures
        found == crate::text::char_vecs_view(list@).contains(x@),
{
    let mut i: usize = 0;
    while i < list.len()
        invariant
            i <= list.len(),
            forall|k: int| 0 <= k < i ==> list@[k]@ != x@,
        decreases list.len() - i,
    {
        if same_chars(list[i].as_slice(), x) {
            assert(crate::text::char_vecs_view(list@)[i as int] == x@);
            return true;
        }
        i = i + 1;
    }
    proof {
        if crate::text::char_vecs_view(list@).contains(x@) {
            let k = choose|k: int| 0 <= k < list@.len() && crate::text::char_vecs_view(list@)[k] == x@;
            assert(list@[k]@ == x@);
        }
    }
    false
}

fn plan_take(
    copies: &mut Vec<PlannedCopy>,
    names: &mut Vec<String>,
    dests: &mut Vec<Vec<char>>,
    from: String,
    base: &str,
    dest: String,
)
    requires
        old(names)@.len() + 2 <= usize::MAX,
    ensures
        final(names)@.len() == old(names)@.len() + 1,
        (planned_view(final(copies)@), strings_view(final(names)@), crate::text::char_vecs_view(final(dests)@))
            == take_file(
            (planned_view(old(copies)@), strings_view(old(names)@), crate::text::char_vecs_view(old(dests)@)),
            from@,
            base@,
            dest@,
        ),
{
    let ghost names0 = strings_view(names@);
    let ghost copies0 = planned_view(copies@);
    let ghost dests0 = crate::text::char_vecs_view(dests@);
    let name = unique_name(base, names);
    let mut source: Vec<char> = Vec::new();
    push_str(&mut source, "files/");
    push_str(&mut source, name.as_str());
    let lowered = crate::text::lower_chars(chars_of(dest.as_str()).as_slice());
    copies.push(
        PlannedCopy {
            from,
            name,
            entry: crate::manifest::FileCopy { source: string_of(source.as_slice()), destination: dest },
        },
    );
    dests.push(lowered);
    proof {
        assert(strings_view(names@) =~= names0.push(name@));
        assert(planned_view(copies@) =~= copies0.push((from@, name@, "files/"@ + name@, dest@)));
        assert(crate::text::char_vecs_view(dests@) =~= dests0.push(crate::text::lower_all(dest@)));
    }
}

/// What `export` copies into the bundle's `files/` folder: each known file that exists
/// (`known_present` in the order of `known_files`), then each `--include` file whose
/// destination is not taken yet, named after its file name; planning stops at the
/// first include that is not a file.
pub fn plan_capture(known_present: &[bool], includes: &[IncludedFile], vars: &[(String, String)]) -> (plan: CapturePlan)
    requires
        known_present@.len() == known_spec().len(),
        includes@.len() + known_spec().len() + 2 <= usize::MAX,
    ensures
        ({
            let (st, err) = include_plan(
                includes@.len() as nat,
                known_plan(known_spec().len(), known_present@, env_view(vars)),
                includes_view(includes@),
                env_view(vars),
            );
            &&& planned_view(plan.copies@) == st.0
            &&& match plan.error {
                Some(e) => err == Some(e@),
                None => err is None,
            }
        }),
{
    let ghost vv = env_view(vars);
    let known = known_files();
    let mut copies: Vec<PlannedCopy> = Vec::new();
    let mut names: Vec<String> = Vec::new();
    let mut dests: Vec<Vec<char>> = Vec::new();
    let mut k: usize = 0;
    proof {
        assert(planned_view(copies@) =~= Seq::empty());
        assert(strings_view(names@) =~= Seq::empty());
        assert(crate::text::char_vecs_view(dests@) =~= Seq::empty());
    }
    while k < known.len()
        invariant
            k <= known@.len(),
            known_view(known@) == known_spec(),
            known_present@.len() == known_spec().len(),
            vv == env_view(vars),
            names@.len() <= k,
            (planned_view(copies@), strings_view(names@), crate::text::char_vecs_view(dests@))
                == known_plan(k as nat, known_present@, vv),
        decreases known@.len() - k,
    {
        assert(known_view(known@)[k as int] == known_spec()[k as int]);
        if known_present[k] {
            let from = expand(known[k].source, vars);
            plan_take(&mut copies, &mut names, &mut dests, from, known[k].bundle_name, String::from_str(known[k].destination));
        }
        k = k + 1;
    }
    let ghost start = known_plan(known_spec().len(), known_present@, vv);
    let home = home_dir(vars);
    let mut i: usize = 0;
    while i < includes.len()
        invariant
            i <= includes@.len(),
            vv == env_view(vars),
            start == known_plan(known_spec().len(), known_present@, vv),
            names@.len() <= i + known_spec().len(),
            includes@.len() + known_spec().len() + 2 <= usize::MAX,
            match home {
                Some(h) => home_spec(vv) == Some(h@),
                None => home_spec(vv) is None,
            },
            include_plan(i as nat, start, includes_view(includes@), vv) == (
                (planned_view(copies@), strings_view(names@), crate::text::char_vecs_view(dests@)),
                None::<Seq<char>>,
            ),
        decreases includes@.len() - i,
    {
        let path = expand(includes[i].path.as_str(), vars);
        assert(includes_view(includes@)[i as int] == (includes@[i as int].path@, includes@[i as int].is_file));
        if !includes[i].is_file {
            let mut text: Vec<char> = Vec::new();
            push_str(&mut text, "cannot include ");
            push_str(&mut text, path.as_str());
            push_str(&mut text, ": not a file");
            proof {
                assert(text@ =~= "cannot include "@ + path@ + ": not a file"@);
                assert(include_plan((i + 1) as nat, start, includes_view(includes@), vv) == (
                    (planned_view(copies@), strings_view(names@), crate::text::char_vecs_view(dests@)),
                    Some(text@),
                ));
                lemma_include_plan_stops(
                    (i + 1) as nat,
                    includes@.len() as nat,
                    start,
                    includes_view(includes@),
                    vv,
                );
            }
            let message = string_of(text.as_slice());
            let plan = CapturePlan { copies, error: Some(message) };
            assert(include_plan(includes@.len() as nat, start, includes_view(includes@), vv).0.0
                == planned_view(plan.copies@));
            assert(include_plan(includes@.len() as nat, start, includes_view(includes@), vv).1
                == Some(message@));
            return plan;
        }
        let dest = match &home {
            Some(h) => destination_for_home(path.as_str(), Some(h.as_str())),
            None => destination_for_home(path.as_str(), None),
        };
        let lowered = crate::text::lower_chars(chars_of(dest.as_str()).as_slice());
        if !contains_chars(&dests, lowered.as_slice()) {
            let path_chars = chars_of(path.as_str());
            match file_name(path_chars.as_slice()) {
                Some(n) => {
                    let base = string_of(n.as_slice());
                    plan_take(&mut copies, &mut names, &mut dests, path, base.as_str(), dest);
                },
                None => {
                    plan_take(&mut copies, &mut names, &mut dests, path, "file", dest);
                },
            }
        }
        i = i + 1;
    }
    CapturePlan { copies, error: None }
}

/// The line restoring files reports, and all it does, when the bundle lists none.
pub fn nothing_to_restore(copies: &[crate::manifest::FileCopy]) -> (line: Option<String>)
    ensures
        line is Some <==> copies@.len() == 0,
        line matches Some(l) ==> l@ == "  nothing to restore"@,
{
    if copies.len() == 0 {
        Some(String::from_str("  nothing to restore"))
    } else {
        None
    }
}

/// What restoring one file entry does.
pub struct FileStep {
    /// Set when the bundle lacks the entry's source; restoring stops there.
    pub error: Option<String>,
    pub line: Option<String>,
    /// Whether the source is copied over the destination.
    pub copy: bool,
}

/// Restoring one entry whose source resolved to `source` and destination to
/// `destination`: a missing source stops the restore, a destination that already holds
/// the same bytes is reported unchanged, anything else is reported and copied unless
/// this is a dry run.
pub fn file_step(
    entry_source: &str,
    source: &str,
    destination: &str,
    source_present: bool,
    unchanged: bool,
    dry_run: bool,
) -> (step: FileStep)
    ensures
        !source_present ==> (step.error matches Some(e) && e@ == "bundle is missing "@ + source@),
        !source_present ==> step.line is None && !step.copy,
        source_present ==> step.error is None,
        source_present && unchanged ==> (step.line matches Some(l) && l@ == "  "@ + destination@
            + " unchanged"@),
        source_present && unchanged ==> !step.copy,
        source_present && !unchanged ==> (step.line matches Some(l) && l@ == "  "@ + entry_source@
            + " -> "@ + destination@),
        source_present && !unchanged ==> step.copy == !dry_run,
{
    let mut out: Vec<char> = Vec::new();
    if !source_present {
        push_str(&mut out, "bundle is missing ");
        push_str(&mut out, source);
        return FileStep { error: Some(string_of(out.as_slice())), line: None, copy: false };
    }
    if unchanged {
        push_str(&mut out, "  ");
        push_str(&mut out, destination);
        push_str(&mut out, " unchanged");
        return FileStep { error: None, line: Some(string_of(out.as_slice())), copy: false };
    }
    push_str(&mut out, "  ");
    push_str(&mut out, entry_source);
    push_str(&mut out, " -> ");
    push_str(&mut out, destination);
    FileStep { error: None, line: Some(string_of(out.as_slice())), copy: !dry_run }
}

/// The files on a disk as the bytes each holds, by path.
pub type Disk = Map<Seq<char>, Seq<u8>>;

/// Where an entry `(source, destination)` is copied from inside `bundle`.
pub open spec fn entry_source(bundle: Seq<char>, entry: (Seq<char>, Seq<char>), vars: Seq<(Seq<char>, Seq<char>)>) -> Seq<char> {
    join_spec(bundle, expand_spec(entry.0, vars))
}

/// Where an entry `(source, destination)` is restored to.
pub open spec fn entry_destination(entry: (Seq<char>, Seq<char>), vars: Seq<(Seq<char>, Seq<char>)>) -> Seq<char> {
    expand_spec(entry.1, vars)
}

/// Restoring `entries` in order onto `disk`, each the way `file_step` decides it: `Ok`
/// holds the lines reported and the disk afterwards; `Err` the lines reported before a
/// missing source, and the error.
pub open spec fn restore_files(
    entries: Seq<(Seq<char>, Seq<char>)>,
    bundle: Seq<char>,
    vars: Seq<(Seq<char>, Seq<char>)>,
    disk: Disk,
    dry_run: bool,
) -> Result<(Seq<Seq<char>>, Disk), (Seq<Seq<char>>, Seq<char>)>
    decreases entries.len(),
{
    if entries.len() == 0 {
        Ok((Seq::empty(), disk))
    } else {
        let src = entry_source(bundle, entries[0], vars);
        let dest = entry_destination(entries[0], vars);
        if !disk.contains_key(src) {
            Err((Seq::empty(), "bundle is missing "@ + src))
        } else {
            let unchanged = disk.contains_key(dest) && disk[dest] == disk[src];
            let line = if unchanged {
                "  "@ + dest + " unchanged"@
            } else {
                "  "@ + entries[0].0 + " -> "@ + dest
            };
            let disk1 = if unchanged || dry_run {
                disk
            } else {
                disk.insert(dest, disk[src])
            };
            match restore_files(entries.drop_first(), bundle, vars, disk1, dry_run) {
                Ok(rest) => Ok((seq![line] + rest.0, rest.1)),
                Err(rest) => Err((seq![line] + rest.0, rest.1)),
            }
        }
    }
}

/// Restoring a bundle's file entries: a line saying there is nothing to restore when
/// there are none, otherwise each entry in turn.
pub open spec fn files_outcome(
    entries: Seq<(Seq<char>, Seq<char>)>,
    bundle: Seq<char>,
    vars: Seq<(Seq<char>, Seq<char>)>,
    disk: Disk,
    dry_run: bool,
) -> Result<(Seq<Seq<char>>, Disk), (Seq<Seq<char>>, Seq<char>)> {
    if entries.len() == 0 {
        Ok((seq!["  nothing to restore"@], disk))
    } else {
        restore_files(entries, bundle, vars, disk, dry_run)
    }
}

/// The lines restoring reports when every destination already holds its source's bytes.
pub open spec fn unchanged_lines(entries: Seq<(Seq<char>, Seq<char>)>, vars: Seq<(Seq<char>, Seq<char>)>) -> Seq<
    Seq<char>,
> {
    if entries.len() == 0 {
        seq!["  nothing to restore"@]
    } else {
        Seq::new(entries.len(), |i: int| "  "@ + entry_destination(entries[i], vars) + " unchanged"@)
    }
}

/// No two entries restore to the same place, and none restores over a source.
pub open spec fn separate_destinations(
    entries: Seq<(Seq<char>, Seq<char>)>,
    bundle: Seq<char>,
    vars: Seq<(Seq<char>, Seq<char>)>,
) -> bool {
    &&& forall|i: int, j: int|
        0 <= i < j < entries.len() ==> entry_destination(#[trigger] entries[i], vars) != entry_destination(
            #[trigger] entries[j],
            vars,
        )
    &&& forall|i: int, j: int|
        0 <= i < entries.len() && 0 <= j < entries.len() ==> entry_destination(#[trigger] entries[i], vars)
            != entry_source(bundle, #[trigger] entries[j], vars)
}

proof fn lemma_separate_rest(entries: Seq<(Seq<char>, Seq<char>)>, bundle: Seq<char>, vars: Seq<(Seq<char>, Seq<char>)>)
    requires
        entries.len() > 0,
        separate_destinations(entries, bundle, vars),
    ensures
        separate_destinations(entries.drop_first(), bundle, vars),
{
    let rest = entries.drop_first();
    assert forall|i: int, j: int| 0 <= i < j < rest.len() implies entry_destination(#[trigger] rest[i], vars)
        != entry_destination(#[trigger] rest[j], vars) by {
        assert(rest[i] == entries[i + 1] && rest[j] == entries[j + 1]);
    }
    assert forall|i: int, j: int| 0 <= i < rest.len() && 0 <= j < rest.len() implies entry_destination(
        #[trigger] rest[i],
        vars,
    ) != entry_source(bundle, #[trigger] rest[j], vars) by {
        assert(rest[i] == entries[i + 1] && rest[j] == entries[j + 1]);
    }
}

/// Restoring leaves every path that is no entry's destination as it was.
proof fn lemma_restore_keeps_others(
    entries: Seq<(Seq<char>, Seq<char>)>,
    bundle: Seq<char>,
    vars: Seq<(Seq<char>, Seq<char>)>,
    disk: Disk,
    p: Seq<char>,
)
    requires
        forall|i: int| 0 <= i < entries.len() ==> entry_destination(#[trigger] entries[i], vars) != p,
    ensures
        restore_files(entries, bundle, vars, disk, false) matches Ok(r) ==> (r.1.contains_key(p)
            == disk.contains_key(p) && (disk.contains_key(p) ==> r.1[p] == disk[p])),
    decreases entries.len(),
{
    if entries.len() > 0 {
        let src = entry_source(bundle, entries[0], vars);
        let dest = entry_destination(entries[0], vars);
        if disk.contains_key(src) {
            let unchanged = disk.contains_key(dest) && disk[dest] == disk[src];
            let disk1 = if unchanged {
                disk
            } else {
                disk.insert(dest, disk[src])
            };
            assert(dest != p);
            let rest = entries.drop_first();
            assert forall|i: int| 0 <= i < rest.len() implies entry_destination(#[trigger] rest[i], vars) != p by {
                assert(rest[i] == entries[i + 1]);
            }
            lemma_restore_keeps_others(rest, bundle, vars, disk1, p);
        }
    }
}

/// After a restore that succeeded, every destination holds its source's bytes.
proof fn lemma_restore_places(
    entries: Seq<(Seq<char>, Seq<char>)>,
    bundle: Seq<char>,
    vars: Seq<(Seq<char>, Seq<char>)>,
    disk: Disk,
)
    requires
        separate_destinations(entries, bundle, vars),
    ensures
        restore_files(entries, bundle, vars, disk, false) matches Ok(r) ==> forall|i: int|
            0 <= i < entries.len() ==> {
                let s = entry_source(bundle, #[trigger] entries[i], vars);
                let d = entry_destination(entries[i], vars);
                r.1.contains_key(s) && r.1.contains_key(d) && r.1[d] == r.1[s]
            },
    decreases entries.len(),
{
    if entries.len() > 0 {
        let src = entry_source(bundle, entries[0], vars);
        let dest = entry_destination(entries[0], vars);
        if disk.contains_key(src) {
            let unchanged = disk.contains_key(dest) && disk[dest] == disk[src];
            let disk1 = if unchanged {
                disk
            } else {
                disk.insert(dest, disk[src])
            };
            let rest = entries.drop_first();
            assert(dest != src);
            lemma_separate_rest(entries, bundle, vars);
            lemma_restore_places(rest, bundle, vars, disk1);
            assert forall|i: int| 0 <= i < rest.len() implies entry_destination(#[trigger] rest[i], vars) != dest by {
                assert(rest[i] == entries[i + 1]);
            }
            lemma_restore_keeps_others(rest, bundle, vars, disk1, dest);
            assert forall|i: int| 0 <= i < rest.len() implies entry_destination(#[trigger] rest[i], vars) != src by {
                assert(rest[i] == entries[i + 1]);
            }
            lemma_restore_keeps_others(rest, bundle, vars, disk1, src);
            match restore_files(entries, bundle, vars, disk, false) {
                Ok(r) => {
                    assert forall|i: int| 0 <= i < entries.len() implies {
                        let s = entry_source(bundle, #[trigger] entries[i], vars);
                        let d = entry_destination(entries[i], vars);
                        r.1.contains_key(s) && r.1.contains_key(d) && r.1[d] == r.1[s]
                    } by {
                        if i > 0 {
                            assert(entries[i] == rest[i - 1]);
                        }
                    }
                },
                Err(_) => {},
            }
        }
    }
}

/// Restoring onto a disk where every destination already holds its source's bytes
/// reports each entry unchanged and writes nothing.
proof fn lemma_restore_settled(
    entries: Seq<(Seq<char>, Seq<char>)>,
    bundle: Seq<char>,
    vars: Seq<(Seq<char>, Seq<char>)>,
    disk: Disk,
)
    requires
        entries.len() > 0,
        forall|i: int|
            0 <= i < entries.len() ==> {
                let s = entry_source(bundle, #[trigger] entries[i], vars);
                let d = entry_destination(entries[i], vars);
                disk.contains_key(s) && disk.contains_key(d) && disk[d] == disk[s]
            },
    ensures
        restore_files(entries, bundle, vars, disk, false) == Ok::<(Seq<Seq<char>>, Disk), (Seq<Seq<char>>, Seq<char>)>(
            (unchanged_lines(entries, vars), disk),
        ),
    decreases entries.len(),
{
    let rest = entries.drop_first();
    let e0 = entries[0];
    assert({
        let s = entry_source(bundle, e0, vars);
        let d = entry_destination(e0, vars);
        disk.contains_key(s) && disk.contains_key(d) && disk[d] == disk[s]
    });
    let line = "  "@ + entry_destination(e0, vars) + " unchanged"@;
    if rest.len() == 0 {
        assert(restore_files(rest, bundle, vars, disk, false) == Ok::<(Seq<Seq<char>>, Disk), (Seq<Seq<char>>, Seq<char>)>(
            (Seq::empty(), disk),
        ));
        assert(seq![line] + Seq::<Seq<char>>::empty() =~= unchanged_lines(entries, vars));
    } else {
        assert forall|i: int| 0 <= i < rest.len() implies {
            let s = entry_source(bundle, #[trigger] rest[i], vars);
            let d = entry_destination(rest[i], vars);
            disk.contains_key(s) && disk.contains_key(d) && disk[d] == disk[s]
        } by {
            assert(rest[i] == entries[i + 1]);
        }
        lemma_restore_settled(rest, bundle, vars, disk);
        assert(seq![line] + unchanged_lines(rest, vars) =~= unchanged_lines(entries, vars));
    }
}

/// Restoring the same file entries a second time, after a restore that succeeded and
/// with nothing else changing the disk in between, copies nothing and reports every
/// entry unchanged. It holds when no two entries restore to the same place and none
/// restores over a source.
pub proof fn restoring_files_twice_changes_nothing(
    entries: Seq<(Seq<char>, Seq<char>)>,
    bundle: Seq<char>,
    vars: Seq<(Seq<char>, Seq<char>)>,
    disk: Disk,
)
    requires
        separate_destinations(entries, bundle, vars),
        files_outcome(entries, bundle, vars, disk, false) is Ok,
    ensures
        (files_outcome(entries, bundle, vars, disk, false) matches Ok(first) ==> files_outcome(
            entries,
            bundle,
            vars,
            first.1,
            false,
        ) == Ok::<(Seq<Seq<char>>, Disk), (Seq<Seq<char>>, Seq<char>)>((unchanged_lines(entries, vars), first.1))),
{
    if entries.len() > 0 {
        lemma_restore_places(entries, bundle, vars, disk);
        match restore_files(entries, bundle, vars, disk, false) {
            Ok(first) => {
                lemma_restore_settled(entries, bundle, vars, first.1);
            },
            Err(_) => {},
        }
    }
}

} // verus!


