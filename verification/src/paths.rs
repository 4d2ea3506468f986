//! Path text: `%VARIABLE%` and `~` expansion, PATH splitting and path comparison.
use vstd::prelude::*;

use crate::text::{
    is_space, trim_end, trim_start, chars_of, lower_all, lower_chars, same_chars, same_ignoring_case, string_of, trim, trim_chars,
};

verus! {

/// A snapshot of environment variables as `(name, value)` pairs; a name is looked up
/// ignoring ASCII case, the first match winning, as Windows looks variables up.
pub open spec fn env_view(vars: &[(String, String)]) -> Seq<(Seq<char>, Seq<char>)> {
    Seq::new(vars@.len(), |k: int| (vars@[k].0@, vars@[k].1@))
}

pub open spec fn lookup_from(vars: Seq<(Seq<char>, Seq<char>)>, name: Seq<char>, k: int) -> Option<
    Seq<char>,
>
    decreases vars.len() - k,
{
    if k < 0 || k >= vars.len() {
        None
    } else if lower_all(vars[k].0) == lower_all(name) {
        Some(vars[k].1)
    } else {
        lookup_from(vars, name, k + 1)
    }
}

/// The value of the first variable named `name`, ignoring ASCII case.
pub open spec fn lookup(vars: Seq<(Seq<char>, Seq<char>)>, name: Seq<char>) -> Option<Seq<char>> {
    lookup_from(vars, name, 0)
}

/// Index of the first `c` in `cs` at or after `from`.
pub open spec fn find_from(cs: Seq<char>, c: char, from: int) -> Option<int>
    decreases cs.len() - from,
{
    if from < 0 || from >= cs.len() {
        None
    } else if cs[from] == c {
        Some(from)
    } else {
        find_from(cs, c, from + 1)
    }
}

/// A `~` that stands alone or starts the text followed by a separator.
pub open spec fn leading_tilde(cs: Seq<char>) -> bool {
    cs.len() > 0 && cs[0] == '~' && (cs.len() == 1 || cs[1] == '\\' || cs[1] == '/')
}

/// The expansion of `cs` from position `i` on: a `%NAME%` whose name is known is
/// replaced by its value, a leading `~` by `USERPROFILE`, and everything else is kept.
pub open spec fn expand_from(cs: Seq<char>, i: int, vars: Seq<(Seq<char>, Seq<char>)>) -> Seq<
    char,
>
    decreases cs.len() - i,
{
    if i < 0 || i >= cs.len() {
        Seq::empty()
    } else if cs[i] == '%' {
        match find_from(cs, '%', i + 1) {
            Some(j) => {
                if i + 1 < j < cs.len() && lookup(vars, cs.subrange(i + 1, j)) is Some {
                    lookup(vars, cs.subrange(i + 1, j)).unwrap() + expand_from(cs, j + 1, vars)
                } else {
                    seq!['%'] + expand_from(cs, i + 1, vars)
                }
            },
            None => seq!['%'] + expand_from(cs, i + 1, vars),
        }
    } else if i == 0 && leading_tilde(cs) {
        match lookup(vars, "USERPROFILE"@) {
            Some(home) => home + expand_from(cs, 1, vars),
            None => seq!['~'] + expand_from(cs, 1, vars),
        }
    } else {
        seq![cs[i]] + expand_from(cs, i + 1, vars)
    }
}

pub open spec fn expand_spec(cs: Seq<char>, vars: Seq<(Seq<char>, Seq<char>)>) -> Seq<char> {
    expand_from(cs, 0, vars)
}

proof fn lemma_find_bounds(cs: Seq<char>, c: char, j: int)
    ensures
        find_from(cs, c, j) matches Some(k) ==> j <= k < cs.len() && cs[k] == c,
    decreases cs.len() - j,
{
    if 0 <= j < cs.len() && cs[j] != c {
        lemma_find_bounds(cs, c, j + 1);
    }
}

proof fn lemma_find_skip(cs: Seq<char>, c: char, m: int, j: int)
    requires
        0 <= m <= j,
        m <= cs.len(),
    ensures
        find_from(cs, c, j) == match find_from(cs.skip(m), c, j - m) {
            Some(k) => Some(k + m),
            None => None,
        },
    decreases cs.len() - j,
{
    let d = cs.skip(m);
    if j < cs.len() {
        assert(cs[j] == d[j - m]);
        lemma_find_skip(cs, c, m, j + 1);
    }
}

/// From position `i` on, text expands as its suffix from `m` does from `i - m`, unless
/// that suffix would start right there with a `~` to expand.
proof fn lemma_expand_skip(cs: Seq<char>, m: int, i: int, vars: Seq<(Seq<char>, Seq<char>)>)
    requires
        0 < m <= i,
        m <= cs.len(),
        i == m ==> !leading_tilde(cs.skip(m)),
    ensures
        expand_from(cs, i, vars) == expand_from(cs.skip(m), i - m, vars),
    decreases cs.len() - i,
{
    let d = cs.skip(m);
    if i < cs.len() {
        assert(cs[i] == d[i - m]);
        if cs[i] == '%' {
            lemma_find_skip(cs, '%', m, i + 1);
            lemma_find_bounds(cs, '%', i + 1);
            match find_from(cs, '%', i + 1) {
                Some(k) => {
                    assert(cs.subrange(i + 1, k) =~= d.subrange(i - m + 1, k - m));
                    lemma_expand_skip(cs, m, k + 1, vars);
                    lemma_expand_skip(cs, m, i + 1, vars);
                },
                None => {
                    lemma_expand_skip(cs, m, i + 1, vars);
                },
            }
        } else {
            lemma_expand_skip(cs, m, i + 1, vars);
        }
    }
}

/// A `~` that starts the text and stands alone or before a `\` or `/` expands to the
/// user's profile folder when `USERPROFILE` is known, and the rest of the text expands
/// as it would on its own.
pub proof fn leading_tilde_is_the_profile(cs: Seq<char>, vars: Seq<(Seq<char>, Seq<char>)>, home: Seq<char>)
    requires
        cs.len() > 0,
        cs[0] == '~',
        cs.len() == 1 || cs[1] == '\\' || cs[1] == '/',
        lookup(vars, "USERPROFILE"@) == Some(home),
    ensures
        expand_spec(cs, vars) == home + expand_spec(cs.drop_first(), vars),
{
    let d = cs.drop_first();
    assert(cs.skip(1) =~= d);
    assert(!leading_tilde(d));
    lemma_expand_skip(cs, 1, 1, vars);
}

/// A `%NAME%` reference to a known variable expands to the variable's value, and the
/// text after it expands as it would on its own (unless that text starts with a `~`
/// to expand).
pub proof fn known_variable_is_replaced(
    name: Seq<char>,
    value: Seq<char>,
    rest: Seq<char>,
    vars: Seq<(Seq<char>, Seq<char>)>,
)
    requires
        name.len() > 0,
        !name.contains('%'),
        lookup(vars, name) == Some(value),
        !leading_tilde(rest),
    ensures
        expand_spec(seq!['%'] + name + seq!['%'] + rest, vars) == value + expand_spec(rest, vars),
{
    let cs = seq!['%'] + name + seq!['%'] + rest;
    let j: int = name.len() as int + 1;
    assert forall|k: int| 1 <= k < j implies cs[k] != '%' by {
        assert(cs[k] == name[k - 1]);
    }
    lemma_find_none_until(cs, '%', 1, j);
    assert(cs.subrange(1, j) =~= name);
    assert(cs.skip(j + 1) =~= rest);
    lemma_expand_skip(cs, j + 1, j + 1, vars);
}

/// A `%NAME%` whose name no variable has stays in the text as it was: the expansion
/// starts with the `%`, and everything after it expands on from there.
pub proof fn unknown_variable_is_kept(
    name: Seq<char>,
    rest: Seq<char>,
    vars: Seq<(Seq<char>, Seq<char>)>,
)
    requires
        !name.contains('%'),
        lookup(vars, name) is None,
    ensures
        expand_spec(seq!['%'] + name + seq!['%'] + rest, vars) == seq!['%'] + expand_from(
            seq!['%'] + name + seq!['%'] + rest,
            1,
            vars,
        ),
{
    let cs = seq!['%'] + name + seq!['%'] + rest;
    let j: int = name.len() as int + 1;
    assert forall|k: int| 1 <= k < j implies cs[k] != '%' by {
        assert(cs[k] == name[k - 1]);
    }
    lemma_find_none_until(cs, '%', 1, j);
    assert(cs.subrange(1, j) =~= name);
}

proof fn lemma_find_none_until(cs: Seq<char>, c: char, from: int, j: int)
    requires
        0 <= from <= j < cs.len(),
        cs[j] == c,
        forall|k: int| from <= k < j ==> cs[k] != c,
    ensures
        find_from(cs, c, from) == Some(j),
    decreases j - from,
{
    if from < j {
        lemma_find_none_until(cs, c, from + 1, j);
    }
}

fn find_char(cs: &[char], c: char, from: usize) -> (found: Option<usize>)
    ensures
        found is None <==> find_from(cs@, c, from as int) is None,
        found matches Some(j) ==> find_from(cs@, c, from as int) == Some(j as int),
        found matches Some(j) ==> from <= j < cs.len(),
{
    let mut k = from;
    while k < cs.len()
        invariant
            from <= k,
            find_from(cs@, c, from as int) == find_from(cs@, c, k as int),
        decreases cs.len() - k,
    {
        if cs[k] == c {
            return Some(k);
        }
        k = k + 1;
    }
    None
}

/// The value of the first variable in `vars` named `name`, ignoring ASCII case.
pub fn lookup_var(vars: &[(String, String)], name: &[char]) -> (value: Option<Vec<char>>)
    ensures
        match value {
            Some(v) => lookup(env_view(vars), name@) == Some(v@),
            None => lookup(env_view(vars), name@) is None,
        },
{
    let ghost vv = env_view(vars);
    let mut k: usize = 0;
    while k < vars.len()
        invariant
            k <= vars.len(),
            vv == env_view(vars),
            lookup(vv, name@) == lookup_from(vv, name@, k as int),
        decreases vars.len() - k,
    {
        let key = chars_of(vars[k].0.as_str());
        if same_ignoring_case(key.as_slice(), name) {
            return Some(chars_of(vars[k].1.as_str()));
        }
        k = k + 1;
    }
    None
}

fn push_all(out: &mut Vec<char>, cs: &[char])
    ensures
        final(out)@ == old(out)@ + cs@,
{
    let mut i: usize = 0;
    while i < cs.len()
        invariant
            i <= cs.len(),
            out@ == old(out)@ + cs@.take(i as int),
        decreases cs.len() - i,
    {
        out.push(cs[i]);
        i = i + 1;
    }
    assert(cs@.take(cs.len() as int) =~= cs@);
}

fn copy_range(cs: &[char], from: usize, to: usize) -> (out: Vec<char>)
    requires
        from <= to <= cs.len(),
    ensures
        out@ == cs@.subrange(from as int, to as int),
{
    let mut out: Vec<char> = Vec::new();
    let mut i = from;
    while i < to
        invariant
            from <= i <= to <= cs.len(),
            out@ == cs@.subrange(from as int, i as int),
        decreases to - i,
    {
        out.push(cs[i]);
        i = i + 1;
    }
    out
}

/// Expands `%NAME%` references whose name `vars` knows (ignoring ASCII case) and a
/// leading `~`; an unknown `%NAME%`, a lone `%` and every other character stay as written.
pub fn expand(input: &str, vars: &[(String, String)]) -> (out: String)
    ensures
        out@ == expand_spec(input@, env_view(vars)),
{
    let cs = chars_of(input);
    let n = cs.len();
    let ghost vv = env_view(vars);
    let mut out: Vec<char> = Vec::new();
    let mut i: usize = 0;
    while i < n
        invariant
            i <= n,
            n == cs@.len(),
            cs@ == input@,
            vv == env_view(vars),
            out@ + expand_from(cs@, i as int, vv) == expand_from(cs@, 0, vv),
        decreases n - i,
    {
        let ghost before = out@;
        let c = cs[i];
        if c == '%' {
            let mut replaced = false;
            match find_char(cs.as_slice(), '%', i + 1) {
                Some(j) => {
                    if i + 1 < j {
                        let name = copy_range(cs.as_slice(), i + 1, j);
                        match lookup_var(vars, name.as_slice()) {
                            Some(value) => {
                                push_all(&mut out, value.as_slice());
                                assert(find_from(cs@, '%', i + 1) == Some(j as int));
                                assert(expand_from(cs@, i as int, vv) == value@ + expand_from(
                                    cs@,
                                    j + 1,
                                    vv,
                                ));
                                assert(before + expand_from(cs@, i as int, vv) =~= out@
                                    + expand_from(cs@, j + 1, vv));
                                i = j + 1;
                                replaced = true;
                            },
                            None => {},
                        }
                    }
                },
                None => {},
            }
            if !replaced {
                out.push('%');
                assert(before + expand_from(cs@, i as int, vv) =~= out@ + expand_from(
                    cs@,
                    i + 1,
                    vv,
                ));
                i = i + 1;
            }
        } else if c == '~' && i == 0 && (n == 1 || cs[1] == '\\' || cs[1] == '/') {
            let profile = chars_of("USERPROFILE");
            match lookup_var(vars, profile.as_slice()) {
                Some(home) => {
                    push_all(&mut out, home.as_slice());
                },
                None => {
                    out.push('~');
                },
            }
            assert(before + expand_from(cs@, i as int, vv) =~= out@ + expand_from(cs@, 1, vv));
            i = 1;
        } else {
            out.push(c);
            assert(before + expand_from(cs@, i as int, vv) =~= out@ + expand_from(
                cs@,
                i + 1,
                vv,
            ));
            i = i + 1;
        }
    }
    assert(out@ =~= expand_from(cs@, 0, vv));
    string_of(out.as_slice())
}


/// The pieces of `cs` between `sep` characters, scanning from `i` inside a piece that
/// began at `start`, the way `str::split` cuts text.
pub open spec fn split_scan(cs: Seq<char>, sep: char, start: int, i: int) -> Seq<Seq<char>>
    decreases cs.len() - i,
{
    if i >= cs.len() {
        seq![cs.subrange(start, cs.len() as int)]
    } else if cs[i] == sep {
        seq![cs.subrange(start, i)] + split_scan(cs, sep, i + 1, i + 1)
    } else {
        split_scan(cs, sep, start, i + 1)
    }
}

pub open spec fn split_on(cs: Seq<char>, sep: char) -> Seq<Seq<char>> {
    split_scan(cs, sep, 0, 0)
}

/// The trimmed pieces, those that are blank left out.
pub open spec fn kept_entries(pieces: Seq<Seq<char>>) -> Seq<Seq<char>>
    decreases pieces.len(),
{
    if pieces.len() == 0 {
        Seq::empty()
    } else if trim(pieces[0]).len() == 0 {
        kept_entries(pieces.drop_first())
    } else {
        seq![trim(pieces[0])] + kept_entries(pieces.drop_first())
    }
}

/// The entries of a `;`-separated PATH value: trimmed, blanks dropped.
pub open spec fn path_entries(cs: Seq<char>) -> Seq<Seq<char>> {
    kept_entries(split_on(cs, ';'))
}

pub open spec fn strings_view(v: Seq<String>) -> Seq<Seq<char>> {
    Seq::new(v.len(), |k: int| v[k]@)
}

proof fn lemma_kept_cons(piece: Seq<char>, rest: Seq<Seq<char>>)
    ensures
        kept_entries(seq![piece] + rest) == (if trim(piece).len() == 0 {
            kept_entries(rest)
        } else {
            seq![trim(piece)] + kept_entries(rest)
        }),
{
    let all = seq![piece] + rest;
    assert(all[0] == piece);
    assert(all.drop_first() =~= rest);
}

proof fn lemma_split_upto(cs: Seq<char>, sep: char, start: int, i: int, p: int)
    requires
        0 <= start <= i <= p < cs.len(),
        cs[p] == sep,
    ensures
        split_scan(cs, sep, start, i) == split_scan(cs.take(p), sep, start, i) + split_scan(cs, sep, p + 1, p + 1),
    decreases p - i,
{
    let t = cs.take(p);
    if i == p {
        assert(t.subrange(start, t.len() as int) =~= cs.subrange(start, p));
    } else {
        assert(t[i] == cs[i]);
        if cs[i] == sep {
            assert(t.subrange(start, i) =~= cs.subrange(start, i));
            lemma_split_upto(cs, sep, i + 1, i + 1, p);
            assert(seq![cs.subrange(start, i)] + split_scan(t, sep, i + 1, i + 1) + split_scan(cs, sep, p + 1, p + 1)
                =~= seq![cs.subrange(start, i)] + (split_scan(t, sep, i + 1, i + 1) + split_scan(cs, sep, p + 1, p + 1)));
        } else {
            lemma_split_upto(cs, sep, start, i + 1, p);
        }
    }
}

proof fn lemma_split_shift(pre: Seq<char>, b: Seq<char>, sep: char, start: int, i: int)
    requires
        0 <= start <= i <= b.len(),
    ensures
        split_scan(pre + b, sep, pre.len() + start, pre.len() + i) == split_scan(b, sep, start, i),
    decreases b.len() - i,
{
    let cs = pre + b;
    if i >= b.len() {
        assert(cs.subrange(pre.len() + start, cs.len() as int) =~= b.subrange(start, b.len() as int));
    } else {
        assert(cs[pre.len() + i] == b[i]);
        if b[i] == sep {
            assert(cs.subrange(pre.len() + start, pre.len() + i) =~= b.subrange(start, i));
            lemma_split_shift(pre, b, sep, i + 1, i + 1);
        } else {
            lemma_split_shift(pre, b, sep, start, i + 1);
        }
    }
}

/// Splitting text joined at a separator gives the pieces of each side.
pub proof fn lemma_split_join(a: Seq<char>, b: Seq<char>, sep: char)
    ensures
        split_on(a + seq![sep] + b, sep) == split_on(a, sep) + split_on(b, sep),
{
    let cs = a + seq![sep] + b;
    let p = a.len() as int;
    assert(cs[p] == sep);
    lemma_split_upto(cs, sep, 0, 0, p);
    assert(cs.take(p) =~= a);
    assert(cs =~= (a + seq![sep]) + b);
    lemma_split_shift(a + seq![sep], b, sep, 0, 0);
}

proof fn lemma_split_plain(x: Seq<char>, sep: char, start: int, i: int)
    requires
        0 <= start <= i <= x.len(),
        forall|m: int| 0 <= m < x.len() ==> x[m] != sep,
    ensures
        split_scan(x, sep, start, i) == seq![x.subrange(start, x.len() as int)],
    decreases x.len() - i,
{
    if i < x.len() {
        lemma_split_plain(x, sep, start, i + 1);
    }
}

/// Trimmed, non-blank entries without `;`.
pub open spec fn plain_entries(n: Seq<Seq<char>>) -> bool {
    forall|k: int|
        0 <= k < n.len() ==> trim(#[trigger] n[k]) == n[k] && n[k].len() > 0 && !n[k].contains(';')
}

pub proof fn lemma_kept_append(x: Seq<Seq<char>>, y: Seq<Seq<char>>)
    ensures
        kept_entries(x + y) == kept_entries(x) + kept_entries(y),
    decreases x.len(),
{
    if x.len() > 0 {
        assert((x + y).drop_first() =~= x.drop_first() + y);
        assert((x + y)[0] == x[0]);
        lemma_kept_append(x.drop_first(), y);
    } else {
        assert(x + y =~= y);
    }
}

proof fn lemma_path_entries_of_join(n: Seq<Seq<char>>)
    requires
        plain_entries(n),
        n.len() > 0,
    ensures
        split_on(crate::text::join(n, ";"@), ';') == n,
        path_entries(crate::text::join(n, ";"@)) == n,
    decreases n.len(),
{
    reveal_strlit(";");
    let last = n.last();
    assert(trim(n[n.len() - 1]) == n[n.len() - 1]);
    assert forall|m: int| 0 <= m < last.len() implies last[m] != ';' by {
        if last[m] == ';' {
            assert(last.contains(';'));
        }
    }
    lemma_split_plain(last, ';', 0, 0);
    assert(last.subrange(0, last.len() as int) =~= last);
    if n.len() == 1 {
        assert(split_on(n[0], ';') =~= n);
    } else {
        let init = n.drop_last();
        assert forall|k: int| 0 <= k < init.len() implies trim(#[trigger] init[k]) == init[k] && init[k].len() > 0
            && !init[k].contains(';') by {
            assert(init[k] == n[k]);
        }
        lemma_path_entries_of_join(init);
        assert(crate::text::join(n, ";"@) == crate::text::join(init, ";"@) + seq![';'] + last);
        lemma_split_join(crate::text::join(init, ";"@), last, ';');
        assert(split_on(crate::text::join(n, ";"@), ';') =~= n);
    }
    lemma_kept_plain(n);
}

proof fn lemma_kept_plain(n: Seq<Seq<char>>)
    requires
        plain_entries(n),
    ensures
        kept_entries(n) == n,
    decreases n.len(),
{
    if n.len() > 0 {
        assert(trim(n[0]) == n[0]);
        let rest = n.drop_first();
        assert forall|k: int| 0 <= k < rest.len() implies trim(#[trigger] rest[k]) == rest[k] && rest[k].len() > 0
            && !rest[k].contains(';') by {
            assert(rest[k] == n[k + 1]);
        }
        lemma_kept_plain(rest);
        assert(n =~= seq![n[0]] + rest);
    }
}

/// The entries of an empty PATH value: none.
pub proof fn lemma_path_entries_empty()
    ensures
        path_entries(Seq::<char>::empty()) == Seq::<Seq<char>>::empty(),
{
    let e = Seq::<char>::empty();
    assert(split_on(e, ';') == seq![e.subrange(0, 0)]);
    assert(e.subrange(0, 0) =~= e);
    assert(trim(e) == e);
    lemma_kept_cons(e, Seq::empty());
    assert(seq![e] + Seq::<Seq<char>>::empty() =~= seq![e]);
}

/// Appending plain entries after a separator adds exactly those entries.
pub proof fn lemma_path_entries_append(c: Seq<char>, n: Seq<Seq<char>>)
    requires
        plain_entries(n),
        n.len() > 0,
    ensures
        path_entries(c + seq![';'] + crate::text::join(n, ";"@)) == path_entries(c) + n,
{
    lemma_path_entries_of_join(n);
    lemma_split_join(c, crate::text::join(n, ";"@), ';');
    lemma_kept_append(split_on(c, ';'), split_on(crate::text::join(n, ";"@), ';'));
    lemma_kept_plain(n);
}

/// Splits a PATH value on `;`, trims each entry and drops the blank ones.
pub fn split_path_entries(value: &str) -> (entries: Vec<String>)
    ensures
        strings_view(entries@) == path_entries(value@),
{
    let cs = chars_of(value);
    let n = cs.len();
    let mut out: Vec<String> = Vec::new();
    let mut start: usize = 0;
    let mut i: usize = 0;
    while i < n
        invariant
            start <= i <= n,
            n == cs@.len(),
            cs@ == value@,
            strings_view(out@) + kept_entries(split_scan(cs@, ';', start as int, i as int))
                == path_entries(cs@),
        decreases n - i,
    {
        if cs[i] == ';' {
            let piece = copy_range(cs.as_slice(), start, i);
            let trimmed = trim_chars(piece.as_slice());
            let ghost before = strings_view(out@);
            proof {
                lemma_kept_cons(piece@, split_scan(cs@, ';', i + 1, i + 1));
            }
            if trimmed.len() > 0 {
                out.push(string_of(trimmed.as_slice()));
                assert(strings_view(out@) =~= before + seq![trimmed@]);
            }
            start = i + 1;
        }
        i = i + 1;
    }
    let piece = copy_range(cs.as_slice(), start, n);
    let trimmed = trim_chars(piece.as_slice());
    let ghost before = strings_view(out@);
    proof {
        assert(split_scan(cs@, ';', start as int, n as int) =~= seq![piece@] + Seq::<
            Seq<char>,
        >::empty());
        lemma_kept_cons(piece@, Seq::<Seq<char>>::empty());
        assert(kept_entries(Seq::<Seq<char>>::empty()) =~= Seq::<Seq<char>>::empty());
    }
    if trimmed.len() > 0 {
        out.push(string_of(trimmed.as_slice()));
        assert(strings_view(out@) =~= before + seq![trimmed@]);
    } else {
        assert(before + Seq::<Seq<char>>::empty() =~= before);
    }
    out
}

/// The replacement of every `/` by `\`.
pub open spec fn backslashed(cs: Seq<char>) -> Seq<char> {
    cs.map_values(|c: char| if c == '/' { '\\' } else { c })
}

/// `cs` without trailing `\` characters.
pub open spec fn trim_backslashes(cs: Seq<char>) -> Seq<char>
    decreases cs.len(),
{
    if cs.len() > 0 && cs.last() == '\\' {
        trim_backslashes(cs.drop_last())
    } else {
        cs
    }
}

/// The form two paths are compared in: expanded, `/` read as `\`, trailing
/// separators dropped, ASCII case folded.
pub open spec fn normalized(cs: Seq<char>, vars: Seq<(Seq<char>, Seq<char>)>) -> Seq<char> {
    lower_all(trim_backslashes(backslashed(expand_spec(cs, vars))))
}

/// Whether two paths name the same place once normalized.
pub open spec fn same_path_spec(
    left: Seq<char>,
    right: Seq<char>,
    vars: Seq<(Seq<char>, Seq<char>)>,
) -> bool {
    normalized(left, vars) == normalized(right, vars)
}

fn normalize(path: &str, vars: &[(String, String)]) -> (out: Vec<char>)
    ensures
        out@ == normalized(path@, env_view(vars)),
{
    let expanded = expand(path, vars);
    let cs = chars_of(expanded.as_str());
    let mut swapped: Vec<char> = Vec::new();
    let mut i: usize = 0;
    while i < cs.len()
        invariant
            i <= cs.len(),
            swapped@ == backslashed(cs@.take(i as int)),
        decreases cs.len() - i,
    {
        let c = if cs[i] == '/' {
            '\\'
        } else {
            cs[i]
        };
        proof {
            assert(backslashed(cs@.take(i + 1)) =~= backslashed(cs@.take(i as int)).push(c));
        }
        swapped.push(c);
        i = i + 1;
    }
    assert(cs@.take(cs.len() as int) =~= cs@);
    assert(swapped@.take(swapped.len() as int) =~= swapped@);
    let mut end = swapped.len();
    while end > 0 && swapped[end - 1] == '\\'
        invariant
            end <= swapped.len(),
            trim_backslashes(swapped@) == trim_backslashes(swapped@.take(end as int)),
        decreases end,
    {
        assert(swapped@.take(end as int).drop_last() =~= swapped@.take(end - 1));
        end = end - 1;
    }
    assert(swapped@.take(swapped.len() as int) =~= swapped@);
    let kept = copy_range(swapped.as_slice(), 0, end);
    assert(kept@ =~= swapped@.take(end as int));
    lower_chars(kept.as_slice())
}

/// Whether two paths name the same place: `%VARIABLES%` expanded, `/` and `\` alike,
/// trailing separators and ASCII case ignored.
pub fn same_path(left: &str, right: &str, vars: &[(String, String)]) -> (same: bool)
    ensures
        same == same_path_spec(left@, right@, env_view(vars)),
{
    let a = normalize(left, vars);
    let b = normalize(right, vars);
    same_chars(a.as_slice(), b.as_slice())
}

/// Path equivalence is reflexive, symmetric and transitive, so PATH merging can treat
/// "already present" as membership.
pub proof fn same_path_is_an_equivalence(
    a: Seq<char>,
    b: Seq<char>,
    c: Seq<char>,
    vars: Seq<(Seq<char>, Seq<char>)>,
)
    ensures
        same_path_spec(a, a, vars),
        same_path_spec(a, b, vars) == same_path_spec(b, a, vars),
        same_path_spec(a, b, vars) && same_path_spec(b, c, vars) ==> same_path_spec(a, c, vars),
{
}

/// Every entry `split_path_entries` gives is non-blank and carries no surrounding space.
pub proof fn path_entries_are_trimmed_and_non_blank(cs: Seq<char>)
    ensures
        forall|k: int|
            0 <= k < path_entries(cs).len() ==> #[trigger] path_entries(cs)[k].len() > 0
                && path_entries(cs)[k] == trim(path_entries(cs)[k]),
{
    lemma_kept_entries_trimmed(split_on(cs, ';'));
}

proof fn lemma_trim_start_front(s: Seq<char>)
    ensures
        trim_start(s).len() > 0 ==> !is_space(trim_start(s)[0]),
    decreases s.len(),
{
    if s.len() > 0 && is_space(s[0]) {
        lemma_trim_start_front(s.drop_first());
    }
}

proof fn lemma_trim_end_shape(s: Seq<char>)
    ensures
        trim_end(s).len() <= s.len(),
        trim_end(s) == s.subrange(0, trim_end(s).len() as int),
        trim_end(s).len() > 0 ==> !is_space(trim_end(s).last()),
    decreases s.len(),
{
    if s.len() > 0 && is_space(s.last()) {
        lemma_trim_end_shape(s.drop_last());
        assert(s.drop_last().subrange(0, trim_end(s).len() as int) =~= s.subrange(
            0,
            trim_end(s).len() as int,
        ));
    } else {
        assert(s.subrange(0, s.len() as int) =~= s);
    }
}

proof fn lemma_trim_idempotent(s: Seq<char>)
    ensures
        trim(trim(s)) == trim(s),
{
    let t = trim_start(s);
    let x = trim_end(t);
    lemma_trim_start_front(s);
    lemma_trim_end_shape(t);
    if x.len() > 0 {
        assert(x[0] == t[0]);
    }
    assert(trim_start(x) == x);
    lemma_trim_end_shape(x);
    assert(trim_end(x) == x);
}

proof fn lemma_kept_entries_trimmed(pieces: Seq<Seq<char>>)
    ensures
        forall|k: int|
            0 <= k < kept_entries(pieces).len() ==> #[trigger] kept_entries(pieces)[k].len() > 0
                && kept_entries(pieces)[k] == trim(kept_entries(pieces)[k]),
    decreases pieces.len(),
{
    if pieces.len() > 0 {
        lemma_kept_entries_trimmed(pieces.drop_first());
        lemma_trim_idempotent(pieces[0]);
        let rest = kept_entries(pieces.drop_first());
        if trim(pieces[0]).len() > 0 {
            let all = seq![trim(pieces[0])] + rest;
            assert forall|k: int| 0 <= k < all.len() implies #[trigger] all[k].len() > 0 && all[k]
                == trim(all[k]) by {
                if k > 0 {
                    assert(all[k] == rest[k - 1]);
                }
            }
        }
    }
}

// ---------------------------------------------------------------------------
// Bundle locations

/// What a path names on disk.
#[derive(Clone, Copy, Debug, PartialEq, Eq, Structural)]
pub enum PathKind {
    File,
    Directory,
    Missing,
}

pub open spec fn is_slash(c: char) -> bool {
    c == '\\' || c == '/'
}

/// The length of a drive prefix such as `C:`.
pub open spec fn drive_prefix(cs: Seq<char>) -> int {
    if cs.len() >= 2 && crate::files::is_drive_letter(cs[0]) && cs[1] == ':' {
        2
    } else {
        0
    }
}

/// Where `cs[..e]` ends once separators before `e`, down to `lo`, are dropped.
pub open spec fn trim_end_from(cs: Seq<char>, lo: int, e: int) -> int
    decreases e,
{
    if e > lo && e > 0 && is_slash(cs[e - 1]) {
        trim_end_from(cs, lo, e - 1)
    } else {
        e
    }
}

/// Where the component that ends at `e` starts, not below `lo`.
pub open spec fn component_start(cs: Seq<char>, lo: int, e: int) -> int
    decreases e,
{
    if e > lo && e > 0 && !is_slash(cs[e - 1]) {
        component_start(cs, lo, e - 1)
    } else {
        e
    }
}

/// The folder holding the last component of a Windows path: the path up to that
/// component without the separators before it, except that a root (`C:\`, `\`) is
/// kept whole; none when the path has no component.
pub open spec fn parent_spec(cs: Seq<char>) -> Option<Seq<char>> {
    let p = drive_prefix(cs);
    let e = trim_end_from(cs, p, cs.len() as int);
    let s = component_start(cs, p, e);
    if s == e {
        None
    } else {
        let r = trim_end_from(cs, p, s);
        Some(
            if r == p {
                cs.take(s)
            } else {
                cs.take(r)
            },
        )
    }
}

/// The folder a manifest file's bundle lives in: its parent, or `.` when it has none.
pub open spec fn bundle_root_spec(file: Seq<char>) -> Seq<char> {
    match parent_spec(file) {
        Some(parent) => if parent.len() > 0 {
            parent
        } else {
            "."@
        },
        None => "."@,
    }
}

proof fn lemma_trim_end_from(cs: Seq<char>, lo: int, e: int)
    requires
        0 <= lo <= e <= cs.len(),
    ensures
        lo <= trim_end_from(cs, lo, e) <= e,
    decreases e,
{
    if e > lo && e > 0 && is_slash(cs[e - 1]) {
        lemma_trim_end_from(cs, lo, e - 1);
    }
}

proof fn lemma_component_start(cs: Seq<char>, lo: int, e: int)
    requires
        0 <= lo <= e <= cs.len(),
    ensures
        lo <= component_start(cs, lo, e) <= e,
    decreases e,
{
    if e > lo && e > 0 && !is_slash(cs[e - 1]) {
        lemma_component_start(cs, lo, e - 1);
    }
}

fn trim_end_at(cs: &[char], lo: usize, e: usize) -> (r: usize)
    requires
        lo <= e <= cs@.len(),
    ensures
        r == trim_end_from(cs@, lo as int, e as int),
{
    let mut r = e;
    while r > lo && (cs[r - 1] == '\\' || cs[r - 1] == '/')
        invariant
            lo <= r <= e <= cs@.len(),
            trim_end_from(cs@, lo as int, r as int) == trim_end_from(cs@, lo as int, e as int),
        decreases r,
    {
        r = r - 1;
    }
    r
}

fn start_of_component(cs: &[char], lo: usize, e: usize) -> (s: usize)
    requires
        lo <= e <= cs@.len(),
    ensures
        s == component_start(cs@, lo as int, e as int),
{
    let mut s = e;
    while s > lo && !(cs[s - 1] == '\\' || cs[s - 1] == '/')
        invariant
            lo <= s <= e <= cs@.len(),
            component_start(cs@, lo as int, s as int) == component_start(cs@, lo as int, e as int),
        decreases s,
    {
        s = s - 1;
    }
    s
}

fn prefix_of(cs: &[char], n: usize) -> (out: Vec<char>)
    requires
        n <= cs@.len(),
    ensures
        out@ == cs@.take(n as int),
{
    let mut out: Vec<char> = Vec::new();
    let mut i: usize = 0;
    while i < n
        invariant
            i <= n <= cs@.len(),
            out@ == cs@.take(i as int),
        decreases n - i,
    {
        out.push(cs[i]);
        assert(out@ =~= cs@.take(i + 1));
        i = i + 1;
    }
    out
}

/// The folder a manifest file's bundle lives in.
pub fn bundle_root(file: &str) -> (root: String)
    ensures
        root@ == bundle_root_spec(file@),
{
    let cs = chars_of(file);
    let p: usize = if cs.len() >= 2 && (('a' <= cs[0] && cs[0] <= 'z') || ('A' <= cs[0] && cs[0] <= 'Z')) && cs[1]
        == ':' {
        2
    } else {
        0
    };
    let e = trim_end_at(cs.as_slice(), p, cs.len());
    proof {
        lemma_trim_end_from(cs@, p as int, cs@.len() as int);
    }
    let s = start_of_component(cs.as_slice(), p, e);
    proof {
        lemma_component_start(cs@, p as int, e as int);
    }
    if s == e {
        return String::from_str(".");
    }
    let r = trim_end_at(cs.as_slice(), p, s);
    proof {
        lemma_trim_end_from(cs@, p as int, s as int);
    }
    let parent = if r == p {
        prefix_of(cs.as_slice(), s)
    } else {
        prefix_of(cs.as_slice(), r)
    };
    if parent.len() == 0 {
        String::from_str(".")
    } else {
        string_of(parent.as_slice())
    }
}

/// The manifest a bundle folder holds.
pub fn manifest_in(dir: &str) -> (path: String)
    ensures
        path@ == crate::files::join_spec(dir@, "works-after-reinstall.yaml"@),
{
    let rel = chars_of("works-after-reinstall.yaml");
    let base = chars_of(dir);
    proof {
        reveal_strlit("works-after-reinstall.yaml");
        assert(!crate::files::is_absolute_spec(rel@));
    }
    if base.len() == 0 {
        return String::from_str("works-after-reinstall.yaml");
    }
    let mut out = base.clone();
    if !(base[base.len() - 1] == '\\' || base[base.len() - 1] == '/') {
        out.push('\\');
    }
    crate::text::push_chars(&mut out, rel.as_slice());
    proof {
        reveal_strlit("\\");
        assert(out@ =~= crate::files::join_spec(dir@, "works-after-reinstall.yaml"@));
    }
    string_of(out.as_slice())
}

/// The manifest and bundle folder `setup` uses for `arg`: a manifest file itself and
/// the folder holding it, or a bundle folder's manifest and the folder; an error where
/// the folder holds no manifest or nothing is there.
pub fn resolve_bundle(arg: &str, kind: PathKind, manifest_present: bool) -> (result: Result<(String, String), String>)
    ensures
        kind == PathKind::File ==> (result matches Ok((manifest, root)) && manifest@ == arg@ && root@
            == bundle_root_spec(arg@)),
        kind == PathKind::Directory && manifest_present ==> (result matches Ok((manifest, root)) && manifest@
            == crate::files::join_spec(arg@, "works-after-reinstall.yaml"@) && root@ == arg@),
        kind == PathKind::Directory && !manifest_present ==> (result matches Err(message) && message@ == arg@
            + " does not contain works-after-reinstall.yaml - pass the bundle directory or a manifest file"@),
        kind == PathKind::Missing ==> (result matches Err(message) && message@ == "bundle not found: "@ + arg@),
{
    match kind {
        PathKind::File => Ok((String::from_str(arg), bundle_root(arg))),
        PathKind::Directory => {
            if manifest_present {
                Ok((manifest_in(arg), String::from_str(arg)))
            } else {
                let mut out: Vec<char> = Vec::new();
                crate::text::push_str(&mut out, arg);
                crate::text::push_str(
                    &mut out,
                    " does not contain works-after-reinstall.yaml - pass the bundle directory or a manifest file",
                );
                Err(string_of(out.as_slice()))
            }
        },
        PathKind::Missing => {
            let mut out: Vec<char> = Vec::new();
            crate::text::push_str(&mut out, "bundle not found: ");
            crate::text::push_str(&mut out, arg);
            Err(string_of(out.as_slice()))
        },
    }
}

} // verus!
