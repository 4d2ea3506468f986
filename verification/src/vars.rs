//! Named text values kept sorted by name, each name once: the shape of the manifest's
//! `environment.variables`.
use vstd::prelude::*;

use crate::manifest::vars_view;
use crate::order::{chars_less, lemma_lex_irreflexive, lemma_lex_total, lemma_lex_transitive, lex_lt};
use crate::text::{chars_of, same_chars};

verus! {

/// The map a list of `(name, value)` pairs describes, a later pair winning over an
/// earlier one with the same name.
pub open spec fn var_map(v: Seq<(Seq<char>, Seq<char>)>) -> Map<Seq<char>, Seq<char>>
    decreases v.len(),
{
    if v.len() == 0 {
        Map::empty()
    } else {
        var_map(v.drop_last()).insert(v.last().0, v.last().1)
    }
}

/// Names in strictly ascending order, so each name appears once.
pub open spec fn names_ascending(v: Seq<(Seq<char>, Seq<char>)>) -> bool {
    forall|i: int, j: int| 0 <= i < j < v.len() ==> lex_lt(#[trigger] v[i].0, #[trigger] v[j].0)
}

pub proof fn lemma_var_map_dom(v: Seq<(Seq<char>, Seq<char>)>, k: Seq<char>)
    ensures
        var_map(v).dom().contains(k) <==> exists|i: int| 0 <= i < v.len() && #[trigger] v[i].0 == k,
    decreases v.len(),
{
    if v.len() > 0 {
        lemma_var_map_dom(v.drop_last(), k);
        if var_map(v).dom().contains(k) && k != v.last().0 {
            let i = choose|i: int| 0 <= i < v.drop_last().len() && #[trigger] v.drop_last()[i].0 == k;
            assert(v[i].0 == k);
        }
        if exists|i: int| 0 <= i < v.len() && #[trigger] v[i].0 == k {
            let i = choose|i: int| 0 <= i < v.len() && #[trigger] v[i].0 == k;
            if i < v.len() - 1 {
                assert(v.drop_last()[i].0 == k);
            }
        }
    }
}

pub proof fn lemma_var_map_value(v: Seq<(Seq<char>, Seq<char>)>, i: int)
    requires
        names_ascending(v),
        0 <= i < v.len(),
    ensures
        var_map(v).dom().contains(v[i].0),
        var_map(v)[v[i].0] == v[i].1,
    decreases v.len(),
{
    if i < v.len() - 1 {
        let w = v.drop_last();
        assert(w[i] == v[i]);
        assert(names_ascending(w)) by {
            assert forall|a: int, b: int| 0 <= a < b < w.len() implies lex_lt(
                #[trigger] w[a].0,
                #[trigger] w[b].0,
            ) by {
                assert(w[a] == v[a] && w[b] == v[b]);
            }
        }
        lemma_var_map_value(w, i);
        assert(lex_lt(v[i].0, v[v.len() - 1].0));
        lemma_lex_irreflexive(v[i].0);
    }
}

proof fn lemma_same_map(a: Seq<(Seq<char>, Seq<char>)>, b: Seq<(Seq<char>, Seq<char>)>, m: Map<
    Seq<char>,
    Seq<char>,
>)
    requires
        names_ascending(b),
        forall|k: Seq<char>| m.dom().contains(k) <==> exists|i: int| 0 <= i < b.len() && #[trigger] b[i].0 == k,
        forall|i: int| 0 <= i < b.len() ==> m[#[trigger] b[i].0] == b[i].1,
    ensures
        var_map(b) == m,
{
    assert forall|k: Seq<char>| #[trigger] var_map(b).dom().contains(k) <==> m.dom().contains(k) by {
        lemma_var_map_dom(b, k);
    }
    assert forall|k: Seq<char>| var_map(b).dom().contains(k) implies #[trigger] var_map(b)[k] == m[k] by {
        lemma_var_map_dom(b, k);
        let i = choose|i: int| 0 <= i < b.len() && #[trigger] b[i].0 == k;
        lemma_var_map_value(b, i);
    }
    assert(var_map(b) =~= m);
}

/// Sets `name` to `value`, keeping the names sorted and unique.
pub fn set_variable(vars: &mut Vec<(String, String)>, name: String, value: String)
    requires
        names_ascending(vars_view(old(vars)@)),
    ensures
        names_ascending(vars_view(final(vars)@)),
        var_map(vars_view(final(vars)@)) == var_map(vars_view(old(vars)@)).insert(name@, value@),
{
    let ghost old_v = vars_view(vars@);
    let key = chars_of(name.as_str());
    let mut pos: usize = 0;
    while pos < vars.len() && chars_less(chars_of(vars[pos].0.as_str()).as_slice(), key.as_slice())
        invariant
            pos <= vars.len(),
            old_v == vars_view(vars@),
            key@ == name@,
            forall|k: int| 0 <= k < pos ==> lex_lt(#[trigger] old_v[k].0, name@),
        decreases vars.len() - pos,
    {
        pos = pos + 1;
    }
    let target = (name, value);
    let ghost entry = (target.0@, target.1@);
    if pos < vars.len() && same_chars(chars_of(vars[pos].0.as_str()).as_slice(), key.as_slice()) {
        vars[pos] = target;
        proof {
            let nv = vars_view(vars@);
            assert(nv =~= old_v.update(pos as int, entry));
            assert(old_v[pos as int].0 == entry.0);
            assert(names_ascending(nv)) by {
                assert forall|a: int, b: int| 0 <= a < b < nv.len() implies lex_lt(
                    #[trigger] nv[a].0,
                    #[trigger] nv[b].0,
                ) by {
                    assert(nv[a].0 == old_v[a].0 && nv[b].0 == old_v[b].0);
                }
            }
            let m = var_map(old_v).insert(entry.0, entry.1);
            assert forall|k: Seq<char>| m.dom().contains(k) <==> exists|i: int|
                0 <= i < nv.len() && #[trigger] nv[i].0 == k by {
                lemma_var_map_dom(old_v, k);
                if exists|i: int| 0 <= i < old_v.len() && #[trigger] old_v[i].0 == k {
                    let i = choose|i: int| 0 <= i < old_v.len() && #[trigger] old_v[i].0 == k;
                    assert(nv[i].0 == k);
                }
                if k == entry.0 {
                    assert(nv[pos as int].0 == k);
                }
                if exists|i: int| 0 <= i < nv.len() && #[trigger] nv[i].0 == k {
                    let i = choose|i: int| 0 <= i < nv.len() && #[trigger] nv[i].0 == k;
                    assert(old_v[i].0 == k);
                }
            }
            assert forall|i: int| 0 <= i < nv.len() implies m[#[trigger] nv[i].0] == nv[i].1 by {
                if i != pos {
                    lemma_var_map_value(old_v, i);
                    assert(nv[i] == old_v[i]);
                    lemma_lex_irreflexive(entry.0);
                    if i < pos {
                        assert(lex_lt(old_v[i].0, old_v[pos as int].0));
                    } else {
                        assert(lex_lt(old_v[pos as int].0, old_v[i].0));
                    }
                }
            }
            lemma_same_map(old_v, nv, m);
        }
    } else {
        vars.insert(pos, target);
        proof {
            let nv = vars_view(vars@);
            assert(nv =~= old_v.insert(pos as int, entry));
            if pos < old_v.len() {
                lemma_lex_total(old_v[pos as int].0, entry.0);
            }
            assert forall|k: int| pos <= k < old_v.len() implies lex_lt(entry.0, #[trigger] old_v[k].0) by {
                if k > pos {
                    lemma_lex_transitive(entry.0, old_v[pos as int].0, old_v[k].0);
                }
            }
            assert(names_ascending(nv)) by {
                assert forall|a: int, b: int| 0 <= a < b < nv.len() implies lex_lt(
                    #[trigger] nv[a].0,
                    #[trigger] nv[b].0,
                ) by {
                    if b < pos {
                        assert(nv[a] == old_v[a] && nv[b] == old_v[b]);
                    } else if b == pos {
                        assert(nv[a] == old_v[a]);
                    } else if a < pos {
                        assert(nv[a] == old_v[a] && nv[b] == old_v[b - 1]);
                        if pos < old_v.len() {
                            lemma_lex_transitive(old_v[a].0, entry.0, old_v[b - 1].0);
                        }
                    } else if a == pos {
                        assert(nv[b] == old_v[b - 1]);
                    } else {
                        assert(nv[a] == old_v[a - 1] && nv[b] == old_v[b - 1]);
                    }
                }
            }
            let m = var_map(old_v).insert(entry.0, entry.1);
            assert forall|k: Seq<char>| m.dom().contains(k) <==> exists|i: int|
                0 <= i < nv.len() && #[trigger] nv[i].0 == k by {
                lemma_var_map_dom(old_v, k);
                if exists|i: int| 0 <= i < old_v.len() && #[trigger] old_v[i].0 == k {
                    let i = choose|i: int| 0 <= i < old_v.len() && #[trigger] old_v[i].0 == k;
                    if i < pos {
                        assert(nv[i].0 == k);
                    } else {
                        assert(nv[i + 1].0 == k);
                    }
                }
                if k == entry.0 {
                    assert(nv[pos as int].0 == k);
                }
                if exists|i: int| 0 <= i < nv.len() && #[trigger] nv[i].0 == k {
                    let i = choose|i: int| 0 <= i < nv.len() && #[trigger] nv[i].0 == k;
                    if i < pos {
                        assert(old_v[i].0 == k);
                    } else if i > pos {
                        assert(old_v[i - 1].0 == k);
                    }
                }
            }
            assert forall|i: int| 0 <= i < nv.len() implies m[#[trigger] nv[i].0] == nv[i].1 by {
                if i < pos {
                    lemma_var_map_value(old_v, i);
                    lemma_lex_irreflexive(entry.0);
                    assert(nv[i] == old_v[i]);
                } else if i > pos {
                    lemma_var_map_value(old_v, i - 1);
                    lemma_lex_irreflexive(entry.0);
                    assert(nv[i] == old_v[i - 1]);
                }
            }
            lemma_same_map(old_v, nv, m);
        }
    }
}

} // verus!
