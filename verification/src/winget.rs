//! WinGet package lists: reading what `winget export` writes, and writing the file
//! `winget import` reads.
use vstd::prelude::*;

use crate::clock::{iso8601, now_iso8601};
use crate::manifest::{opt_view, App, AppDetail};
use crate::order::{chars_less, lemma_lex_irreflexive, lemma_lex_total, lemma_lex_transitive, lex_lt};
use crate::text::{chars_of, lower_all, push_str, same_chars, same_ignoring_case, string_of, trim, trim_chars};

verus! {

#[verifier::external_type_specification]
#[verifier::external_body]
pub struct ExJsonNumber(serde_json::Number);

#[verifier::external_type_specification]
#[verifier::external_body]
pub struct ExJsonValue(serde_json::Value);

/// A JSON document held as plain values; an object keeps its members in the order
/// the parser handed them out.
#[derive(Debug, PartialEq, Eq)]
pub enum JsonValue {
    Null,
    Bool(bool),
    Number(serde_json::Number),
    Text(String),
    Array(Vec<JsonValue>),
    Object(Vec<(String, JsonValue)>),
}

/// The document serde_json reads from `text`, or `None` where it refuses the text.
pub uninterp spec fn json_document(text: Seq<char>) -> Option<JsonValue>;

/// The compact text serde_json writes for `doc`.
pub uninterp spec fn json_text(doc: JsonValue) -> Seq<char>;

/// The message serde_json gives (its error's `Display`) where it refuses `text`.
pub uninterp spec fn json_error_message(text: Seq<char>) -> Seq<char>;

/// Parses `text` with `serde_json::from_str` into a `serde_json::Value` and hands the
/// value over member by member, or, where serde_json refuses the text, its error's
/// message. Claimed: the outcome is a function of the text alone.
#[verifier::external_body]
fn parse_json(text: &str) -> (parsed: Result<JsonValue, String>)
    ensures
        match parsed {
            Ok(doc) => json_document(text@) == Some(doc),
            Err(message) => json_document(text@) is None && message@ == json_error_message(text@),
        },
{
    match serde_json::from_str::<serde_json::Value>(text) {
        Ok(value) => Ok(json_value_of(value)),
        Err(error) => Err(error.to_string()),
    }
}

/// Moves a `serde_json::Value` into a `JsonValue`, variant for variant. Nothing is
/// claimed of it beyond what `parse_json` claims of its result.
#[verifier::external_body]
fn json_value_of(value: serde_json::Value) -> JsonValue {
    match value {
        serde_json::Value::Null => JsonValue::Null,
        serde_json::Value::Bool(flag) => JsonValue::Bool(flag),
        serde_json::Value::Number(number) => JsonValue::Number(number),
        serde_json::Value::String(text) => JsonValue::Text(text),
        serde_json::Value::Array(items) => JsonValue::Array(items.into_iter().map(json_value_of).collect()),
        serde_json::Value::Object(members) => JsonValue::Object(
            members.into_iter().map(|(key, item)| (key, json_value_of(item))).collect(),
        ),
    }
}

/// Moves a `JsonValue` into a `serde_json::Value`, variant for variant. Nothing is
/// claimed of it beyond what `write_json` claims of its result.
#[verifier::external_body]
fn value_of_json(doc: JsonValue) -> serde_json::Value {
    match doc {
        JsonValue::Null => serde_json::Value::Null,
        JsonValue::Bool(flag) => serde_json::Value::Bool(flag),
        JsonValue::Number(number) => serde_json::Value::Number(number),
        JsonValue::Text(text) => serde_json::Value::String(text),
        JsonValue::Array(items) => serde_json::Value::Array(items.into_iter().map(value_of_json).collect()),
        JsonValue::Object(members) => serde_json::Value::Object(
            members.into_iter().map(|(key, item)| (key, value_of_json(item))).collect(),
        ),
    }
}

/// Writes `doc` as compact JSON text with serde_json's `Display` for `Value`.
/// Claimed: the text is a function of the document alone.
#[verifier::external_body]
fn write_json(doc: JsonValue) -> (text: String)
    ensures
        text@ == json_text(doc),
{
    value_of_json(doc).to_string()
}

// ---------------------------------------------------------------------------
// Reading a document

/// The value of the first member named `key`.
pub open spec fn member(members: Seq<(String, JsonValue)>, key: Seq<char>) -> Option<JsonValue>
    decreases members.len(),
{
    if members.len() == 0 {
        None
    } else if members[0].0@ == key {
        Some(members[0].1)
    } else {
        member(members.drop_first(), key)
    }
}

/// `value[key]` where `value` is an object, as `Value::get` reads it.
pub open spec fn field(value: Option<JsonValue>, key: Seq<char>) -> Option<JsonValue> {
    match value {
        Some(JsonValue::Object(members)) => member(members@, key),
        _ => None,
    }
}

/// The items of an array, and nothing for any other value.
pub open spec fn items(value: Option<JsonValue>) -> Seq<JsonValue> {
    match value {
        Some(JsonValue::Array(list)) => list@,
        _ => Seq::empty(),
    }
}

/// The text of a string value.
pub open spec fn text_of(value: Option<JsonValue>) -> Option<Seq<char>> {
    match value {
        Some(JsonValue::Text(s)) => Some(s@),
        _ => None,
    }
}

/// The value an optional reference points at.
pub open spec fn held(value: Option<&JsonValue>) -> Option<JsonValue> {
    match value {
        Some(v) => Some(*v),
        None => None,
    }
}

fn member_of<'a>(members: &'a Vec<(String, JsonValue)>, key: &str) -> (found: Option<&'a JsonValue>)
    ensures
        match found {
            Some(v) => member(members@, key@) == Some(*v),
            None => member(members@, key@) is None,
        },
{
    let wanted = chars_of(key);
    let mut i: usize = 0;
    assert(members@.skip(0) =~= members@);
    while i < members.len()
        invariant
            i <= members.len(),
            wanted@ == key@,
            member(members@, key@) == member(members@.skip(i as int), key@),
        decreases members.len() - i,
    {
        let ghost rest = members@.skip(i as int);
        assert(rest[0] == members@[i as int]);
        assert(rest.drop_first() =~= members@.skip(i + 1));
        if same_chars(chars_of(members[i].0.as_str()).as_slice(), wanted.as_slice()) {
            return Some(&members[i].1);
        }
        i = i + 1;
    }
    None
}

fn field_of<'a>(value: Option<&'a JsonValue>, key: &str) -> (found: Option<&'a JsonValue>)
    ensures
        match found {
            Some(v) => field(held(value), key@) == Some(*v),
            None => field(held(value), key@) is None,
        },
{
    match value {
        Some(JsonValue::Object(members)) => member_of(members, key),
        _ => None,
    }
}

fn items_of<'a>(value: Option<&'a JsonValue>) -> (list: Option<&'a Vec<JsonValue>>)
    ensures
        match list {
            Some(l) => items(held(value)) == l@,
            None => items(held(value)) == Seq::<JsonValue>::empty(),
        },
{
    match value {
        Some(JsonValue::Array(list)) => Some(list),
        _ => None,
    }
}

fn text_in<'a>(value: Option<&'a JsonValue>) -> (text: Option<&'a str>)
    ensures
        match text {
            Some(s) => text_of(held(value)) == Some(s@),
            None => text_of(held(value)) is None,
        },
{
    match value {
        Some(JsonValue::Text(s)) => Some(s.as_str()),
        _ => None,
    }
}


// ---------------------------------------------------------------------------
// The package list of an export

/// What the package list says of one app: whether it needs the detailed form, its
/// id, its source and its installer arguments.
pub type AppModel = (bool, Seq<char>, Option<Seq<char>>, Option<Seq<char>>);

pub open spec fn app_model(app: App) -> AppModel {
    match app {
        App::Id(id) => (false, id@, None, None),
        App::Detailed(detail) => (true, detail.id@, opt_view(detail.source), opt_view(detail.arguments)),
    }
}

pub open spec fn app_models(apps: Seq<App>) -> Seq<AppModel> {
    apps.map_values(|app: App| app_model(app))
}

/// Whether a source name is the default WinGet source, ignoring ASCII case.
pub open spec fn is_default_source(name: Seq<char>) -> bool {
    lower_all(name) == lower_all("winget"@)
}

/// The name a source of the export goes by; `winget` where it names none.
pub open spec fn source_name(source: JsonValue) -> Seq<char> {
    match text_of(field(field(Some(source), "SourceDetails"@), "Name"@)) {
        Some(name) => name,
        None => "winget"@,
    }
}

/// The app a package of the export stands for; none where it has no textual id.
pub open spec fn package_entry(package: JsonValue, source: Seq<char>) -> Option<AppModel> {
    match text_of(field(Some(package), "PackageIdentifier"@)) {
        None => None,
        Some(id) => {
            let arguments = text_of(field(Some(package), "InitialOverrideArguments"@));
            let from: Option<Seq<char>> = if is_default_source(source) {
                None
            } else {
                Some(source)
            };
            Some((from is Some || arguments is Some, id, from, arguments))
        },
    }
}

pub open spec fn package_entries(packages: Seq<JsonValue>, source: Seq<char>) -> Seq<AppModel>
    decreases packages.len(),
{
    if packages.len() == 0 {
        Seq::empty()
    } else {
        let before = package_entries(packages.drop_last(), source);
        match package_entry(packages.last(), source) {
            Some(entry) => before.push(entry),
            None => before,
        }
    }
}

pub open spec fn source_entries(sources: Seq<JsonValue>) -> Seq<AppModel>
    decreases sources.len(),
{
    if sources.len() == 0 {
        Seq::empty()
    } else {
        source_entries(sources.drop_last()) + package_entries(
            items(field(Some(sources.last()), "Packages"@)),
            source_name(sources.last()),
        )
    }
}

/// Every package of every source of an export, in document order.
pub open spec fn export_entries(doc: JsonValue) -> Seq<AppModel> {
    source_entries(items(field(Some(doc), "Sources"@)))
}

pub open spec fn has_id(apps: Seq<AppModel>, id: Seq<char>) -> bool {
    exists|i: int| 0 <= i < apps.len() && #[trigger] apps[i].1 == id
}

/// The first app with `id`.
pub open spec fn first_with_id(apps: Seq<AppModel>, id: Seq<char>) -> AppModel
    decreases apps.len(),
{
    if apps.len() <= 1 || apps[0].1 == id {
        apps[0]
    } else {
        first_with_id(apps.drop_first(), id)
    }
}

/// `apps` holds, in strictly ascending order of id, the first entry for each id that
/// occurs in `entries`, and nothing else.
pub open spec fn one_per_id(entries: Seq<AppModel>, apps: Seq<AppModel>) -> bool {
    &&& forall|i: int, j: int| 0 <= i < j < apps.len() ==> lex_lt(#[trigger] apps[i].1, #[trigger] apps[j].1)
    &&& forall|k: int|
        0 <= k < apps.len() ==> has_id(entries, #[trigger] apps[k].1) && apps[k] == first_with_id(
            entries,
            apps[k].1,
        )
    &&& forall|i: int| 0 <= i < entries.len() ==> has_id(apps, #[trigger] entries[i].1)
}

proof fn lemma_prepend(e: AppModel, s: Seq<AppModel>, id: Seq<char>)
    ensures
        has_id(seq![e] + s, id) <==> (e.1 == id || has_id(s, id)),
        (e.1 == id) ==> first_with_id(seq![e] + s, id) == e,
        (e.1 != id && has_id(s, id)) ==> first_with_id(seq![e] + s, id) == first_with_id(s, id),
{
    let t = seq![e] + s;
    assert(t[0] == e);
    assert(t.drop_first() =~= s);
    if has_id(t, id) && e.1 != id {
        let i = choose|i: int| 0 <= i < t.len() && #[trigger] t[i].1 == id;
        assert(s[i - 1].1 == id);
    }
    if has_id(s, id) {
        let i = choose|i: int| 0 <= i < s.len() && #[trigger] s[i].1 == id;
        assert(t[i + 1].1 == id);
    }
}

proof fn lemma_keep_earlier(s: Seq<AppModel>, out: Seq<AppModel>, e: AppModel, p: int)
    requires
        one_per_id(s, out),
        0 <= p < out.len(),
        out[p].1 == e.1,
    ensures
        one_per_id(seq![e] + s, out.update(p, e)),
{
    let t = seq![e] + s;
    let o = out.update(p, e);
    assert forall|i: int, j: int| 0 <= i < j < o.len() implies lex_lt(#[trigger] o[i].1, #[trigger] o[j].1) by {
        assert(o[i].1 == out[i].1 && o[j].1 == out[j].1);
    }
    assert forall|k: int| 0 <= k < o.len() implies has_id(t, #[trigger] o[k].1) && o[k] == first_with_id(
        t,
        o[k].1,
    ) by {
        lemma_prepend(e, s, o[k].1);
        if k != p {
            assert(o[k] == out[k]);
            if k < p {
                assert(lex_lt(out[k].1, out[p].1));
            } else {
                assert(lex_lt(out[p].1, out[k].1));
            }
            lemma_lex_irreflexive(e.1);
        }
    }
    assert forall|i: int| 0 <= i < t.len() implies has_id(o, #[trigger] t[i].1) by {
        if i == 0 {
            assert(o[p].1 == t[0].1);
        } else {
            assert(t[i] == s[i - 1]);
            let q = choose|q: int| 0 <= q < out.len() && #[trigger] out[q].1 == s[i - 1].1;
            assert(o[q].1 == out[q].1);
        }
    }
}

proof fn lemma_insert_new(s: Seq<AppModel>, out: Seq<AppModel>, e: AppModel, p: int)
    requires
        one_per_id(s, out),
        0 <= p <= out.len(),
        forall|k: int| 0 <= k < p ==> lex_lt(#[trigger] out[k].1, e.1),
        p < out.len() ==> lex_lt(e.1, out[p].1),
    ensures
        one_per_id(seq![e] + s, out.insert(p, e)),
{
    let t = seq![e] + s;
    let o = out.insert(p, e);
    assert forall|k: int| p <= k < out.len() implies lex_lt(e.1, #[trigger] out[k].1) by {
        if k > p {
            lemma_lex_transitive(e.1, out[p].1, out[k].1);
        }
    }
    assert forall|k: int| 0 <= k < out.len() implies #[trigger] out[k].1 != e.1 by {
        lemma_lex_irreflexive(e.1);
    }
    assert(!has_id(s, e.1)) by {
        if has_id(s, e.1) {
            let i = choose|i: int| 0 <= i < s.len() && #[trigger] s[i].1 == e.1;
            let q = choose|q: int| 0 <= q < out.len() && #[trigger] out[q].1 == s[i].1;
            assert(out[q].1 == e.1);
        }
    }
    assert forall|i: int, j: int| 0 <= i < j < o.len() implies lex_lt(#[trigger] o[i].1, #[trigger] o[j].1) by {
        if j < p {
            assert(o[i] == out[i] && o[j] == out[j]);
        } else if j == p {
            assert(o[i] == out[i]);
        } else if i < p {
            assert(o[i] == out[i] && o[j] == out[j - 1]);
            lemma_lex_transitive(out[i].1, e.1, out[j - 1].1);
        } else if i == p {
            assert(o[j] == out[j - 1]);
        } else {
            assert(o[i] == out[i - 1] && o[j] == out[j - 1]);
        }
    }
    assert forall|k: int| 0 <= k < o.len() implies has_id(t, #[trigger] o[k].1) && o[k] == first_with_id(
        t,
        o[k].1,
    ) by {
        lemma_prepend(e, s, o[k].1);
        if k < p {
            assert(o[k] == out[k]);
        } else if k > p {
            assert(o[k] == out[k - 1]);
        }
    }
    assert forall|i: int| 0 <= i < t.len() implies has_id(o, #[trigger] t[i].1) by {
        if i == 0 {
            assert(o[p].1 == t[0].1);
        } else {
            assert(t[i] == s[i - 1]);
            let q = choose|q: int| 0 <= q < out.len() && #[trigger] out[q].1 == s[i - 1].1;
            if q < p {
                assert(o[q].1 == out[q].1);
            } else {
                assert(o[q + 1].1 == out[q].1);
            }
        }
    }
}

/// Orders apps by id and keeps, of apps that share an id, the one that came first:
/// what a stable sort by id followed by `dedup_by` on the id leaves.
pub fn one_per_id_sorted(apps: Vec<App>) -> (out: Vec<App>)
    ensures
        one_per_id(app_models(apps@), app_models(out@)),
{
    let ghost all = app_models(apps@);
    let mut rest = apps;
    let mut out: Vec<App> = Vec::new();
    assert(all.skip(all.len() as int) =~= Seq::<AppModel>::empty());
    assert(app_models(rest@) =~= all.take(rest.len() as int));
    while rest.len() > 0
        invariant
            rest.len() <= all.len(),
            app_models(rest@) == all.take(rest.len() as int),
            one_per_id(all.skip(rest.len() as int), app_models(out@)),
        decreases rest.len(),
    {
        let ghost m = rest.len() as int;
        let ghost before = app_models(out@);
        let ghost old_rest = rest@;
        let app = match rest.pop() {
            Some(app) => app,
            None => {
                return out;
            },
        };
        let ghost e = app_model(app);
        proof {
            assert(app == old_rest[m - 1]);
            assert(app_models(old_rest)[m - 1] == e);
            assert(all.take(m)[m - 1] == all[m - 1]);
            assert(e == all[m - 1]);
            assert(app_models(rest@) =~= all.take(m - 1));
            assert(all.skip(m - 1) =~= seq![e] + all.skip(m));
        }
        let key = chars_of(app.id());
        let mut pos: usize = 0;
        while pos < out.len() && chars_less(chars_of(out[pos].id()).as_slice(), key.as_slice())
            invariant
                pos <= out.len(),
                before == app_models(out@),
                key@ == e.1,
                forall|k: int| 0 <= k < pos ==> lex_lt(#[trigger] before[k].1, e.1),
            decreases out.len() - pos,
        {
            pos = pos + 1;
        }
        if pos < out.len() && same_chars(chars_of(out[pos].id()).as_slice(), key.as_slice()) {
            out.set(pos, app);
            proof {
                lemma_keep_earlier(all.skip(m), before, e, pos as int);
                assert(app_models(out@) =~= before.update(pos as int, e));
            }
        } else {
            proof {
                if pos < out.len() {
                    lemma_lex_total(before[pos as int].1, e.1);
                }
            }
            out.insert(pos, app);
            proof {
                lemma_insert_new(all.skip(m), before, e, pos as int);
                assert(app_models(out@) =~= before.insert(pos as int, e));
            }
        }
    }
    out
}


fn text_view(text: Option<&str>) -> (owned: Option<String>)
    ensures
        match text {
            Some(t) => owned matches Some(o) && o@ == t@,
            None => owned is None,
        },
{
    match text {
        Some(t) => Some(String::from_str(t)),
        None => None,
    }
}

fn package_app(id: &str, source: Option<&str>, arguments: Option<&str>) -> (app: App)
    ensures
        app_model(app) == (
            source is Some || arguments is Some,
            id@,
            match source {
                Some(s) => Some(s@),
                None => None::<Seq<char>>,
            },
            match arguments {
                Some(a) => Some(a@),
                None => None::<Seq<char>>,
            },
        ),
{
    if source.is_none() && arguments.is_none() {
        App::Id(String::from_str(id))
    } else {
        App::Detailed(AppDetail { id: String::from_str(id), source: text_view(source), arguments: text_view(arguments) })
    }
}

proof fn lemma_models_push(apps: Seq<App>, app: App)
    ensures
        app_models(apps.push(app)) == app_models(apps).push(app_model(app)),
{
    assert(app_models(apps.push(app)) =~= app_models(apps).push(app_model(app)));
}

/// Every package of every source of `doc`, in document order.
fn collect_entries(doc: &JsonValue) -> (apps: Vec<App>)
    ensures
        app_models(apps@) == export_entries(*doc),
{
    let mut apps: Vec<App> = Vec::new();
    let sources = match items_of(field_of(Some(doc), "Sources")) {
        Some(list) => list,
        None => {
            assert(app_models(apps@) =~= Seq::<AppModel>::empty());
            return apps;
        },
    };
    let mut i: usize = 0;
    assert(sources@.take(0) =~= Seq::<JsonValue>::empty());
    assert(app_models(apps@) =~= Seq::<AppModel>::empty());
    while i < sources.len()
        invariant
            i <= sources.len(),
            sources@ == items(field(Some(*doc), "Sources"@)),
            app_models(apps@) == source_entries(sources@.take(i as int)),
        decreases sources.len() - i,
    {
        let source = &sources[i];
        let name: &str = match text_in(field_of(field_of(Some(source), "SourceDetails"), "Name")) {
            Some(n) => n,
            None => "winget",
        };
        assert(name@ == source_name(*source));
        let from_default = same_ignoring_case(chars_of(name).as_slice(), chars_of("winget").as_slice());
        let from: Option<&str> = if from_default {
            None
        } else {
            Some(name)
        };
        let ghost start = app_models(apps@);
        match items_of(field_of(Some(source), "Packages")) {
            Some(packages) => {
                let mut j: usize = 0;
                assert(packages@.take(0) =~= Seq::<JsonValue>::empty());
                assert(start =~= start + package_entries(packages@.take(0), name@));
                while j < packages.len()
                    invariant
                        j <= packages.len(),
                        name@ == source_name(*source),
                        from_default == is_default_source(name@),
                        from == (if from_default { None::<&str> } else { Some(name) }),
                        app_models(apps@) == start + package_entries(packages@.take(j as int), name@),
                    decreases packages.len() - j,
                {
                    let package = &packages[j];
                    let ghost before = app_models(apps@);
                    assert(packages@.take(j + 1).drop_last() =~= packages@.take(j as int));
                    assert(packages@.take(j + 1).last() == *package);
                    match text_in(field_of(Some(package), "PackageIdentifier")) {
                        Some(id) => {
                            let arguments = text_in(field_of(Some(package), "InitialOverrideArguments"));
                            let app = package_app(id, from, arguments);
                            proof {
                                lemma_models_push(apps@, app);
                            }
                            apps.push(app);
                            assert(app_models(apps@) =~= start + package_entries(
                                packages@.take(j + 1),
                                name@,
                            ));
                        },
                        None => {},
                    }
                    j = j + 1;
                }
                assert(packages@.take(packages.len() as int) =~= packages@);
            },
            None => {
                assert(start =~= start + package_entries(Seq::<JsonValue>::empty(), name@));
            },
        }
        assert(sources@.take(i + 1).drop_last() =~= sources@.take(i as int));
        assert(sources@.take(i + 1).last() == *source);
        i = i + 1;
    }
    assert(sources@.take(sources.len() as int) =~= sources@);
    apps
}


/// The apps an export lists: each id once, in ascending order, and of several
/// packages with one id the first in the document.
pub fn apps_from_export(doc: &JsonValue) -> (apps: Vec<App>)
    ensures
        one_per_id(export_entries(*doc), app_models(apps@)),
{
    one_per_id_sorted(collect_entries(doc))
}

// ---------------------------------------------------------------------------
// Sources and errors

/// A WinGet source as `winget import` expects it described.
#[derive(Clone, Copy, Debug, PartialEq, Eq)]
pub struct Source {
    pub name: &'static str,
    pub argument: &'static str,
    pub identifier: &'static str,
    pub kind: &'static str,
}

/// `source` describes the Microsoft Store source where `store` holds, and the
/// default WinGet source where it does not.
pub open spec fn source_is(source: Source, store: bool) -> bool {
    if store {
        &&& source.name@ == "msstore"@
        &&& source.argument@ == "https://storeedgefd.dsx.mp.microsoft.com/v9.0"@
        &&& source.identifier@ == "StoreEdgeFD"@
        &&& source.kind@ == "Microsoft.Rest"@
    } else {
        &&& source.name@ == "winget"@
        &&& source.argument@ == "https://cdn.winget.microsoft.com/cache"@
        &&& source.identifier@ == "Microsoft.Winget.Source_8wekyb3d8bbwe"@
        &&& source.kind@ == "Microsoft.PreIndexed.Package"@
    }
}

/// Whether an app's source names the Microsoft Store, ignoring ASCII case.
pub open spec fn is_store_name(name: Option<Seq<char>>) -> bool {
    name matches Some(n) && lower_all(n) == lower_all("msstore"@)
}

pub fn default_source() -> (source: Source)
    ensures
        source_is(source, false),
{
    Source {
        name: "winget",
        argument: "https://cdn.winget.microsoft.com/cache",
        identifier: "Microsoft.Winget.Source_8wekyb3d8bbwe",
        kind: "Microsoft.PreIndexed.Package",
    }
}

pub fn store_source() -> (source: Source)
    ensures
        source_is(source, true),
{
    Source {
        name: "msstore",
        argument: "https://storeedgefd.dsx.mp.microsoft.com/v9.0",
        identifier: "StoreEdgeFD",
        kind: "Microsoft.Rest",
    }
}

/// The source an app installs from: the store where its source names it, the
/// default WinGet source for anything else.
pub fn source_for(name: Option<&str>) -> (source: Source)
    ensures
        source_is(
            source,
            is_store_name(
                match name {
                    Some(n) => Some(n@),
                    None => None::<Seq<char>>,
                },
            ),
        ),
{
    match name {
        Some(n) => {
            if same_ignoring_case(chars_of(n).as_slice(), chars_of("msstore").as_slice()) {
                store_source()
            } else {
                default_source()
            }
        },
        None => default_source(),
    }
}

/// Why WinGet could not do what was asked.
#[derive(Clone, Debug, PartialEq, Eq)]
pub enum WingetError {
    /// `winget --version` did not run successfully.
    NotAvailable,
    /// `winget export` left no package list; `hint` is its error output, introduced.
    NoPackageList { hint: String },
    /// The package list was no JSON; `detail` is the parser's reason.
    UnreadableExport { detail: String },
    /// `winget import` reported failure.
    ImportFailed,
}

impl WingetError {
    pub open spec fn message_spec(&self) -> Seq<char> {
        match self {
            WingetError::NotAvailable => "winget is not available - install 'App Installer' from the Microsoft Store, then run the command again"@,
            WingetError::NoPackageList { hint } => "winget export produced no package list"@ + hint@,
            WingetError::UnreadableExport { detail } => "parsing winget export output: "@ + detail@,
            WingetError::ImportFailed => "winget import failed - review the output above for packages it could not install"@,
        }
    }

    pub fn message(&self) -> (text: String)
        ensures
            text@ == self.message_spec(),
    {
        match self {
            WingetError::NotAvailable => String::from_str(
                "winget is not available - install 'App Installer' from the Microsoft Store, then run the command again",
            ),
            WingetError::NoPackageList { hint } => {
                let mut out: Vec<char> = Vec::new();
                push_str(&mut out, "winget export produced no package list");
                push_str(&mut out, hint.as_str());
                string_of(out.as_slice())
            },
            WingetError::UnreadableExport { detail } => {
                let mut out: Vec<char> = Vec::new();
                push_str(&mut out, "parsing winget export output: ");
                push_str(&mut out, detail.as_str());
                string_of(out.as_slice())
            },
            WingetError::ImportFailed => String::from_str(
                "winget import failed - review the output above for packages it could not install",
            ),
        }
    }
}

/// The apps a `winget export` package list names, as [`apps_from_export`] reads them;
/// an error where serde_json refuses the text.
pub fn parse_apps(json: &str) -> (result: Result<Vec<App>, WingetError>)
    ensures
        match json_document(json@) {
            None => (result matches Err(WingetError::UnreadableExport { detail }) && detail@
                == json_error_message(json@)),
            Some(doc) => result matches Ok(apps) && one_per_id(export_entries(doc), app_models(apps@)),
        },
{
    match parse_json(json) {
        Ok(doc) => Ok(apps_from_export(&doc)),
        Err(message) => Err(WingetError::UnreadableExport { detail: message }),
    }
}

/// The text `String::from_utf8_lossy` makes of `bytes`.
pub uninterp spec fn utf8_text(bytes: Seq<u8>) -> Seq<char>;

/// Decodes `bytes` with `String::from_utf8_lossy`. Claimed: the text is a function of
/// the bytes alone.
#[verifier::external_body]
fn utf8_lossy(bytes: &[u8]) -> (text: String)
    ensures
        text@ == utf8_text(bytes@),
{
    String::from_utf8_lossy(bytes).into_owned()
}

/// What a command's error output adds to a message: nothing when it is blank,
/// otherwise `": "` and the output without surrounding white space.
pub open spec fn hint_spec(stderr: Seq<u8>) -> Seq<char> {
    let text = trim(utf8_text(stderr));
    if text.len() == 0 {
        Seq::empty()
    } else {
        ": "@ + text
    }
}

pub fn stderr_hint(stderr: &[u8]) -> (hint: String)
    ensures
        hint@ == hint_spec(stderr@),
{
    let text = utf8_lossy(stderr);
    let trimmed = trim_chars(chars_of(text.as_str()).as_slice());
    if trimmed.len() == 0 {
        String::new()
    } else {
        let mut out: Vec<char> = Vec::new();
        push_str(&mut out, ": ");
        push_chars_of(&mut out, &trimmed);
        string_of(out.as_slice())
    }
}

fn push_chars_of(out: &mut Vec<char>, cs: &Vec<char>)
    ensures
        final(out)@ == old(out)@ + cs@,
{
    crate::text::push_chars(out, cs.as_slice());
}

/// The apps a `winget export` run produced: an error where its package list is blank
/// (carrying a hint from its error output), otherwise what [`parse_apps`] reads.
pub fn export_outcome(json: &str, stderr: &[u8]) -> (result: Result<Vec<App>, WingetError>)
    ensures
        trim(json@).len() == 0 ==> (result matches Err(WingetError::NoPackageList { hint }) && hint@ == hint_spec(stderr@)),
        trim(json@).len() > 0 ==> match json_document(json@) {
            None => (result matches Err(WingetError::UnreadableExport { detail }) && detail@
                == json_error_message(json@)),
            Some(doc) => result matches Ok(apps) && one_per_id(export_entries(doc), app_models(apps@)),
        },
{
    if trim_chars(chars_of(json).as_slice()).len() == 0 {
        Err(WingetError::NoPackageList { hint: stderr_hint(stderr) })
    } else {
        parse_apps(json)
    }
}


// ---------------------------------------------------------------------------
// The import file

/// The schema an import file declares.
pub fn packages_schema() -> (schema: &'static str)
    ensures
        schema@ == "https://aka.ms/winget-packages.schema.2.0.json"@,
{
    "https://aka.ms/winget-packages.schema.2.0.json"
}

/// Whether an app installs from the Microsoft Store.
pub open spec fn from_store(app: AppModel) -> bool {
    is_store_name(app.2)
}

/// The apps, in order, that install from the store (`store`) or from the default source.
pub open spec fn apps_of_source(apps: Seq<AppModel>, store: bool) -> Seq<AppModel>
    decreases apps.len(),
{
    if apps.len() == 0 {
        Seq::empty()
    } else {
        let before = apps_of_source(apps.drop_last(), store);
        if from_store(apps.last()) == store {
            before.push(apps.last())
        } else {
            before
        }
    }
}

/// The sources an import file lists: the default one, then the store, each only
/// where some app installs from it.
pub open spec fn import_sources(apps: Seq<AppModel>) -> Seq<bool> {
    let default_part: Seq<bool> = if apps_of_source(apps, false).len() > 0 {
        seq![false]
    } else {
        Seq::empty()
    };
    if apps_of_source(apps, true).len() > 0 {
        default_part.push(true)
    } else {
        default_part
    }
}

pub open spec fn is_text(value: JsonValue, text: Seq<char>) -> bool {
    value matches JsonValue::Text(t) && t@ == text
}

pub open spec fn is_member(members: Seq<(String, JsonValue)>, i: int, key: Seq<char>, text: Seq<char>) -> bool {
    members[i].0@ == key && is_text(members[i].1, text)
}

/// `value` is the import entry of one package: its id, then its installer arguments
/// where it has some.
pub open spec fn package_json(value: JsonValue, app: AppModel) -> bool {
    value matches JsonValue::Object(members) && match app.3 {
        Some(arguments) => members@.len() == 2 && is_member(members@, 0, "PackageIdentifier"@, app.1)
            && is_member(members@, 1, "InitialOverrideArguments"@, arguments),
        None => members@.len() == 1 && is_member(members@, 0, "PackageIdentifier"@, app.1),
    }
}

pub open spec fn packages_json(value: JsonValue, apps: Seq<AppModel>) -> bool {
    value matches JsonValue::Array(list) && list@.len() == apps.len() && forall|i: int|
        0 <= i < apps.len() ==> package_json(#[trigger] list@[i], apps[i])
}

/// `value` describes the store source (`store`) or the default one.
pub open spec fn details_json(value: JsonValue, store: bool) -> bool {
    value matches JsonValue::Object(members) && members@.len() == 4 && if store {
        &&& is_member(members@, 0, "Argument"@, "https://storeedgefd.dsx.mp.microsoft.com/v9.0"@)
        &&& is_member(members@, 1, "Identifier"@, "StoreEdgeFD"@)
        &&& is_member(members@, 2, "Name"@, "msstore"@)
        &&& is_member(members@, 3, "Type"@, "Microsoft.Rest"@)
    } else {
        &&& is_member(members@, 0, "Argument"@, "https://cdn.winget.microsoft.com/cache"@)
        &&& is_member(members@, 1, "Identifier"@, "Microsoft.Winget.Source_8wekyb3d8bbwe"@)
        &&& is_member(members@, 2, "Name"@, "winget"@)
        &&& is_member(members@, 3, "Type"@, "Microsoft.PreIndexed.Package"@)
    }
}

pub open spec fn source_json(value: JsonValue, apps: Seq<AppModel>, store: bool) -> bool {
    value matches JsonValue::Object(members) && members@.len() == 2 && members@[0].0@ == "Packages"@
        && packages_json(members@[0].1, apps_of_source(apps, store)) && members@[1].0@ == "SourceDetails"@
        && details_json(members@[1].1, store)
}

/// `doc` is the import file for `apps`, created at `created`.
pub open spec fn import_document_is(doc: JsonValue, apps: Seq<AppModel>, created: Seq<char>) -> bool {
    match doc {
        JsonValue::Object(members) => {
            &&& members@.len() == 3
            &&& is_member(members@, 0, "$schema"@, "https://aka.ms/winget-packages.schema.2.0.json"@)
            &&& is_member(members@, 1, "CreationDate"@, created)
            &&& members@[2].0@ == "Sources"@
            &&& match members@[2].1 {
                JsonValue::Array(list) => {
                    &&& list@.len() == import_sources(apps).len()
                    &&& forall|i: int|
                        0 <= i < list@.len() ==> source_json(#[trigger] list@[i], apps, import_sources(apps)[i])
                },
                _ => false,
            }
        },
        _ => false,
    }
}

fn text_member(key: &str, text: &str) -> (member: (String, JsonValue))
    ensures
        member.0@ == key@,
        is_text(member.1, text@),
{
    (String::from_str(key), JsonValue::Text(String::from_str(text)))
}

fn package_value(app: &App) -> (value: JsonValue)
    ensures
        package_json(value, app_model(*app)),
{
    let mut members: Vec<(String, JsonValue)> = Vec::new();
    members.push(text_member("PackageIdentifier", app.id()));
    match app.arguments() {
        Some(arguments) => {
            members.push(text_member("InitialOverrideArguments", arguments));
        },
        None => {},
    }
    JsonValue::Object(members)
}

fn details_value(store: bool) -> (value: JsonValue)
    ensures
        details_json(value, store),
{
    let source = if store {
        store_source()
    } else {
        default_source()
    };
    let mut members: Vec<(String, JsonValue)> = Vec::new();
    members.push(text_member("Argument", source.argument));
    members.push(text_member("Identifier", source.identifier));
    members.push(text_member("Name", source.name));
    members.push(text_member("Type", source.kind));
    JsonValue::Object(members)
}

proof fn lemma_apps_of_source_step(apps: Seq<App>, k: int, store: bool)
    requires
        0 <= k < apps.len(),
    ensures
        apps_of_source(app_models(apps).take(k + 1), store) == if from_store(app_model(apps[k])) == store {
            apps_of_source(app_models(apps).take(k), store).push(app_model(apps[k]))
        } else {
            apps_of_source(app_models(apps).take(k), store)
        },
{
    let m = app_models(apps);
    assert(m.take(k + 1).drop_last() =~= m.take(k));
    assert(m.take(k + 1).last() == app_model(apps[k]));
}

fn packages_value(apps: &[App], store: bool) -> (value: JsonValue)
    ensures
        packages_json(value, apps_of_source(app_models(apps@), store)),
{
    let mut list: Vec<JsonValue> = Vec::new();
    let mut k: usize = 0;
    let ghost models = app_models(apps@);
    assert(models.take(0) =~= Seq::<AppModel>::empty());
    while k < apps.len()
        invariant
            k <= apps.len(),
            models == app_models(apps@),
            list@.len() == apps_of_source(models.take(k as int), store).len(),
            forall|i: int|
                0 <= i < list@.len() ==> package_json(#[trigger] list@[i], apps_of_source(models.take(k as int), store)[i]),
        decreases apps.len() - k,
    {
        proof {
            lemma_apps_of_source_step(apps@, k as int, store);
        }
        let store_app = match apps[k].source() {
            Some(name) => same_ignoring_case(chars_of(name).as_slice(), chars_of("msstore").as_slice()),
            None => false,
        };
        assert(store_app == from_store(app_model(apps@[k as int])));
        if store_app == store {
            let value = package_value(&apps[k]);
            list.push(value);
        }
        k = k + 1;
    }
    assert(models.take(apps.len() as int) =~= models);
    JsonValue::Array(list)
}

/// The import file for `apps`, stamped with `created_at`.
pub fn import_document(apps: &[App], created_at: &str) -> (doc: JsonValue)
    ensures
        import_document_is(doc, app_models(apps@), created_at@),
{
    let ghost models = app_models(apps@);
    let mut sources: Vec<JsonValue> = Vec::new();
    let defaults = packages_value(apps, false);
    let ghost wanted = import_sources(models);
    if let JsonValue::Array(list) = &defaults {
        if list.len() > 0 {
            let mut members: Vec<(String, JsonValue)> = Vec::new();
            members.push((String::from_str("Packages"), defaults));
            members.push((String::from_str("SourceDetails"), details_value(false)));
            sources.push(JsonValue::Object(members));
        }
    }
    let store = packages_value(apps, true);
    if let JsonValue::Array(list) = &store {
        if list.len() > 0 {
            let mut members: Vec<(String, JsonValue)> = Vec::new();
            members.push((String::from_str("Packages"), store));
            members.push((String::from_str("SourceDetails"), details_value(true)));
            sources.push(JsonValue::Object(members));
        }
    }
    assert(sources@.len() == wanted.len());
    assert forall|i: int| 0 <= i < sources@.len() implies source_json(#[trigger] sources@[i], models, wanted[i]) by {
        if apps_of_source(models, false).len() > 0 {
            assert(wanted[0] == false);
            if i == 1 {
                assert(wanted[1] == true);
            }
        } else {
            assert(wanted[0] == true);
        }
    }
    let mut members: Vec<(String, JsonValue)> = Vec::new();
    members.push(text_member("$schema", packages_schema()));
    members.push(text_member("CreationDate", created_at));
    members.push((String::from_str("Sources"), JsonValue::Array(sources)));
    JsonValue::Object(members)
}

/// The text of the import file for `apps`, stamped with the current time.
pub fn import_json(apps: &[App]) -> (text: String)
    ensures
        exists|doc: JsonValue, secs: nat|
            import_document_is(doc, app_models(apps@), iso8601(secs)) && text@ == json_text(doc),
{
    let now = now_iso8601();
    let doc = import_document(apps, now.as_str());
    let ghost copy = doc;
    let text = write_json(doc);
    proof {
        let secs = choose|secs: nat| now@ == iso8601(secs);
        assert(import_document_is(copy, app_models(apps@), iso8601(secs)) && text@ == json_text(copy));
    }
    text
}


// ---------------------------------------------------------------------------
// Installing

/// The line a dry run shows for an app.
pub open spec fn install_line_spec(app: AppModel) -> Seq<char> {
    "  install "@ + app.1 + match app.3 {
        Some(arguments) => " with "@ + arguments,
        None => Seq::empty(),
    } + " (source: "@ + if from_store(app) {
        "msstore"@
    } else {
        "winget"@
    } + ")"@
}

pub fn install_line(app: &App) -> (line: String)
    ensures
        line@ == install_line_spec(app_model(*app)),
{
    let mut out: Vec<char> = Vec::new();
    push_str(&mut out, "  install ");
    push_str(&mut out, app.id());
    match app.arguments() {
        Some(arguments) => {
            push_str(&mut out, " with ");
            push_str(&mut out, arguments);
        },
        None => {},
    }
    push_str(&mut out, " (source: ");
    let source = source_for(app.source());
    push_str(&mut out, source.name);
    push_str(&mut out, ")");
    proof {
        if from_store(app_model(*app)) {
            assert(source.name@ == "msstore"@);
        } else {
            assert(source.name@ == "winget"@);
        }
    }
    string_of(out.as_slice())
}

/// What installing a list of apps comes to.
#[derive(Debug, PartialEq, Eq)]
pub enum AppsPlan {
    /// The list is empty: report that and stop.
    Nothing,
    /// A dry run: show these lines, one per app, and change nothing.
    Preview { lines: Vec<String> },
    /// Hand this many packages to `winget import`.
    Install { count: usize },
}

pub fn apps_plan(apps: &[App], dry_run: bool) -> (plan: AppsPlan)
    ensures
        apps@.len() == 0 ==> plan is Nothing,
        apps@.len() > 0 && dry_run ==> (plan matches AppsPlan::Preview { lines } && lines@.len() == apps@.len()
            && forall|i: int| 0 <= i < apps@.len() ==> #[trigger] lines@[i]@ == install_line_spec(app_model(apps@[i]))),
        apps@.len() > 0 && !dry_run ==> plan == (AppsPlan::Install { count: apps@.len() as usize }),
{
    if apps.len() == 0 {
        return AppsPlan::Nothing;
    }
    if !dry_run {
        return AppsPlan::Install { count: apps.len() };
    }
    let mut lines: Vec<String> = Vec::new();
    let mut k: usize = 0;
    while k < apps.len()
        invariant
            k <= apps.len(),
            lines@.len() == k,
            forall|i: int| 0 <= i < k ==> #[trigger] lines@[i]@ == install_line_spec(app_model(apps@[i])),
        decreases apps.len() - k,
    {
        lines.push(install_line(&apps[k]));
        k = k + 1;
    }
    AppsPlan::Preview { lines }
}

/// The line reported when there is nothing to install.
pub fn nothing_to_install() -> (line: &'static str)
    ensures
        line@ == "  nothing to install"@,
{
    "  nothing to install"
}

/// The line announcing an import of `count` packages.
pub fn installing_line(count: usize) -> (line: String)
    ensures
        line@ == "  installing "@ + crate::text::decimal(count as nat) + " packages with winget"@,
{
    let mut out: Vec<char> = Vec::new();
    push_str(&mut out, "  installing ");
    crate::text::push_decimal(&mut out, count as u64);
    push_str(&mut out, " packages with winget");
    string_of(out.as_slice())
}

/// The line a chunk of a command's output shows as: its text without surrounding
/// white space, indented by two spaces; none where nothing is left.
pub open spec fn output_line(bytes: Seq<u8>) -> Option<Seq<char>> {
    let text = trim(utf8_text(bytes));
    if bytes.len() == 0 || text.len() == 0 {
        None
    } else {
        Some("  "@ + text)
    }
}

/// Empties `buffer` and gives the line it held, if any.
pub fn flush_line(buffer: &mut Vec<u8>) -> (line: Option<String>)
    ensures
        final(buffer)@ == Seq::<u8>::empty(),
        match line {
            Some(l) => output_line(old(buffer)@) == Some(l@),
            None => output_line(old(buffer)@) is None,
        },
{
    if buffer.len() == 0 {
        return None;
    }
    let text = utf8_lossy(buffer.as_slice());
    let trimmed = trim_chars(chars_of(text.as_str()).as_slice());
    buffer.clear();
    if trimmed.len() == 0 {
        None
    } else {
        let mut out: Vec<char> = Vec::new();
        push_str(&mut out, "  ");
        push_chars_of(&mut out, &trimmed);
        Some(string_of(out.as_slice()))
    }
}

/// Takes one byte of a command's output: a carriage return or line feed ends the
/// line held so far, any other byte joins it.
pub fn feed_byte(buffer: &mut Vec<u8>, byte: u8) -> (line: Option<String>)
    ensures
        byte == 13 || byte == 10 ==> final(buffer)@ == Seq::<u8>::empty() && match line {
            Some(l) => output_line(old(buffer)@) == Some(l@),
            None => output_line(old(buffer)@) is None,
        },
        !(byte == 13 || byte == 10) ==> final(buffer)@ == old(buffer)@.push(byte) && line is None,
{
    if byte == 13 || byte == 10 {
        flush_line(buffer)
    } else {
        buffer.push(byte);
        None
    }
}


// ---------------------------------------------------------------------------
// Reading an import file back

/// An app as an export reads it back: the detailed form exactly when it has a source
/// or arguments, and a source only where it is the store.
pub open spec fn canonical_app(app: AppModel) -> bool {
    &&& app.0 == (app.2 is Some || app.3 is Some)
    &&& (app.2 is None || app.2 == Some("msstore"@))
}

proof fn lemma_first_found(s: Seq<AppModel>, id: Seq<char>)
    requires
        has_id(s, id),
    ensures
        first_with_id(s, id).1 == id,
        s.contains(first_with_id(s, id)),
    decreases s.len(),
{
    if s.len() > 1 && s[0].1 != id {
        let i = choose|i: int| 0 <= i < s.len() && #[trigger] s[i].1 == id;
        assert(s.drop_first()[i - 1].1 == id);
        lemma_first_found(s.drop_first(), id);
        let f = first_with_id(s.drop_first(), id);
        let j = choose|j: int| 0 <= j < s.drop_first().len() && s.drop_first()[j] == f;
        assert(s[j + 1] == f);
    } else {
        assert(s[0] == first_with_id(s, id));
        if s[0].1 != id {
            let i = choose|i: int| 0 <= i < s.len() && #[trigger] s[i].1 == id;
            assert(i == 0);
        }
    }
}

proof fn lemma_group_members(apps: Seq<AppModel>, store: bool, x: AppModel)
    ensures
        apps_of_source(apps, store).contains(x) <==> (apps.contains(x) && from_store(x) == store),
    decreases apps.len(),
{
    if apps.len() > 0 {
        let before = apps.drop_last();
        lemma_group_members(before, store, x);
        assert(apps =~= before.push(apps.last()));
        if apps.contains(x) && x != apps.last() {
            let k = choose|k: int| 0 <= k < apps.len() && apps[k] == x;
            assert(before[k] == x);
        }
        if before.contains(x) {
            let k = choose|k: int| 0 <= k < before.len() && before[k] == x;
            assert(apps[k] == x);
        }
        let g = apps_of_source(apps, store);
        let gb = apps_of_source(before, store);
        if from_store(apps.last()) == store {
            assert(g == gb.push(apps.last()));
            if g.contains(x) && x != apps.last() {
                let k = choose|k: int| 0 <= k < g.len() && g[k] == x;
                assert(gb[k] == x);
            }
            if gb.contains(x) {
                let k = choose|k: int| 0 <= k < gb.len() && gb[k] == x;
                assert(g[k] == x);
            }
            if x == apps.last() {
                assert(g[g.len() - 1] == x);
            }
        }
    }
}

proof fn lemma_member_at(m: Seq<(String, JsonValue)>, i: int, key: Seq<char>)
    requires
        0 <= i < m.len(),
        m[i].0@ == key,
        forall|j: int| 0 <= j < i ==> (#[trigger] m[j]).0@ != key,
    ensures
        member(m, key) == Some(m[i].1),
    decreases i,
{
    if i > 0 {
        let rest = m.drop_first();
        assert forall|j: int| 0 <= j < i - 1 implies (#[trigger] rest[j]).0@ != key by {
            assert(rest[j] == m[j + 1]);
        }
        lemma_member_at(rest, i - 1, key);
    }
}

proof fn lemma_member_absent(m: Seq<(String, JsonValue)>, key: Seq<char>)
    requires
        forall|j: int| 0 <= j < m.len() ==> (#[trigger] m[j]).0@ != key,
    ensures
        member(m, key) is None,
    decreases m.len(),
{
    if m.len() > 0 {
        let rest = m.drop_first();
        assert forall|j: int| 0 <= j < rest.len() implies (#[trigger] rest[j]).0@ != key by {
            assert(rest[j] == m[j + 1]);
        }
        lemma_member_absent(rest, key);
    }
}

proof fn lemma_literals()
    ensures
        "$schema"@ != "Sources"@,
        "CreationDate"@ != "Sources"@,
        "Packages"@ != "SourceDetails"@,
        "Argument"@ != "Name"@,
        "Identifier"@ != "Name"@,
        "PackageIdentifier"@ != "InitialOverrideArguments"@,
        !is_default_source("msstore"@),
        is_default_source("winget"@),
{
    reveal_strlit("$schema");
    reveal_strlit("Sources");
    reveal_strlit("CreationDate");
    reveal_strlit("Packages");
    reveal_strlit("SourceDetails");
    reveal_strlit("Argument");
    reveal_strlit("Name");
    reveal_strlit("Identifier");
    reveal_strlit("PackageIdentifier");
    reveal_strlit("InitialOverrideArguments");
    reveal_strlit("msstore");
    reveal_strlit("winget");
    assert("$schema"@[0] != "Sources"@[0]);
    assert("CreationDate"@[0] != "Sources"@[0]);
    assert("Packages"@[0] != "SourceDetails"@[0]);
    assert("Argument"@[0] != "Name"@[0]);
    assert("Identifier"@[0] != "Name"@[0]);
    assert("PackageIdentifier"@[0] != "InitialOverrideArguments"@[0]);
    assert(lower_all("msstore"@)[0] != lower_all("winget"@)[0]);
}

proof fn lemma_package_read_back(p: JsonValue, app: AppModel, store: bool)
    requires
        package_json(p, app),
        canonical_app(app),
        from_store(app) == store,
    ensures
        package_entry(p, if store { "msstore"@ } else { "winget"@ }) == Some(app),
{
    lemma_literals();
    reveal_strlit("msstore");
    if let JsonValue::Object(members) = p {
        let m = members@;
        lemma_member_at(m, 0, "PackageIdentifier"@);
        if m.len() == 2 {
            lemma_member_at(m, 1, "InitialOverrideArguments"@);
        } else {
            lemma_member_absent(m, "InitialOverrideArguments"@);
        }
        if app.2 is Some {
            assert(lower_all(app.2->0) == lower_all("msstore"@));
        }
    }
}

proof fn lemma_packages_read_back(pkgs: Seq<JsonValue>, group: Seq<AppModel>, store: bool, n: int)
    requires
        pkgs.len() == group.len(),
        0 <= n <= pkgs.len(),
        forall|i: int| 0 <= i < group.len() ==> package_json(#[trigger] pkgs[i], group[i]),
        forall|i: int| 0 <= i < group.len() ==> canonical_app(#[trigger] group[i]) && from_store(group[i]) == store,
    ensures
        package_entries(pkgs.take(n), if store { "msstore"@ } else { "winget"@ }) == group.take(n),
    decreases n,
{
    let name: Seq<char> = if store { "msstore"@ } else { "winget"@ };
    if n == 0 {
        assert(pkgs.take(0) =~= Seq::<JsonValue>::empty());
        assert(group.take(0) =~= Seq::<AppModel>::empty());
    } else {
        lemma_packages_read_back(pkgs, group, store, n - 1);
        assert(pkgs.take(n).drop_last() =~= pkgs.take(n - 1));
        assert(pkgs.take(n).last() == pkgs[n - 1]);
        lemma_package_read_back(pkgs[n - 1], group[n - 1], store);
        assert(group.take(n) =~= group.take(n - 1).push(group[n - 1]));
    }
}

proof fn lemma_source_read_back(v: JsonValue, apps: Seq<AppModel>, store: bool)
    requires
        source_json(v, apps, store),
        forall|i: int| 0 <= i < apps.len() ==> canonical_app(#[trigger] apps[i]),
    ensures
        package_entries(items(field(Some(v), "Packages"@)), source_name(v)) == apps_of_source(apps, store),
{
    lemma_literals();
    let group = apps_of_source(apps, store);
    if let JsonValue::Object(members) = v {
        let m = members@;
        lemma_member_at(m, 0, "Packages"@);
        lemma_member_at(m, 1, "SourceDetails"@);
        if let JsonValue::Object(details) = m[1].1 {
            let d = details@;
            lemma_member_at(d, 2, "Name"@);
        }
        if let JsonValue::Array(list) = m[0].1 {
            assert forall|i: int| 0 <= i < group.len() implies canonical_app(#[trigger] group[i]) && from_store(
                group[i],
            ) == store by {
                assert(group.contains(group[i]));
                lemma_group_members(apps, store, group[i]);
                let k = choose|k: int| 0 <= k < apps.len() && apps[k] == group[i];
            }
            lemma_packages_read_back(list@, group, store, list@.len() as int);
            assert(list@.take(list@.len() as int) =~= list@);
            assert(group.take(group.len() as int) =~= group);
        }
    }
}

/// Reading an import file back as an export gives the apps it was written from, in any
/// order and with distinct ids, sorted by id: each keeps its id and installer arguments,
/// and a store app stays linked to the store. `sorted` is those apps in id order.
pub proof fn import_file_reads_back(apps: Seq<AppModel>, doc: JsonValue, created: Seq<char>, sorted: Seq<AppModel>)
    requires
        import_document_is(doc, apps, created),
        forall|i: int, j: int| 0 <= i < j < apps.len() ==> #[trigger] apps[i].1 != #[trigger] apps[j].1,
        forall|i: int| 0 <= i < apps.len() ==> canonical_app(#[trigger] apps[i]),
        forall|i: int, j: int| 0 <= i < j < sorted.len() ==> lex_lt(#[trigger] sorted[i].1, #[trigger] sorted[j].1),
        forall|x: AppModel| #[trigger] sorted.contains(x) <==> apps.contains(x),
    ensures
        one_per_id(export_entries(doc), sorted),
{
    lemma_literals();
    let entries = apps_of_source(apps, false) + apps_of_source(apps, true);
    if let JsonValue::Object(members) = doc {
        let m = members@;
        lemma_member_at(m, 2, "Sources"@);
        if let JsonValue::Array(list) = m[2].1 {
            let l = list@;
            let wanted = import_sources(apps);
            let d = apps_of_source(apps, false);
            let t = apps_of_source(apps, true);
            if l.len() == 0 {
                assert(source_entries(l) =~= Seq::<AppModel>::empty());
                assert(d.len() == 0 && t.len() == 0);
            } else if l.len() == 1 {
                lemma_source_read_back(l[0], apps, wanted[0]);
                assert(l.drop_last() =~= Seq::<JsonValue>::empty());
                assert(source_entries(l.drop_last()) =~= Seq::<AppModel>::empty());
                if wanted[0] {
                    assert(d.len() == 0);
                } else {
                    assert(t.len() == 0);
                }
            } else {
                lemma_source_read_back(l[0], apps, wanted[0]);
                lemma_source_read_back(l[1], apps, wanted[1]);
                let first = l.drop_last();
                assert(first.drop_last() =~= Seq::<JsonValue>::empty());
                assert(first.last() == l[0]);
                assert(source_entries(first.drop_last()) =~= Seq::<AppModel>::empty());
                assert(source_entries(first) =~= d);
                assert(wanted[0] == false && wanted[1] == true);
            }
            assert(source_entries(l) =~= entries);
        }
    }
    assert(export_entries(doc) == entries);
    assert forall|x: AppModel| #[trigger] entries.contains(x) implies apps.contains(x) by {
        lemma_group_members(apps, false, x);
        lemma_group_members(apps, true, x);
        if !apps_of_source(apps, false).contains(x) {
            let k = choose|k: int| 0 <= k < entries.len() && entries[k] == x;
            assert(apps_of_source(apps, true)[k - apps_of_source(apps, false).len()] == x);
        } else {
        }
    }
    assert forall|k: int| 0 <= k < apps.len() implies has_id(entries, #[trigger] apps[k].1) && apps[k]
        == first_with_id(entries, apps[k].1) by {
        let x = apps[k];
        assert(apps.contains(x));
        lemma_group_members(apps, false, x);
        lemma_group_members(apps, true, x);
        let g = apps_of_source(apps, from_store(x));
        let j = choose|j: int| 0 <= j < g.len() && g[j] == x;
        if from_store(x) {
            assert(entries[apps_of_source(apps, false).len() + j] == x);
        } else {
            assert(entries[j] == x);
        }
        lemma_first_found(entries, x.1);
        let f = first_with_id(entries, x.1);
        assert(apps.contains(f));
        let q = choose|q: int| 0 <= q < apps.len() && apps[q] == f;
        if q < k {
            assert(apps[q].1 != apps[k].1);
        } else if q > k {
            assert(apps[k].1 != apps[q].1);
        }
    }
    assert forall|k: int| 0 <= k < sorted.len() implies has_id(entries, #[trigger] sorted[k].1) && sorted[k]
        == first_with_id(entries, sorted[k].1) by {
        assert(sorted.contains(sorted[k]));
        let q = choose|q: int| 0 <= q < apps.len() && apps[q] == sorted[k];
        assert(has_id(entries, apps[q].1) && apps[q] == first_with_id(entries, apps[q].1));
    }
    assert forall|i: int| 0 <= i < entries.len() implies has_id(sorted, #[trigger] entries[i].1) by {
        assert(entries.contains(entries[i]));
        let q = choose|q: int| 0 <= q < apps.len() && apps[q] == entries[i];
        assert(apps.contains(apps[q]));
        assert(sorted.contains(entries[i]));
        let r = choose|r: int| 0 <= r < sorted.len() && sorted[r] == entries[i];
        assert(sorted[r].1 == entries[i].1);
    }
}

} // verus!
