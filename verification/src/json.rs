//! A JSON document as the request builder writes and reads it.

use vstd::prelude::*;

use crate::text::str_eq;

verus! {

/// The mathematical model of a JSON document: text is a sequence of
/// characters, an object is the sequence of its entries in the order in
/// which they were written.
pub enum JsonModel {
    Null,
    Bool(bool),
    Number(Seq<char>),
    Str(Seq<char>),
    Array(Seq<JsonModel>),
    Object(Seq<(Seq<char>, JsonModel)>),
}

/// A JSON document. A number is held as its decimal text; an object keeps its
/// entries in the order in which they were written.
#[derive(Debug, PartialEq, Eq)]
pub enum JsonValue {
    Null,
    Bool(bool),
    Number(String),
    Str(String),
    Array(Vec<JsonValue>),
    Object(Vec<(String, JsonValue)>),
}

/// The model of a document.
pub open spec fn json_view(v: JsonValue) -> JsonModel
    decreases v,
{
    match v {
        JsonValue::Null => JsonModel::Null,
        JsonValue::Bool(b) => JsonModel::Bool(b),
        JsonValue::Number(n) => JsonModel::Number(n@),
        JsonValue::Str(s) => JsonModel::Str(s@),
        JsonValue::Array(items) => JsonModel::Array(json_views(items@)),
        JsonValue::Object(entries) => JsonModel::Object(json_entry_views(entries@)),
    }
}

/// The models of a sequence of documents, one for one.
pub open spec fn json_views(items: Seq<JsonValue>) -> Seq<JsonModel>
    decreases items,
{
    if items.len() == 0 {
        Seq::empty()
    } else {
        json_views(items.drop_last()).push(json_view(items.last()))
    }
}

/// The models of the entries of an object, one for one.
pub open spec fn json_entry_views(entries: Seq<(String, JsonValue)>) -> Seq<(Seq<char>, JsonModel)>
    decreases entries,
{
    if entries.len() == 0 {
        Seq::empty()
    } else {
        json_entry_views(entries.drop_last()).push(
            (entries.last().0@, json_view(entries.last().1)),
        )
    }
}

impl View for JsonValue {
    type V = JsonModel;

    open spec fn view(&self) -> JsonModel {
        json_view(*self)
    }
}

/// The value of the first entry of `entries` under `key`.
pub open spec fn entries_get(entries: Seq<(Seq<char>, JsonModel)>, key: Seq<char>) -> Option<JsonModel>
    decreases entries.len(),
{
    if entries.len() == 0 {
        None
    } else if entries[0].0 == key {
        Some(entries[0].1)
    } else {
        entries_get(entries.drop_first(), key)
    }
}

/// The value that an object holds under `key`; `None` for what is no object.
pub open spec fn json_get(m: JsonModel, key: Seq<char>) -> Option<JsonModel> {
    match m {
        JsonModel::Object(entries) => entries_get(entries, key),
        _ => None,
    }
}

/// `entries` with `x` appended to the array held by the first entry under
/// `key`; unchanged where that entry holds no array or there is none.
pub open spec fn entries_push_to_array(
    entries: Seq<(Seq<char>, JsonModel)>,
    key: Seq<char>,
    x: JsonModel,
) -> Seq<(Seq<char>, JsonModel)>
    decreases entries.len(),
{
    if entries.len() == 0 {
        entries
    } else if entries[0].0 == key {
        match entries[0].1 {
            JsonModel::Array(items) => entries.update(0, (key, JsonModel::Array(items.push(x)))),
            _ => entries,
        }
    } else {
        seq![entries[0]] + entries_push_to_array(entries.drop_first(), key, x)
    }
}

/// The model of an object of the given entries.
pub open spec fn obj(entries: Seq<(Seq<char>, JsonModel)>) -> JsonModel {
    JsonModel::Object(entries)
}

/// The model of a string.
pub open spec fn jstr(s: Seq<char>) -> JsonModel {
    JsonModel::Str(s)
}

pub proof fn lemma_json_views(items: Seq<JsonValue>)
    ensures
        json_views(items).len() == items.len(),
        forall|i: int| 0 <= i < items.len() ==> #[trigger] json_views(items)[i] == json_view(items[i]),
    decreases items.len(),
{
    if items.len() > 0 {
        lemma_json_views(items.drop_last());
    }
}

pub proof fn lemma_json_entry_views(entries: Seq<(String, JsonValue)>)
    ensures
        json_entry_views(entries).len() == entries.len(),
        forall|i: int|
            0 <= i < entries.len() ==> #[trigger] json_entry_views(entries)[i] == (
                entries[i].0@,
                json_view(entries[i].1),
            ),
    decreases entries.len(),
{
    if entries.len() > 0 {
        lemma_json_entry_views(entries.drop_last());
    }
}

pub proof fn lemma_json_views_push(items: Seq<JsonValue>, x: JsonValue)
    ensures
        json_views(items.push(x)) == json_views(items).push(json_view(x)),
{
    assert(items.push(x).drop_last() =~= items);
}

pub proof fn lemma_json_entry_views_push(entries: Seq<(String, JsonValue)>, e: (String, JsonValue))
    ensures
        json_entry_views(entries.push(e)) == json_entry_views(entries).push((e.0@, json_view(e.1))),
{
    assert(entries.push(e).drop_last() =~= entries);
}

/// Replacing one entry replaces its model.
pub proof fn lemma_json_entry_views_update(
    entries: Seq<(String, JsonValue)>,
    i: int,
    e: (String, JsonValue),
)
    requires
        0 <= i < entries.len(),
    ensures
        json_entry_views(entries.update(i, e)) == json_entry_views(entries).update(
            i,
            (e.0@, json_view(e.1)),
        ),
{
    lemma_json_entry_views(entries);
    lemma_json_entry_views(entries.update(i, e));
    assert(json_entry_views(entries.update(i, e)) =~= json_entry_views(entries).update(
        i,
        (e.0@, json_view(e.1)),
    ));
}

/// `entries_get` finds the first entry whose key matches.
pub proof fn lemma_entries_get_first(entries: Seq<(Seq<char>, JsonModel)>, key: Seq<char>, i: int)
    requires
        0 <= i < entries.len(),
        entries[i].0 == key,
        forall|j: int| 0 <= j < i ==> entries[j].0 != key,
    ensures
        entries_get(entries, key) == Some(entries[i].1),
    decreases i,
{
    if i > 0 {
        lemma_entries_get_first(entries.drop_first(), key, i - 1);
    }
}

/// `entries_get` finds nothing where no key matches.
pub proof fn lemma_entries_get_none(entries: Seq<(Seq<char>, JsonModel)>, key: Seq<char>)
    requires
        forall|j: int| 0 <= j < entries.len() ==> entries[j].0 != key,
    ensures
        entries_get(entries, key) is None,
    decreases entries.len(),
{
    if entries.len() > 0 {
        lemma_entries_get_none(entries.drop_first(), key);
    }
}

/// Appending to the array under the first matching key updates that entry.
pub proof fn lemma_entries_push_to_array_at(
    entries: Seq<(Seq<char>, JsonModel)>,
    key: Seq<char>,
    x: JsonModel,
    i: int,
    items: Seq<JsonModel>,
)
    requires
        0 <= i < entries.len(),
        entries[i] == (key, JsonModel::Array(items)),
        forall|j: int| 0 <= j < i ==> entries[j].0 != key,
    ensures
        entries_push_to_array(entries, key, x) == entries.update(
            i,
            (key, JsonModel::Array(items.push(x))),
        ),
    decreases i,
{
    if i > 0 {
        lemma_entries_push_to_array_at(entries.drop_first(), key, x, i - 1, items);
        assert(seq![entries[0]] + entries.drop_first().update(
            i - 1,
            (key, JsonModel::Array(items.push(x))),
        ) =~= entries.update(i, (key, JsonModel::Array(items.push(x)))));
    }
}

/// After appending to the array under `key`, that key gives the longer array
/// and every other key what it gave before.
pub proof fn lemma_entries_get_after_push(
    entries: Seq<(Seq<char>, JsonModel)>,
    key: Seq<char>,
    x: JsonModel,
    other: Seq<char>,
)
    requires
        entries_get(entries, key) matches Some(JsonModel::Array(_)),
    ensures
        entries_get(entries_push_to_array(entries, key, x), other) == if other == key {
            Some(JsonModel::Array(entries_get(entries, key)->0->Array_0.push(x)))
        } else {
            entries_get(entries, other)
        },
    decreases entries.len(),
{
    let r = entries_push_to_array(entries, key, x);
    if entries[0].0 == key {
        assert(r.drop_first() =~= entries.drop_first());
    } else {
        lemma_entries_get_after_push(entries.drop_first(), key, x, other);
        assert(r.drop_first() =~= entries_push_to_array(entries.drop_first(), key, x));
    }
}

impl JsonValue {
    /// A string document.
    pub fn string(s: &str) -> (r: JsonValue)
        ensures
            r@ == jstr(s@),
    {
        JsonValue::Str(s.to_owned())
    }

    /// A copy of the document, entry by entry.
    pub fn deep_copy(&self) -> (r: JsonValue)
        ensures
            r@ == self@,
        decreases self,
    {
        match self {
            JsonValue::Null => JsonValue::Null,
            JsonValue::Bool(b) => JsonValue::Bool(*b),
            JsonValue::Number(n) => JsonValue::Number(n.clone()),
            JsonValue::Str(s) => JsonValue::Str(s.clone()),
            JsonValue::Array(items) => {
                let mut out: Vec<JsonValue> = Vec::new();
                let mut i: usize = 0;
                while i < items.len()
                    invariant
                        i <= items@.len(),
                        *self == JsonValue::Array(*items),
                        json_views(out@) == json_views(items@.take(i as int)),
                    decreases items@.len() - i,
                {
                    proof {
                        broadcast use vstd::std_specs::vec::axiom_vec_decreases_to_view;
                        assert(decreases_to!(*self => (*self)->Array_0));
                        assert(decreases_to!(*self => items@[i as int]));
                    }
                    let c = items[i].deep_copy();
                    proof {
                        lemma_json_views_push(out@, c);
                        lemma_json_views_push(items@.take(i as int), items@[i as int]);
                        assert(items@.take(i as int).push(items@[i as int]) =~= items@.take(
                            i + 1,
                        ));
                    }
                    out.push(c);
                    i = i + 1;
                }
                assert(items@.take(items@.len() as int) =~= items@);
                JsonValue::Array(out)
            },
            JsonValue::Object(entries) => {
                let mut out: Vec<(String, JsonValue)> = Vec::new();
                let mut i: usize = 0;
                while i < entries.len()
                    invariant
                        i <= entries@.len(),
                        *self == JsonValue::Object(*entries),
                        json_entry_views(out@) == json_entry_views(entries@.take(i as int)),
                    decreases entries@.len() - i,
                {
                    let k = entries[i].0.clone();
                    proof {
                        broadcast use vstd::std_specs::vec::axiom_vec_decreases_to_view;
                        assert(decreases_to!(*self => (*self)->Object_0));
                        assert(decreases_to!(*self => entries@[i as int].1));
                    }
                    let c = entries[i].1.deep_copy();
                    proof {
                        lemma_json_entry_views_push(out@, (k, c));
                        lemma_json_entry_views_push(entries@.take(i as int), entries@[i as int]);
                        assert(entries@.take(i as int).push(entries@[i as int]) =~= entries@.take(
                            i + 1,
                        ));
                    }
                    out.push((k, c));
                    i = i + 1;
                }
                assert(entries@.take(entries@.len() as int) =~= entries@);
                JsonValue::Object(out)
            },
        }
    }
}

impl Clone for JsonValue {
    fn clone(&self) -> (r: Self)
        ensures
            r@ == self@,
    {
        self.deep_copy()
    }
}

/// Appends an entry to an object's entries.
pub fn push_entry(entries: &mut Vec<(String, JsonValue)>, key: &str, value: JsonValue)
    ensures
        json_entry_views(final(entries)@) == json_entry_views(old(entries)@).push((key@, value@)),
{
    let k = key.to_owned();
    proof {
        lemma_json_entry_views_push(entries@, (k, value));
    }
    entries.push((k, value));
}

/// Appends a document to an array's items.
pub fn push_item(items: &mut Vec<JsonValue>, value: JsonValue)
    ensures
        json_views(final(items)@) == json_views(old(items)@).push(value@),
{
    proof {
        lemma_json_views_push(items@, value);
    }
    items.push(value);
}

/// The index of the first entry under `key`.
pub fn find_key(entries: &Vec<(String, JsonValue)>, key: &str) -> (r: Option<usize>)
    ensures
        match r {
            Some(i) => i < entries@.len() && entries@[i as int].0@ == key@ && forall|j: int|
                0 <= j < i ==> entries@[j].0@ != key@,
            None => forall|j: int| 0 <= j < entries@.len() ==> entries@[j].0@ != key@,
        },
{
    let mut i: usize = 0;
    while i < entries.len()
        invariant
            i <= entries@.len(),
            forall|j: int| 0 <= j < i ==> entries@[j].0@ != key@,
        decreases entries@.len() - i,
    {
        if str_eq(entries[i].0.as_str(), key) {
            return Some(i);
        }
        i = i + 1;
    }
    None
}

/// The value of the first entry under `key`.
pub fn entry_of<'a>(entries: &'a Vec<(String, JsonValue)>, key: &str) -> (r: Option<&'a JsonValue>)
    ensures
        entries_get(json_entry_views(entries@), key@) == match r {
            Some(v) => Some(v@),
            None => None::<JsonModel>,
        },
{
    proof {
        lemma_json_entry_views(entries@);
    }
    match find_key(entries, key) {
        Some(i) => {
            proof {
                lemma_entries_get_first(json_entry_views(entries@), key@, i as int);
            }
            Some(&entries[i].1)
        },
        None => {
            proof {
                lemma_entries_get_none(json_entry_views(entries@), key@);
            }
            None
        },
    }
}

} // verus!
