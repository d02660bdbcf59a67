//! JSON documents as plain values.

use serde_json::Value;
use vstd::prelude::*;

use crate::strings::same_text;

verus! {

/// A JSON value. A number is kept where it is an integer that fits an `i64`.
#[derive(Debug)]
pub enum Json {
    Null,
    Bool(bool),
    Number(Option<i64>),
    Text(String),
    Array(Vec<Json>),
    Object(Vec<(String, Json)>),
}

/// The contents of a [`Json`].
pub enum JsonView {
    Null,
    Bool(bool),
    Number(Option<i64>),
    Text(Seq<char>),
    Array(Seq<JsonView>),
    Object(Seq<(Seq<char>, JsonView)>),
}

impl View for Json {
    type V = JsonView;

    open spec fn view(&self) -> JsonView {
        json_view(*self)
    }
}

/// The contents of a value.
pub open spec fn json_view(json: Json) -> JsonView
    decreases json,
{
    match json {
        Json::Null => JsonView::Null,
        Json::Bool(b) => JsonView::Bool(b),
        Json::Number(n) => JsonView::Number(n),
        Json::Text(s) => JsonView::Text(s@),
        Json::Array(items) => JsonView::Array(views(items@)),
        Json::Object(entries) => JsonView::Object(entry_views(entries@)),
    }
}

/// The contents of the elements of a list.
pub open spec fn views(items: Seq<Json>) -> Seq<JsonView>
    decreases items,
{
    if items.len() == 0 {
        Seq::empty()
    } else {
        views(items.drop_last()).push(json_view(items.last()))
    }
}

/// The keys and contents of the entries of an object.
pub open spec fn entry_views(entries: Seq<(String, Json)>) -> Seq<(Seq<char>, JsonView)>
    decreases entries,
{
    if entries.len() == 0 {
        Seq::empty()
    } else {
        entry_views(entries.drop_last()).push((entries.last().0@, json_view(entries.last().1)))
    }
}

pub proof fn lemma_views(items: Seq<Json>)
    ensures
        views(items).len() == items.len(),
        forall|i: int| 0 <= i < items.len() ==> #[trigger] views(items)[i] == items[i]@,
    decreases items.len(),
{
    if items.len() > 0 {
        lemma_views(items.drop_last());
    }
}

pub proof fn lemma_entry_views(entries: Seq<(String, Json)>)
    ensures
        entry_views(entries).len() == entries.len(),
        forall|i: int|
            0 <= i < entries.len() ==> #[trigger] entry_views(entries)[i] == (
                entries[i].0@,
                entries[i].1@,
            ),
    decreases entries.len(),
{
    if entries.len() > 0 {
        lemma_entry_views(entries.drop_last());
    }
}

// ---- reading -------------------------------------------------------------------------------
/// `serde_json::Value`.
#[verifier::external_type_specification]
#[verifier::external_body]
pub struct ExValue(serde_json::Value);

/// `serde_json::Error`.
#[verifier::external_type_specification]
#[verifier::external_body]
pub struct ExError(serde_json::Error);

/// What a parsed value holds.
pub uninterp spec fn json_in(value: serde_json::Value) -> JsonView;

/// What parsing the bytes as one JSON document gives, or `None` where that fails.
pub uninterp spec fn parsed(bytes: Seq<u8>) -> Option<JsonView>;

/// `serde_json::from_slice` into a `Value`. What it accepts and what the value then holds
/// depends on the bytes alone, and is not spelled out here.
#[verifier::external_body]
fn parse_value(bytes: &[u8]) -> (res: Result<Value, serde_json::Error>)
    ensures
        match res {
            Ok(value) => parsed(bytes@) == Some(json_in(value)),
            Err(_) => parsed(bytes@) is None,
        },
{
    serde_json::from_slice::<Value>(bytes)
}

/// One level of a parsed value.
enum Shape {
    Null,
    Bool(bool),
    Number(Option<i64>),
    Text(String),
    Array(Vec<Value>),
    Object(Vec<(String, Value)>),
}

spec fn array_of(items: Seq<Value>) -> JsonView {
    JsonView::Array(Seq::new(items.len(), |i: int| json_in(items[i])))
}

spec fn object_of(entries: Seq<(String, Value)>) -> JsonView {
    JsonView::Object(Seq::new(entries.len(), |i: int| (entries[i].0@, json_in(entries[i].1))))
}

/// Tells the variants of `serde_json::Value` apart and hands out what they hold: the elements of
/// an array, the entries of an object in the order of its map, and of a number what
/// `Number::as_i64` gives.
#[verifier::external_body]
fn open_value(value: Value) -> (res: Shape)
    ensures
        json_in(value) == (match res {
            Shape::Null => JsonView::Null,
            Shape::Bool(b) => JsonView::Bool(b),
            Shape::Number(n) => JsonView::Number(n),
            Shape::Text(s) => JsonView::Text(s@),
            Shape::Array(items) => array_of(items@),
            Shape::Object(entries) => object_of(entries@),
        }),
{
    match value {
        Value::Null => Shape::Null,
        Value::Bool(b) => Shape::Bool(b),
        Value::Number(n) => Shape::Number(n.as_i64()),
        Value::String(s) => Shape::Text(s),
        Value::Array(items) => Shape::Array(items),
        Value::Object(map) => Shape::Object(map.into_iter().collect()),
    }
}

/// A parsed value as plain data.
fn plain(value: Value) -> (res: Json)
    ensures
        res@ == json_in(value),
    decreases json_in(value),
{
    let ghost whole = json_in(value);
    match open_value(value) {
        Shape::Null => Json::Null,
        Shape::Bool(b) => Json::Bool(b),
        Shape::Number(n) => Json::Number(n),
        Shape::Text(s) => Json::Text(s),
        Shape::Array(items) => {
            let mut items = items;
            let ghost all = items@;
            let mut res: Vec<Json> = Vec::new();
            while items.len() > 0
                invariant
                    whole == json_in(value),
                    whole == array_of(all),
                    items@.len() + res@.len() == all.len(),
                    items@ == all.skip(res@.len() as int),
                    forall|i: int| 0 <= i < res@.len() ==> (#[trigger] res@[i])@ == json_in(all[i]),
                decreases items@.len(),
            {
                let ghost k = res@.len() as int;
                let item = items.remove(0);
                proof {
                    assert(item == all[k]);
                    let seq = whole->Array_0;
                    assert(seq[k] == json_in(item));
                    assert(decreases_to!(whole => seq));
                    assert(decreases_to!(seq => seq[k]));
                    assert(items@ =~= all.skip(k + 1));
                }
                res.push(plain(item));
            }
            let out = Json::Array(res);
            proof {
                lemma_views(res@);
                assert(out@->Array_0 =~= whole->Array_0);
            }
            out
        },
        Shape::Object(entries) => {
            let mut entries = entries;
            let ghost all = entries@;
            let mut res: Vec<(String, Json)> = Vec::new();
            while entries.len() > 0
                invariant
                    whole == json_in(value),
                    whole == object_of(all),
                    entries@.len() + res@.len() == all.len(),
                    entries@ == all.skip(res@.len() as int),
                    forall|i: int|
                        0 <= i < res@.len() ==> (#[trigger] res@[i]).0@ == all[i].0@ && res@[i].1@
                            == json_in(all[i].1),
                decreases entries@.len(),
            {
                let ghost k = res@.len() as int;
                let (key, item) = entries.remove(0);
                proof {
                    assert(all[k] == (key, item));
                    let seq = whole->Object_0;
                    assert(seq[k] == (key@, json_in(item)));
                    assert(decreases_to!(whole => seq));
                    assert(decreases_to!(seq => seq[k]));
                    assert(decreases_to!(seq[k] => seq[k].1));
                    assert(entries@ =~= all.skip(k + 1));
                }
                res.push((key, plain(item)));
            }
            let out = Json::Object(res);
            proof {
                lemma_entry_views(res@);
                assert(out@->Object_0 =~= whole->Object_0);
            }
            out
        },
    }
}

/// Reads one JSON document. `None` when the bytes are none.
pub fn parse_json(bytes: &[u8]) -> (res: Option<Json>)
    ensures
        match res {
            Some(json) => parsed(bytes@) == Some(json@),
            None => parsed(bytes@) is None,
        },
{
    match parse_value(bytes) {
        Ok(value) => Some(plain(value)),
        Err(_) => None,
    }
}

// ---- looking inside ------------------------------------------------------------------------
/// The first entry of the key, or the number of entries.
pub open spec fn entry_index(entries: Seq<(Seq<char>, JsonView)>, key: Seq<char>) -> int
    decreases entries.len(),
{
    if entries.len() == 0 || entries[0].0 == key {
        0
    } else {
        1 + entry_index(entries.skip(1), key)
    }
}

impl JsonView {
    /// The value of a key, in an object that has it.
    pub open spec fn field(self, key: Seq<char>) -> Option<JsonView> {
        match self {
            JsonView::Object(entries) => {
                let i = entry_index(entries, key);
                if 0 <= i < entries.len() {
                    Some(entries[i].1)
                } else {
                    None
                }
            },
            _ => None,
        }
    }

    /// The text of a key.
    pub open spec fn text_field(self, key: Seq<char>) -> Option<Seq<char>> {
        match self.field(key) {
            Some(JsonView::Text(s)) => Some(s),
            _ => None,
        }
    }

    /// The integer of a key.
    pub open spec fn int_field(self, key: Seq<char>) -> Option<i64> {
        match self.field(key) {
            Some(JsonView::Number(n)) => n,
            _ => None,
        }
    }

    /// The truth value of a key.
    pub open spec fn bool_field(self, key: Seq<char>) -> Option<bool> {
        match self.field(key) {
            Some(JsonView::Bool(b)) => Some(b),
            _ => None,
        }
    }

    /// The elements of the array of a key, none where the key has no array.
    pub open spec fn list_field(self, key: Seq<char>) -> Seq<JsonView> {
        match self.field(key) {
            Some(JsonView::Array(items)) => items,
            _ => Seq::empty(),
        }
    }
}

/// The list of a key is smaller than the whole.
pub proof fn lemma_list_is_smaller(json: JsonView, key: Seq<char>)
    ensures
        json.list_field(key).len() > 0 ==> decreases_to!(json => json.list_field(key)),
{
    if json.list_field(key).len() > 0 {
        let entries = json->Object_0;
        let i = entry_index(entries, key);
        assert(decreases_to!(json => entries));
        assert(decreases_to!(entries => entries[i]));
        assert(decreases_to!(entries[i] => entries[i].1));
        assert(decreases_to!(entries[i].1 => entries[i].1->Array_0));
    }
}

impl Json {
    /// The value of a key, in an object that has it.
    pub fn get(&self, key: &str) -> (res: Option<&Json>)
        ensures
            match res {
                Some(json) => self@.field(key@) == Some(json@),
                None => self@.field(key@) is None,
            },
    {
        match self {
            Json::Object(entries) => {
                let ghost all = self@->Object_0;
                let mut i: usize = 0;
                proof {
                    lemma_entry_views(entries@);
                    assert(all.skip(0) =~= all);
                }
                while i < entries.len()
                    invariant
                        i <= entries@.len() == all.len(),
                        self@ == JsonView::Object(all),
                        forall|j: int|
                            0 <= j < all.len() ==> #[trigger] all[j] == (
                                entries@[j].0@,
                                entries@[j].1@,
                            ),
                        entry_index(all, key@) == i + entry_index(all.skip(i as int), key@),
                    decreases entries@.len() - i,
                {
                    proof {
                        assert(all[i as int] == (entries@[i as int].0@, entries@[i as int].1@));
                    }
                    if same_text(entries[i].0.as_str(), key) {
                        return Some(&entries[i].1);
                    }
                    proof {
                        assert(all.skip(i as int).skip(1) =~= all.skip(i + 1));
                    }
                    i += 1;
                }
                None
            },
            _ => None,
        }
    }

    /// The text of a key.
    pub fn get_text(&self, key: &str) -> (res: Option<&str>)
        ensures
            match res {
                Some(s) => self@.text_field(key@) == Some(s@),
                None => self@.text_field(key@) is None,
            },
    {
        match self.get(key) {
            Some(Json::Text(s)) => Some(s.as_str()),
            _ => None,
        }
    }

    /// The integer of a key.
    pub fn get_int(&self, key: &str) -> (res: Option<i64>)
        ensures
            res == self@.int_field(key@),
    {
        match self.get(key) {
            Some(Json::Number(n)) => *n,
            _ => None,
        }
    }

    /// The truth value of a key.
    pub fn get_bool(&self, key: &str) -> (res: Option<bool>)
        ensures
            res == self@.bool_field(key@),
    {
        match self.get(key) {
            Some(Json::Bool(b)) => Some(*b),
            _ => None,
        }
    }

    /// The elements of the array of a key, none where the key has no array.
    pub fn get_list(&self, key: &str) -> (res: &[Json])
        ensures
            views(res@) == self@.list_field(key@),
    {
        match self.get(key) {
            Some(Json::Array(items)) => items.as_slice(),
            _ => &[],
        }
    }
}

proof fn lemma_entry_index(entries: Seq<(Seq<char>, JsonView)>, key: Seq<char>)
    ensures
        0 <= entry_index(entries, key) <= entries.len(),
        entry_index(entries, key) < entries.len() ==> entries[entry_index(entries, key)].0 == key,
        forall|j: int| 0 <= j < entry_index(entries, key) ==> (#[trigger] entries[j]).0 != key,
    decreases entries.len(),
{
    if entries.len() > 0 && entries[0].0 != key {
        let rest = entries.skip(1);
        lemma_entry_index(rest, key);
        assert forall|j: int| 0 <= j < entry_index(entries, key) implies (#[trigger] entries[j]).0
            != key by {
            if j > 0 {
                assert(rest[j - 1] == entries[j]);
            }
        }
    }
}

/// A member of an object is what stands under its key, and there is none where no member has the
/// key, or where the value is no object. A member of another type than the one asked for is not
/// given.
pub proof fn a_member_stands_under_its_key(json: JsonView, key: Seq<char>)
    ensures
        match json {
            JsonView::Object(entries) => match json.field(key) {
                Some(value) => exists|i: int|
                    0 <= i < entries.len() && #[trigger] entries[i] == (key, value),
                None => forall|i: int| 0 <= i < entries.len() ==> (#[trigger] entries[i]).0 != key,
            },
            _ => json.field(key) is None,
        },
        json.text_field(key) matches Some(s) ==> json.field(key) == Some(JsonView::Text(s)),
        json.field(key) matches Some(JsonView::Text(s)) ==> json.text_field(key) == Some(s),
        json.int_field(key) matches Some(n) ==> json.field(key) == Some(JsonView::Number(Some(n))),
        json.field(key) matches Some(JsonView::Number(n)) ==> json.int_field(key) == n,
        json.bool_field(key) matches Some(b) ==> json.field(key) == Some(JsonView::Bool(b)),
        json.field(key) matches Some(JsonView::Bool(b)) ==> json.bool_field(key) == Some(b),
        json.field(key) matches Some(JsonView::Array(items)) ==> json.list_field(key) == items,
        json.list_field(key).len() > 0 ==> json.field(key) == Some(
            JsonView::Array(json.list_field(key)),
        ),
{
    if let JsonView::Object(entries) = json {
        lemma_entry_index(entries, key);
        if let Some(value) = json.field(key) {
            assert(entries[entry_index(entries, key)] == (key, value));
        }
    }
}

} // verus!
