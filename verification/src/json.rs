//! JSON documents as plain data. The text of a document is read and written
//! by `serde_json`; what the library looks up in a document it looks up in
//! the tree that this module defines.

use serde_json::Value;
use vstd::prelude::*;

verus! {

#[verifier::external_type_specification]
#[verifier::external_body]
pub struct ExValue(serde_json::Value);

/// A JSON number: its value where that is a signed integer of 64 bits, and the
/// text that writes it.
#[derive(Debug)]
pub struct JsonNumber {
    pub integer: Option<i64>,
    pub text: String,
}

/// A JSON document. The members of an object stand in the order in which
/// they were handed over; a lookup takes the first that has the key.
#[derive(Debug)]
pub enum Json {
    Null,
    Bool(bool),
    Number(JsonNumber),
    Text(String),
    Array(Vec<Json>),
    Object(Vec<(String, Json)>),
}

/// A `Json` with its texts and lists as sequences.
pub ghost enum JsonView {
    Null,
    Bool(bool),
    Number { integer: Option<i64>, text: Seq<char> },
    Text(Seq<char>),
    Array(Seq<JsonView>),
    Object(Seq<(Seq<char>, JsonView)>),
}

impl Json {
    /// The document as sequences, node for node.
    pub open spec fn model(&self) -> JsonView
        decreases self,
    {
        match self {
            Json::Null => JsonView::Null,
            Json::Bool(b) => JsonView::Bool(*b),
            Json::Number(n) => JsonView::Number { integer: n.integer, text: n.text@ },
            Json::Text(s) => JsonView::Text(s@),
            Json::Array(items) => JsonView::Array(
                Seq::new(
                    items@.len(),
                    |i: int|
                        if 0 <= i < items@.len() {
                            items@[i].model()
                        } else {
                            JsonView::Null
                        },
                ),
            ),
            Json::Object(entries) => JsonView::Object(
                Seq::new(
                    entries@.len(),
                    |i: int|
                        if 0 <= i < entries@.len() {
                            (entries@[i].0@, entries@[i].1.model())
                        } else {
                            (Seq::empty(), JsonView::Null)
                        },
                ),
            ),
        }
    }
}

impl View for Json {
    type V = JsonView;

    open spec fn view(&self) -> JsonView {
        self.model()
    }
}

/// The value of the first of `entries` whose key is `key`, or `Null`.
pub open spec fn lookup(entries: Seq<(Seq<char>, JsonView)>, key: Seq<char>) -> JsonView
    decreases entries.len(),
{
    if entries.len() == 0 {
        JsonView::Null
    } else if entries[0].0 == key {
        entries[0].1
    } else {
        lookup(entries.skip(1), key)
    }
}

impl JsonView {
    /// The member `key` of an object; `Null` where the object has no such
    /// member or the value is no object.
    pub open spec fn member(self, key: Seq<char>) -> JsonView {
        match self {
            JsonView::Object(entries) => lookup(entries, key),
            _ => JsonView::Null,
        }
    }

    /// The text of a string.
    pub open spec fn as_text(self) -> Option<Seq<char>> {
        match self {
            JsonView::Text(s) => Some(s),
            _ => None,
        }
    }

    /// The value of a number that is an integer of 64 bits.
    pub open spec fn as_int(self) -> Option<i64> {
        match self {
            JsonView::Number { integer, text } => integer,
            _ => None,
        }
    }

    /// The items of an array; none where the value is no array.
    pub open spec fn items(self) -> Seq<JsonView> {
        match self {
            JsonView::Array(items) => items,
            _ => Seq::empty(),
        }
    }
}

/// The document that `text` writes, as `serde_json::from_str` reads it into
/// a `serde_json::Value`; `None` where `text` is no JSON document.
pub uninterp spec fn json_parse(text: Seq<char>) -> Option<JsonView>;

/// The compact text of a document, as `serde_json::to_string` writes the
/// `serde_json::Value` that the document turns into. A number turns into
/// what `serde_json::from_str` reads from its text, and into `null` where
/// that text is no JSON.
pub uninterp spec fn json_rendering(value: JsonView) -> Seq<char>;

/// Turns a `serde_json::Value` into a `Json`, node for node. A number
/// keeps what `Number::as_i64` and its `Display` say of it.
#[verifier::external_body]
fn json_from_value(value: Value) -> Json {
    match value {
        Value::Null => Json::Null,
        Value::Bool(b) => Json::Bool(b),
        Value::Number(n) => Json::Number(JsonNumber { integer: n.as_i64(), text: n.to_string() }),
        Value::String(s) => Json::Text(s),
        Value::Array(items) => Json::Array(items.into_iter().map(json_from_value).collect()),
        Value::Object(map) => Json::Object(
            map.into_iter().map(|(k, v)| (k, json_from_value(v))).collect(),
        ),
    }
}

/// Turns a `Json` back into a `serde_json::Value`, node for node. A number
/// is read from its text; one whose text is no JSON becomes `null`.
#[verifier::external_body]
fn json_to_value(json: &Json) -> Value {
    match json {
        Json::Null => Value::Null,
        Json::Bool(b) => Value::Bool(*b),
        Json::Number(n) => serde_json::from_str(&n.text).unwrap_or(Value::Null),
        Json::Text(s) => Value::String(s.clone()),
        Json::Array(items) => Value::Array(items.iter().map(json_to_value).collect()),
        Json::Object(entries) => Value::Object(
            entries.iter().map(|(k, v)| (k.clone(), json_to_value(v))).collect(),
        ),
    }
}

/// Reads `text` with `serde_json::from_str`. The result depends on the
/// text alone; the contract gives it its name and claims no more.
#[verifier::external_body]
pub(crate) fn parse_json(text: &str) -> (doc: Option<Json>)
    ensures
        match doc {
            Some(json) => json_parse(text@) == Some(json@),
            None => json_parse(text@) is None,
        },
{
    match serde_json::from_str::<Value>(text) {
        Ok(value) => Some(json_from_value(value)),
        Err(_) => None,
    }
}

/// Writes `json` with `serde_json::to_string`. The result depends on the
/// document alone; the contract gives it its name and claims no more.
#[verifier::external_body]
pub(crate) fn render_json(json: &Json) -> (text: String)
    ensures
        text@ == json_rendering(json@),
{
    serde_json::to_string(&json_to_value(json)).unwrap_or_default()
}

/// The view of an array is the views of its items, in order.
pub proof fn lemma_array_view(json: Json)
    requires
        json is Array,
    ensures
        json@ is Array,
        json@.items().len() == json->Array_0@.len(),
        forall|i: int| 0 <= i < json->Array_0@.len() ==> #[trigger] json@.items()[i] == json->Array_0@[i]@,
{
    reveal_with_fuel(Json::model, 2);
}

/// The view of an object is its keys with the views of their values, in
/// order.
pub proof fn lemma_object_view(json: Json)
    requires
        json is Object,
    ensures
        json@ is Object,
        json@->Object_0.len() == json->Object_0@.len(),
        forall|i: int|
            0 <= i < json->Object_0@.len() ==> #[trigger] json@->Object_0[i] == (
                json->Object_0@[i].0@,
                json->Object_0@[i].1@,
            ),
{
    reveal_with_fuel(Json::model, 2);
}

/// The view of what a lookup found: that of the value, or `Null`.
pub open spec fn found_view(found: Option<&Json>) -> JsonView {
    match found {
        Some(json) => json@,
        None => JsonView::Null,
    }
}

impl Json {
    /// Looks up the member `key` of an object.
    pub fn member(&self, key: &str) -> (found: Option<&Json>)
        ensures
            found_view(found) == self@.member(key@),
    {
        match self {
            Json::Object(entries) => {
                let wanted = key.to_owned();
                let ghost all = self@->Object_0;
                let mut i: usize = 0;
                proof {
                    lemma_object_view(*self);
                }
                assert(all.skip(0) =~= all);
                while i < entries.len()
                    invariant
                        i <= entries@.len(),
                        wanted@ == key@,
                        self@ == JsonView::Object(all),
                        all.len() == entries@.len(),
                        forall|j: int|
                            0 <= j < entries@.len() ==> #[trigger] all[j] == (
                                entries@[j].0@,
                                entries@[j].1@,
                            ),
                        lookup(all, key@) == lookup(all.skip(i as int), key@),
                    decreases entries@.len() - i,
                {
                    assert(all.skip(i as int).skip(1) =~= all.skip(i + 1));
                    if entries[i].0 == wanted {
                        return Some(&entries[i].1);
                    }
                    i = i + 1;
                }
                None
            },
            _ => None,
        }
    }

    /// The text of a string.
    pub fn as_text(&self) -> (text: Option<&String>)
        ensures
            match text {
                Some(s) => self@.as_text() == Some(s@),
                None => self@.as_text() is None,
            },
    {
        match self {
            Json::Text(s) => Some(s),
            _ => None,
        }
    }

    /// The value of a number that is an integer of 64 bits.
    pub fn as_int(&self) -> (integer: Option<i64>)
        ensures
            integer == self@.as_int(),
    {
        match self {
            Json::Number(n) => n.integer,
            _ => None,
        }
    }

    /// The items of an array.
    pub fn as_array(&self) -> (items: Option<&Vec<Json>>)
        ensures
            match items {
                Some(v) => self@ is Array && self@.items().len() == v@.len() && forall|i: int|
                    0 <= i < v@.len() ==> #[trigger] self@.items()[i] == v@[i]@,
                None => !(self@ is Array),
            },
    {
        match self {
            Json::Array(items) => {
                proof {
                    lemma_array_view(*self);
                }
                Some(items)
            },
            _ => None,
        }
    }
}

} // verus!
