//! What the client reads out of JSON documents, through `serde_json`.
use vstd::prelude::*;

use crate::text::{self, views};

verus! {

/// A JSON value as `serde_json` parses it, with numbers kept as the text
/// that `serde_json` renders for them and an object's members in the order
/// that its map keeps them.
#[derive(Debug)]
pub enum JsonValue {
    Null,
    Bool(bool),
    Number(String),
    Str(String),
    Array(Vec<JsonValue>),
    Object(Vec<(String, JsonValue)>),
}

/// `JsonValue` by the characters of its strings.
pub enum JsonValueView {
    Null,
    Bool(bool),
    Number(Seq<char>),
    Str(Seq<char>),
    Array(Seq<JsonValueView>),
    Object(Seq<(Seq<char>, JsonValueView)>),
}

/// A JSON value by the characters of its strings.
pub open spec fn json_view(v: JsonValue) -> JsonValueView
    decreases v,
{
    match v {
        JsonValue::Null => JsonValueView::Null,
        JsonValue::Bool(b) => JsonValueView::Bool(b),
        JsonValue::Number(n) => JsonValueView::Number(n@),
        JsonValue::Str(s) => JsonValueView::Str(s@),
        JsonValue::Array(items) => JsonValueView::Array(
            Seq::new(
                items@.len(),
                |i: int|
                    if 0 <= i < items@.len() {
                        json_view(items@[i])
                    } else {
                        JsonValueView::Null
                    },
            ),
        ),
        JsonValue::Object(members) => JsonValueView::Object(
            Seq::new(
                members@.len(),
                |i: int|
                    if 0 <= i < members@.len() {
                        (members@[i].0@, json_view(members@[i].1))
                    } else {
                        (Seq::empty(), JsonValueView::Null)
                    },
            ),
        ),
    }
}

/// The first member of an object's members with this key.
pub open spec fn member_of(members: Seq<(Seq<char>, JsonValueView)>, key: Seq<char>) -> Option<JsonValueView>
    decreases members.len(),
{
    if members.len() == 0 {
        None
    } else if members[0].0 == key {
        Some(members[0].1)
    } else {
        member_of(members.drop_first(), key)
    }
}

/// The member `key` of an object (`Value::get`); nothing for any other value.
pub open spec fn json_get(v: JsonValueView, key: Seq<char>) -> Option<JsonValueView> {
    match v {
        JsonValueView::Object(members) => member_of(members, key),
        _ => None,
    }
}

/// The text of a value that is a string, otherwise nothing.
pub open spec fn json_str(v: Option<JsonValueView>) -> Option<Seq<char>> {
    match v {
        Some(JsonValueView::Str(s)) => Some(s),
        _ => None,
    }
}

/// The member `key` of an object.
pub fn get_member<'a>(v: &'a JsonValue, key: &str) -> (r: Option<&'a JsonValue>)
    ensures
        match r {
            Some(x) => json_get(json_view(*v), key@) == Some(json_view(*x)),
            None => json_get(json_view(*v), key@) is None,
        },
{
    match v {
        JsonValue::Object(members) => {
            let ghost mv = match json_view(*v) {
                JsonValueView::Object(mm) => mm,
                _ => Seq::empty(),
            };
            proof {
                assert(json_view(*v) == JsonValueView::Object(mv));
                assert(mv.len() == members@.len());
                assert(mv.subrange(0, mv.len() as int) =~= mv);
            }
            let mut i: usize = 0;
            while i < members.len()
                invariant
                    i <= members@.len(),
                    json_view(*v) == JsonValueView::Object(mv),
                    mv.len() == members@.len(),
                    forall|k: int| 0 <= k < members@.len() ==> #[trigger] mv[k] == (members@[k].0@, json_view(members@[k].1)),
                    member_of(mv, key@) == member_of(mv.subrange(i as int, mv.len() as int), key@),
                decreases members@.len() - i,
            {
                let ghost rest = mv.subrange(i as int, mv.len() as int);
                proof {
                    assert(rest[0] == mv[i as int]);
                    assert(rest.drop_first() =~= mv.subrange(i + 1, mv.len() as int));
                }
                if text::str_eq(members[i].0.as_str(), key) {
                    proof {
                        assert(rest[0] == (members@[i as int].0@, json_view(members@[i as int].1)));
                        assert(member_of(rest, key@) == Some(rest[0].1));
                    }
                    return Some(&members[i].1);
                }
                i = i + 1;
            }
            None
        },
        _ => None,
    }
}

/// The text of a value that is a string.
pub fn str_of(v: Option<&JsonValue>) -> (r: Option<String>)
    ensures
        opt_view(r) == json_str(
            match v {
                Some(x) => Some(json_view(*x)),
                None => None,
            },
        ),
{
    match v {
        Some(JsonValue::Str(s)) => Some(String::from_str(s.as_str())),
        _ => None,
    }
}

/// An optional string by its characters.
pub open spec fn opt_view(o: Option<String>) -> Option<Seq<char>> {
    match o {
        Some(s) => Some(s@),
        None => None,
    }
}

/// The keys of the top-level object of a JSON document, if it is one.
pub uninterp spec fn spec_json_object_keys(raw: Seq<u8>) -> Option<Seq<Seq<char>>>;

/// `serde_json::from_slice::<Value>` and, for an object, the keys of its map.
/// Claims: the result is the named list of keys (`None` when the bytes are not
/// JSON or not an object).
#[verifier::external_body]
pub(crate) fn json_object_keys(raw: &[u8]) -> (r: Option<Vec<String>>)
    ensures
        match r {
            Some(v) => spec_json_object_keys(raw@) == Some(views(v@)),
            None => spec_json_object_keys(raw@) is None,
        },
{
    match serde_json::from_slice::<serde_json::Value>(raw) {
        Ok(serde_json::Value::Object(map)) => Some(map.keys().cloned().collect()),
        _ => None,
    }
}

/// `serde_json::Value`, carried through as it is.
#[verifier::external_type_specification]
#[verifier::external_body]
pub struct ExSerdeJsonValue(serde_json::Value);

/// What a `serde_json::Value` holds, as a plain JSON value.
pub uninterp spec fn json_value_contents(v: serde_json::Value) -> JsonValueView;

/// The JSON value that a text denotes, if it is JSON.
pub uninterp spec fn spec_json_parse(text: Seq<char>) -> Option<JsonValueView>;

/// `serde_json::from_str::<Value>`. Claims: the text parses exactly when the
/// named parse gives a value, and then the value holds that.
#[verifier::external_body]
fn json_from_str(text: &str) -> (r: Option<serde_json::Value>)
    ensures
        match r {
            Some(v) => spec_json_parse(text@) == Some(json_value_contents(v)),
            None => spec_json_parse(text@) is None,
        },
{
    serde_json::from_str::<serde_json::Value>(text).ok()
}

/// A `serde_json::Value` as a `JsonValue`, variant for variant (a number by
/// its `Display` text, members in the map's order). Claims: the result holds
/// what the value holds.
#[verifier::external_body]
fn json_value_of(v: &serde_json::Value) -> (r: JsonValue)
    ensures
        json_view(r) == json_value_contents(*v),
{
    match v {
        serde_json::Value::Null => JsonValue::Null,
        serde_json::Value::Bool(b) => JsonValue::Bool(*b),
        serde_json::Value::Number(n) => JsonValue::Number(n.to_string()),
        serde_json::Value::String(s) => JsonValue::Str(s.clone()),
        serde_json::Value::Array(a) => JsonValue::Array(a.iter().map(json_value_of).collect()),
        serde_json::Value::Object(m) => JsonValue::Object(m.iter().map(|(k, x)| (k.clone(), json_value_of(x))).collect()),
    }
}

/// An optional JSON value by the characters of its strings.
pub open spec fn json_opt_view(o: Option<JsonValue>) -> Option<JsonValueView> {
    match o {
        Some(v) => Some(json_view(v)),
        None => None,
    }
}

/// The JSON value that `text` denotes, if it is JSON.
pub fn json_parse(text: &str) -> (r: Option<JsonValue>)
    ensures
        json_opt_view(r) == spec_json_parse(text@),
{
    match json_from_str(text) {
        Some(v) => Some(json_value_of(&v)),
        None => None,
    }
}

} // verus!
