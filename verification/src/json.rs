//! Access to JSON documents. The grammar is `serde_json`'s; this module names
//! what a parsed value holds and states what each accessor returns of it.

use vstd::prelude::*;

verus! {

/// What a JSON value holds, as far as this library reads it. Of a number
/// only its value as an unsigned 64-bit integer is kept, where `serde_json`
/// holds it as one: a negative number, or one written with a fraction or an
/// exponent, has none.
pub enum JsonTree {
    Null,
    Bool(bool),
    Number(Option<u64>),
    Text(Seq<char>),
    Array(Seq<JsonTree>),
    Object(Map<Seq<char>, JsonTree>),
}

/// `serde_json::Value`, a parsed JSON value. The proofs see nothing inside
/// it but what `json_tree` names.
#[verifier::external_type_specification]
#[verifier::external_body]
pub struct ExJsonValue(serde_json::Value);

/// The tree that `text` denotes as one JSON document, if it is well formed.
pub uninterp spec fn json_document(text: Seq<char>) -> Option<JsonTree>;

/// The tree that a parsed value holds.
pub uninterp spec fn json_tree(value: serde_json::Value) -> JsonTree;

/// The trees of a run of parsed values, in order.
pub open spec fn json_trees(values: Seq<serde_json::Value>) -> Seq<JsonTree> {
    Seq::new(values.len(), |i: int| json_tree(values[i]))
}

impl JsonTree {
    /// The member of an object under `key`.
    pub open spec fn member(self, key: Seq<char>) -> Option<JsonTree> {
        match self {
            JsonTree::Object(members) => if members.contains_key(key) {
                Some(members[key])
            } else {
                None
            },
            _ => None,
        }
    }

    /// The elements of an array.
    pub open spec fn items(self) -> Option<Seq<JsonTree>> {
        match self {
            JsonTree::Array(items) => Some(items),
            _ => None,
        }
    }

    /// The value of a number that is an unsigned 64-bit integer.
    pub open spec fn natural(self) -> Option<u64> {
        match self {
            JsonTree::Number(n) => n,
            _ => None,
        }
    }

    /// The characters of a string.
    pub open spec fn text(self) -> Option<Seq<char>> {
        match self {
            JsonTree::Text(s) => Some(s),
            _ => None,
        }
    }

    /// The value of a boolean.
    pub open spec fn truth(self) -> Option<bool> {
        match self {
            JsonTree::Bool(b) => Some(b),
            _ => None,
        }
    }
}

/// Trusted: `serde_json::from_str` at type `serde_json::Value`. It succeeds
/// exactly on the texts that are one well-formed JSON document, and the value
/// holds that document's tree.
#[verifier::external_body]
pub(crate) fn parse_json(text: &str) -> (value: Option<serde_json::Value>)
    ensures
        match value {
            Some(v) => json_document(text@) == Some(json_tree(v)),
            None => json_document(text@) is None,
        },
{
    serde_json::from_str::<serde_json::Value>(text).ok()
}

/// Trusted: `serde_json::Value::get` with a string index. It returns the
/// member under `key` if the value is an object that has one, else nothing.
#[verifier::external_body]
pub(crate) fn json_member<'a>(value: &'a serde_json::Value, key: &str) -> (member: Option<
    &'a serde_json::Value,
>)
    ensures
        match member {
            Some(m) => json_tree(*value).member(key@) == Some(json_tree(*m)),
            None => json_tree(*value).member(key@) is None,
        },
{
    value.get(key)
}

/// Trusted: the variant `serde_json::Value::Null`, which is JSON's null.
#[verifier::external_body]
pub(crate) fn json_null() -> (value: serde_json::Value)
    ensures
        json_tree(value) == JsonTree::Null,
{
    serde_json::Value::Null
}

/// Trusted: `serde_json::Map::new` and `serde_json::Map::insert`, with the
/// variants `String` and `Object` of `serde_json::Value`. The value is an
/// object with one member, the string `text` under `key`.
#[verifier::external_body]
pub(crate) fn json_text_member(key: &str, text: &str) -> (value: serde_json::Value)
    ensures
        json_tree(value) == JsonTree::Object(Map::empty().insert(key@, JsonTree::Text(text@))),
{
    let mut members = serde_json::Map::new();
    members.insert(key.to_string(), serde_json::Value::String(text.to_string()));
    serde_json::Value::Object(members)
}

/// Trusted: `serde_json::Value::as_array` returns the elements of an array,
/// and nothing for any other value.
pub assume_specification[ serde_json::Value::as_array ](value: &serde_json::Value) -> (items:
    Option<&Vec<serde_json::Value>>)
    ensures
        match items {
            Some(v) => json_tree(*value).items() == Some(json_trees(v@)),
            None => json_tree(*value).items() is None,
        },
;

/// Trusted: `serde_json::Value::as_u64` returns the value of a number that is
/// an unsigned 64-bit integer, and nothing for any other value.
pub assume_specification[ serde_json::Value::as_u64 ](value: &serde_json::Value) -> (n: Option<
    u64,
>)
    ensures
        n == json_tree(*value).natural(),
;

/// Trusted: `serde_json::Value::as_str` returns the characters of a string,
/// and nothing for any other value.
pub assume_specification[ serde_json::Value::as_str ](value: &serde_json::Value) -> (text: Option<
    &str,
>)
    ensures
        match text {
            Some(s) => json_tree(*value).text() == Some(s@),
            None => json_tree(*value).text() is None,
        },
;

/// Trusted: `serde_json::Value::as_bool` returns the value of a boolean, and
/// nothing for any other value.
pub assume_specification[ serde_json::Value::as_bool ](value: &serde_json::Value) -> (b: Option<
    bool,
>)
    ensures
        b == json_tree(*value).truth(),
;

} // verus!
