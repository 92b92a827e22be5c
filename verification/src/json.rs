//! JSON values, read through `serde_json`.
//!
//! Nothing in this file is proved. A JSON value stays a `serde_json::Value`;
//! [`json_tree`] names what such a value holds, and each function below
//! makes one call into `serde_json` and says, over that name, what the call
//! returns.

use vstd::prelude::*;

verus! {

/// What a JSON value holds.
pub enum JsonTree {
    Null,
    Bool(bool),
    /// A number. It carries `Some(n)` where `serde_json` holds the number
    /// as an integer from 0 to `u64::MAX`, as it does for one that the text
    /// spells without sign, fraction or exponent.
    Number(Option<u64>),
    Text(Seq<char>),
    Array(Seq<JsonTree>),
    /// An object: the names of its members, each once and in the order in
    /// which the object is walked, and the value under each name.
    Object { names: Seq<Seq<char>>, values: Map<Seq<char>, JsonTree> },
}

impl JsonTree {
    /// The value of the member `key` of an object. Anything but an object
    /// has no members.
    pub open spec fn get(self, key: Seq<char>) -> Option<JsonTree> {
        match self {
            JsonTree::Object { names, values } => if names.contains(key) {
                Some(values[key])
            } else {
                None
            },
            _ => None,
        }
    }

    /// The names of the members of an object.
    pub open spec fn names(self) -> Option<Seq<Seq<char>>> {
        match self {
            JsonTree::Object { names, values } => Some(names),
            _ => None,
        }
    }
}

/// `serde_json::Value`, carried as it is: what it holds is known through
/// [`json_tree`] alone.
#[verifier::external_type_specification]
#[verifier::external_body]
pub struct ExValue(serde_json::Value);

/// `serde_json::Error`, of which nothing is read.
#[verifier::external_type_specification]
#[verifier::external_body]
pub struct ExError(serde_json::Error);

/// What a `serde_json::Value` holds.
pub uninterp spec fn json_tree(value: serde_json::Value) -> JsonTree;

/// The value that `serde_json::from_slice` reads from a text, or `None`
/// where it reports an error.
pub uninterp spec fn json_text(bytes: Seq<u8>) -> Option<JsonTree>;

/// `serde_json::from_slice`, reading a `Value`: the value that the whole of
/// `bytes` is the JSON text of, or an error where it is the text of none.
#[verifier::external_body]
pub(crate) fn decode(bytes: &[u8]) -> (res: Result<serde_json::Value, serde_json::Error>)
    ensures
        match res {
            Ok(value) => json_text(bytes@) == Some(json_tree(value)),
            Err(_) => json_text(bytes@) is None,
        },
{
    serde_json::from_slice(bytes)
}

/// `Value::get` with a string: the value of the member `key` where `value`
/// is an object that has such a member, else `None`.
#[verifier::external_body]
pub(crate) fn member<'a>(value: &'a serde_json::Value, key: &str) -> (found: Option<
    &'a serde_json::Value,
>)
    ensures
        match found {
            Some(inner) => json_tree(*value).get(key@) == Some(json_tree(*inner)),
            None => json_tree(*value).get(key@) is None,
        },
{
    value.get(key)
}

/// `Value::as_object` and `Map::keys`: the names of the members where
/// `value` is an object, in the order in which the map walks them; a map
/// holds each name once.
#[verifier::external_body]
pub(crate) fn member_names(value: &serde_json::Value) -> (found: Option<Vec<String>>)
    ensures
        match found {
            Some(names) => json_tree(*value).names() == Some(names.deep_view())
                && names.deep_view().no_duplicates(),
            None => json_tree(*value).names() is None,
        },
{
    match value.as_object() {
        Some(map) => Some(map.keys().cloned().collect()),
        None => None,
    }
}

/// `Value::as_str`: the text where `value` is a string, else `None`.
#[verifier::external_body]
pub(crate) fn as_text<'a>(value: &'a serde_json::Value) -> (text: Option<&'a str>)
    ensures
        match text {
            Some(s) => json_tree(*value) == JsonTree::Text(s@),
            None => !(json_tree(*value) is Text),
        },
{
    value.as_str()
}

/// `Value::as_u64`: the number where `value` is a number held as an integer
/// from 0 to `u64::MAX`, else `None`.
#[verifier::external_body]
pub(crate) fn as_natural(value: &serde_json::Value) -> (number: Option<u64>)
    ensures
        match number {
            Some(n) => json_tree(*value) == JsonTree::Number(Some(n)),
            None => !(json_tree(*value) matches JsonTree::Number(Some(_))),
        },
{
    value.as_u64()
}

/// `Value::is_null`: whether `value` is the JSON `null`.
#[verifier::external_body]
pub(crate) fn is_null(value: &serde_json::Value) -> (null: bool)
    ensures
        null == (json_tree(*value) is Null),
{
    value.is_null()
}

} // verus!
