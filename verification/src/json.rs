//! JSON documents, read with `serde_json`.
use vstd::prelude::*;

use crate::text::Text;

verus! {

/// A JSON document in the model. Of a number it has the value where that is a
/// whole number that a `u64` holds.
pub enum Json {
    Null,
    Bool(bool),
    Number(Option<u64>),
    Text(Text),
    Array(Seq<Json>),
    Object(Map<Text, Json>),
}

impl Json {
    /// The member `key` of an object; `Null` where there is none.
    pub open spec fn member(self, key: Text) -> Json {
        match self {
            Json::Object(m) => if m.dom().contains(key) {
                m[key]
            } else {
                Json::Null
            },
            _ => Json::Null,
        }
    }

    pub open spec fn number(self) -> Option<u64> {
        match self {
            Json::Number(n) => n,
            _ => None,
        }
    }

    pub open spec fn text(self) -> Option<Text> {
        match self {
            Json::Text(s) => Some(s),
            _ => None,
        }
    }

    pub open spec fn items(self) -> Option<Seq<Json>> {
        match self {
            Json::Array(items) => Some(items),
            _ => None,
        }
    }
}

#[verifier::external_type_specification]
#[verifier::external_body]
pub struct ExValue(serde_json::Value);

/// What a `serde_json::Value` holds.
pub uninterp spec fn tree(v: serde_json::Value) -> Json;

/// What `serde_json::from_str` makes of a text: the document, or the message of
/// the error.
pub uninterp spec fn document(text: Text) -> Result<Json, Text>;

/// `serde_json::from_str` reads a document. Which texts it takes and what they
/// hold is left to it.
#[verifier::external_body]
pub(crate) fn parse(text: &str) -> (r: Result<serde_json::Value, String>)
    ensures
        document(text@) == (match r {
            Ok(v) => Ok(tree(v)),
            Err(e) => Err(e@),
        }),
{
    serde_json::from_str(text).map_err(|e| e.to_string())
}

/// `Value`'s index operator gives the member of an object under a key, and `Null`
/// where the value is no object or has no such member.
#[verifier::external_body]
pub(crate) fn member<'a>(v: &'a serde_json::Value, key: &str) -> (r: &'a serde_json::Value)
    ensures
        tree(*r) == tree(*v).member(key@),
{
    &v[key]
}

/// `Value::as_u64` gives a number where it is a whole one that a `u64` holds.
#[verifier::external_body]
pub(crate) fn number(v: &serde_json::Value) -> (r: Option<u64>)
    ensures
        r == tree(*v).number(),
{
    v.as_u64()
}

/// `Value::as_str` gives the text of a string.
#[verifier::external_body]
pub(crate) fn text(v: &serde_json::Value) -> (r: Option<&str>)
    ensures
        (match r {
            Some(s) => Some(s@),
            None => None,
        }) == tree(*v).text(),
{
    v.as_str()
}

/// `Value::as_array` gives the items of an array.
#[verifier::external_body]
pub(crate) fn items(v: &serde_json::Value) -> (r: Option<&Vec<serde_json::Value>>)
    ensures
        (match r {
            Some(a) => Some(a@.map_values(|x: serde_json::Value| tree(x))),
            None => None,
        }) == tree(*v).items(),
{
    v.as_array()
}

} // verus!
