//! A JSON document as the normalization rules see it, and the calls into
//! serde_json that read and write JSON text.

use vstd::prelude::*;

verus! {

/// A JSON number, carried through unchanged.
#[verifier::external_type_specification]
#[verifier::external_body]
pub struct ExNumber(serde_json::Number);

/// A JSON value as serde_json hands it out.
#[verifier::external_type_specification]
#[verifier::external_body]
pub struct ExValue(serde_json::Value);

/// A JSON value.
///
/// The members of an object keep the order in which serde_json reads them
/// (sorted by key).
#[derive(Debug)]
pub enum Json {
    /// `null`
    Null,
    /// `true` or `false`
    Bool(bool),
    /// A number
    Number(serde_json::Number),
    /// A string
    Str(String),
    /// An array
    Array(Vec<Json>),
    /// An object, as its members
    Object(Vec<(String, Json)>),
}

/// The document that serde_json reads from `text`, if the text is JSON.
pub uninterp spec fn json_parse(text: Seq<char>) -> Option<Json>;

/// The compact JSON text that serde_json writes for `j`.
pub uninterp spec fn json_render(j: Json) -> Seq<char>;

/// Relies on the variants of serde_json::Value and on serde_json::Map's
/// iteration (key order): moves the value into a `Json`, variant for variant.
/// Only `parse_json` calls it.
#[verifier::external_body]
fn json_from_value(v: serde_json::Value) -> Json {
    match v {
        serde_json::Value::Null => Json::Null,
        serde_json::Value::Bool(b) => Json::Bool(b),
        serde_json::Value::Number(n) => Json::Number(n),
        serde_json::Value::String(s) => Json::Str(s),
        serde_json::Value::Array(a) => Json::Array(a.into_iter().map(json_from_value).collect()),
        serde_json::Value::Object(m) => Json::Object(
            m.into_iter().map(|(k, x)| (k, json_from_value(x))).collect(),
        ),
    }
}

/// Relies on the variants of serde_json::Value and on collecting into a
/// serde_json::Map: copies a `Json` into a value, variant for variant. Only
/// `render_json` calls it.
#[verifier::external_body]
fn json_to_value(j: &Json) -> serde_json::Value {
    match j {
        Json::Null => serde_json::Value::Null,
        Json::Bool(b) => serde_json::Value::Bool(*b),
        Json::Number(n) => serde_json::Value::Number(n.clone()),
        Json::Str(s) => serde_json::Value::String(s.clone()),
        Json::Array(a) => serde_json::Value::Array(a.iter().map(json_to_value).collect()),
        Json::Object(m) => serde_json::Value::Object(
            m.iter().map(|(k, x)| (k.clone(), json_to_value(x))).collect(),
        ),
    }
}

/// Relies on serde_json::from_str into a serde_json::Value: the document
/// that the text holds, or `None` where the text is not JSON.
#[verifier::external_body]
pub(crate) fn parse_json(text: &str) -> (r: Option<Json>)
    ensures
        r == json_parse(text@),
{
    serde_json::from_str::<serde_json::Value>(text).ok().map(json_from_value)
}

/// Relies on serde_json::Value's Display impl: the compact JSON text of the
/// value, with the members of each object in key order.
#[verifier::external_body]
pub(crate) fn render_json(j: &Json) -> (r: String)
    ensures
        r@ == json_render(*j),
{
    json_to_value(j).to_string()
}

} // verus!
