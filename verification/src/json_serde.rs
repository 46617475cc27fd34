//! The bridge between [`Json`] and serde_json: text is parsed and written
//! by serde_json itself; only the change of value type happens here.

use vstd::prelude::*;

use crate::json::{jv, Json, JsonV};

verus! {

#[verifier::external_type_specification]
#[verifier::external_body]
pub struct ExSerdeValue(serde_json::Value);

/// What `serde_json::to_string` writes for the serde_json value that `j`
/// stands for (`None` if it reports an error). Object members go into a
/// serde_json map, so a repeated key keeps its last value and members come
/// out in serde_json's map order.
pub uninterp spec fn json_serialized(j: JsonV) -> Option<Seq<char>>;

/// What `serde_json::from_str::<serde_json::Value>` reads from `s`, as a
/// [`JsonV`] (`None` if it reports an error). Numbers serde_json holds as
/// integers (those in the `i64` or `u64` range) read as `Int`; every other
/// number, larger integers included (serde_json reads those as floats),
/// reads as `Decimal` with serde_json's text for it.
pub uninterp spec fn json_parsed(s: Seq<char>) -> Option<JsonV>;

/// The serde_json value that `j` stands for: one variant for one variant.
/// An `Int` outside the range serde_json holds, or a `Decimal` whose text
/// is not a JSON number, becomes `null`.
#[verifier::external_body]
fn to_serde(j: &Json) -> serde_json::Value {
    match j {
        Json::Null => serde_json::Value::Null,
        Json::Bool(b) => serde_json::Value::Bool(*b),
        Json::Int(n) => serde_json::Number::from_i128(*n).map_or(serde_json::Value::Null, serde_json::Value::Number),
        Json::Decimal(s) => s.parse::<serde_json::Number>().map_or(serde_json::Value::Null, serde_json::Value::Number),
        Json::Str(s) => serde_json::Value::String(s.clone()),
        Json::Array(v) => serde_json::Value::Array(v.iter().map(to_serde).collect()),
        Json::Object(es) => serde_json::Value::Object(es.iter().map(|(k, v)| (k.clone(), to_serde(v))).collect()),
    }
}

/// The [`Json`] that a serde_json value stands for: one variant for one
/// variant.
#[verifier::external_body]
fn from_serde(v: serde_json::Value) -> Json {
    match v {
        serde_json::Value::Null => Json::Null,
        serde_json::Value::Bool(b) => Json::Bool(b),
        serde_json::Value::Number(n) => n.as_i128().map_or_else(|| Json::Decimal(n.to_string()), Json::Int),
        serde_json::Value::String(s) => Json::Str(s),
        serde_json::Value::Array(a) => Json::Array(a.into_iter().map(from_serde).collect()),
        serde_json::Value::Object(m) => Json::Object(m.into_iter().map(|(k, v)| (k, from_serde(v))).collect()),
    }
}

/// `serde_json::to_string` on the value `j` stands for. The contract names
/// the text; it does not say what the text is.
#[verifier::external_body]
pub fn serialize_json(j: &Json) -> (r: Option<String>)
    ensures
        match json_serialized(jv(*j)) {
            Some(t) => r matches Some(s) && s@ == t,
            None => r is None,
        },
{
    serde_json::to_string(&to_serde(j)).ok()
}

/// `serde_json::from_str` of `s` as a JSON value. The contract names the
/// value read; it does not say how the text is read.
#[verifier::external_body]
pub fn parse_json(s: &str) -> (r: Option<Json>)
    ensures
        match json_parsed(s@) {
            Some(v) => r matches Some(j) && jv(j) == v,
            None => r is None,
        },
{
    serde_json::from_str::<serde_json::Value>(s).ok().map(from_serde)
}

} // verus!
