//! What the library takes on trust about `serde_json`.
//!
//! Nothing in this file is proved. Each item says what it claims of the code
//! it stands for.

use vstd::prelude::*;

verus! {

/// `serde_json::Value`, carried as an opaque value.
#[verifier::external_type_specification]
#[verifier::external_body]
pub struct ExJsonValue(serde_json::Value);

/// `serde_json::Error`, carried as an opaque value.
#[verifier::external_type_specification]
#[verifier::external_body]
pub struct ExJsonError(serde_json::Error);

/// The value that `serde_json::from_str` reads from a text, and `None`
/// where it rejects the text. The parser looks at nothing but the text.
pub uninterp spec fn parsed_json(text: Seq<char>) -> Option<serde_json::Value>;

/// Parses one JSON text with `serde_json::from_str`. The claim is that the
/// outcome depends on the text alone: the same text is always accepted with
/// the same value or always rejected.
#[verifier::external_body]
pub(crate) fn parse_json(text: &str) -> (parsed: Result<serde_json::Value, serde_json::Error>)
    ensures
        parsed is Ok <==> parsed_json(text@) is Some,
        parsed matches Ok(value) ==> parsed_json(text@) == Some(value),
{
    serde_json::from_str(text)
}

/// The JSON string that `serde_json::Value::String` makes of a text.
pub uninterp spec fn text_value(text: Seq<char>) -> serde_json::Value;

/// The JSON array that `serde_json::Value::Array` makes of values, in their
/// order.
pub uninterp spec fn list_value(items: Seq<serde_json::Value>) -> serde_json::Value;

/// The compact text that `serde_json` writes for the object made of these
/// members: what `Value::Object` of the collected members displays as. It
/// depends on the members alone; the object keeps one value for a key, and
/// writes its keys in the order of the map it is built on.
pub uninterp spec fn object_text(members: Seq<(Seq<char>, serde_json::Value)>) -> Seq<char>;

/// The members that a list of keys and values stands for.
pub open spec fn members_of(members: Seq<(String, serde_json::Value)>) -> Seq<
    (Seq<char>, serde_json::Value),
> {
    members.map_values(|m: (String, serde_json::Value)| (m.0@, m.1))
}

/// Makes a JSON string with `serde_json::Value::String`. The claim is that
/// the value depends on the text alone.
#[verifier::external_body]
pub(crate) fn json_text(text: &str) -> (value: serde_json::Value)
    ensures
        value == text_value(text@),
{
    serde_json::Value::String(text.to_owned())
}

/// Makes a JSON array with `serde_json::Value::Array`. The claim is that the
/// value depends on the items and their order alone.
#[verifier::external_body]
pub(crate) fn json_list(items: Vec<serde_json::Value>) -> (value: serde_json::Value)
    ensures
        value == list_value(items@),
{
    serde_json::Value::Array(items)
}

/// Collects the members into a `serde_json::Map`, makes a
/// `serde_json::Value::Object` of it and writes it out with the value's
/// `Display`. The claim is that the text depends on the members alone.
#[verifier::external_body]
pub(crate) fn json_object_text(members: Vec<(String, serde_json::Value)>) -> (text: String)
    ensures
        text@ == object_text(members_of(members@)),
{
    serde_json::Value::Object(members.into_iter().collect()).to_string()
}

} // verus!
