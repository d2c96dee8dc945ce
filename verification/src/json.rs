//! JSON values and objects, as `serde_json` builds and writes them.
//!
//! The library builds values through the functions of this module, writes them as
//! text, and never looks inside a value again.
use vstd::prelude::*;

verus! {

/// `serde_json::Map`, the object type of `serde_json`.
#[verifier::external_type_specification]
#[verifier::external_body]
#[verifier::reject_recursive_types(K)]
#[verifier::reject_recursive_types(V)]
pub struct ExJsonMap<K, V>(serde_json::Map<K, V>);

/// `serde_json::Value`, any JSON value.
#[verifier::external_type_specification]
#[verifier::external_body]
pub struct ExJsonValue(serde_json::Value);

/// `serde_json::Error`, what a failed parse or a failed serialization reports.
#[verifier::external_type_specification]
#[verifier::external_body]
pub struct ExJsonError(serde_json::Error);

/// What a JSON value holds.
pub enum JsonView {
    /// A string.
    Text(Seq<char>),
    /// An object: for each of its keys, what the value under that key holds.
    Object(Map<Seq<char>, JsonView>),
    /// Any other value, as its compact JSON text.
    Other(Seq<char>),
}

/// What a value holds.
pub uninterp spec fn json_value(value: serde_json::Value) -> JsonView;

/// What an object holds: for each of its keys, what the value under that key
/// holds.
pub uninterp spec fn json_fields(
    object: serde_json::Map<String, serde_json::Value>,
) -> Map<Seq<char>, JsonView>;

/// The compact JSON text of a value: strings and keys quoted, with escapes where
/// JSON asks for them, and the keys of an object in the order of their bytes.
pub uninterp spec fn json_text(value: JsonView) -> Seq<char>;

/// The fields of an object without any key.
pub open spec fn no_fields() -> Map<Seq<char>, JsonView> {
    Map::empty()
}

/// Calls `serde_json::Map::new`, which makes an object without any key.
#[verifier::external_body]
pub(crate) fn new_object() -> (res: serde_json::Map<String, serde_json::Value>)
    ensures
        json_fields(res) == no_fields(),
{
    serde_json::Map::new()
}

/// Calls `serde_json::Map::insert`, which puts the value under the key, in the
/// place of any value that was there, and leaves every other key as it was.
#[verifier::external_body]
pub(crate) fn insert_field(
    object: &mut serde_json::Map<String, serde_json::Value>,
    key: &str,
    value: serde_json::Value,
)
    ensures
        json_fields(*final(object)) == json_fields(*old(object)).insert(key@, json_value(value)),
{
    object.insert(key.to_owned(), value);
}

/// Makes a `serde_json::Value::String`, which holds the string.
#[verifier::external_body]
pub(crate) fn text_value(text: &str) -> (res: serde_json::Value)
    ensures
        json_value(res) == JsonView::Text(text@),
{
    serde_json::Value::String(text.to_owned())
}

/// Makes a `serde_json::Value::Object`, which holds the fields of the object.
#[verifier::external_body]
pub(crate) fn object_value(
    object: serde_json::Map<String, serde_json::Value>,
) -> (res: serde_json::Value)
    ensures
        json_value(res) == JsonView::Object(json_fields(object)),
{
    serde_json::Value::Object(object)
}

/// Calls `serde_json::to_string` on a value, which writes its compact JSON text.
///
/// Writing a value cannot fail: an object has string keys only, a number is
/// finite, and the text goes to memory. A control character inside a string or
/// a key is written as an escape, so the text holds no NUL character.
#[verifier::external_body]
pub(crate) fn value_text(value: &serde_json::Value) -> (res: Result<String, serde_json::Error>)
    ensures
        res is Ok,
        res->Ok_0@ == json_text(json_value(*value)),
        !res->Ok_0@.contains('\0'),
{
    serde_json::to_string(value)
}

} // verus!
