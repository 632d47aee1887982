//! A plain in-memory model of a JSON document, and the one trusted call
//! that produces it from document text.
//!
//! The parser's logic only ever asks of a JSON node whether it is an
//! unsigned integer, a string, an array or an object, so the model folds
//! every other number (negative, fractional) into [`JsonValue::NonUInt`]:
//! such a value mismatches every field the parser reads.

use vstd::prelude::*;

use crate::error::GltfError;

verus! {

/// One JSON node, held as plain values.
#[derive(Debug, PartialEq, Eq)]
pub enum JsonValue {
    /// A JSON `null`.
    Null,
    /// A JSON boolean.
    Bool(bool),
    /// A JSON number that is an unsigned 64-bit integer.
    UInt(u64),
    /// Any other JSON number (negative or fractional).
    NonUInt,
    /// A JSON string.
    Str(String),
    /// A JSON array.
    Arr(Vec<JsonValue>),
    /// A JSON object, as its key/value pairs. As the trusted parser
    /// produces it the keys are unique and sorted, duplicates in the text
    /// already resolved; lookup is first-match and depends on no order.
    Obj(Vec<(String, JsonValue)>),
}

/// The first value bound to `key` among an object's fields, if any.
pub open spec fn spec_lookup(fields: Seq<(String, JsonValue)>, key: Seq<char>) -> Option<JsonValue>
    decreases fields.len(),
{
    if fields.len() == 0 {
        None
    } else if fields[0].0@ == key {
        Some(fields[0].1)
    } else {
        spec_lookup(fields.drop_first(), key)
    }
}

/// The value of field `key` of `v`, when `v` is an object that has it.
/// Mirrors how the parser asks a generic JSON value for a field: on
/// anything but an object the answer is `None`.
pub open spec fn spec_get(v: JsonValue, key: Seq<char>) -> Option<JsonValue> {
    match v {
        JsonValue::Obj(fields) => spec_lookup(fields@, key),
        _ => None,
    }
}

/// Finds the first field named `key` in an object's field list.
pub fn lookup<'a>(fields: &'a Vec<(String, JsonValue)>, key: &String) -> (r: Option<&'a JsonValue>)
    ensures
        match r {
            Some(f) => spec_lookup(fields@, key@) == Some(*f),
            None => spec_lookup(fields@, key@) is None,
        },
{
    let n = fields.len();
    let mut i: usize = 0;
    assert(fields@.skip(0) =~= fields@);
    while i < n
        invariant
            i <= n,
            spec_lookup(fields@, key@) == spec_lookup(fields@.skip(i as int), key@),
        decreases n - i,
    {
        if fields[i].0 == *key {
            assert(fields@.skip(i as int)[0] == fields@[i as int]);
            return Some(&fields[i].1);
        }
        assert(fields@.skip(i as int).drop_first() =~= fields@.skip(i as int + 1));
        i = i + 1;
    }
    None
}

/// The value of field `key` of `v`, when `v` is an object that has it.
pub fn get<'a>(v: &'a JsonValue, key: &String) -> (r: Option<&'a JsonValue>)
    ensures
        match r {
            Some(f) => spec_get(*v, key@) == Some(*f),
            None => spec_get(*v, key@) is None,
        },
{
    match v {
        JsonValue::Obj(fields) => lookup(fields, key),
        _ => None,
    }
}

/// What JSON parsing yields on a given text: the document's value model,
/// or the line and column of the first syntax error. The result depends on
/// the text alone.
pub uninterp spec fn json_of(text: Seq<char>) -> Result<JsonValue, (usize, usize)>;

#[verifier::external_type_specification]
#[verifier::external_body]
pub struct ExValue(serde_json::Value);

/// Relies on `serde_json::Value`: each node of the parsed tree is carried
/// over to the library's variant of the same kind, one arm per variant;
/// numbers that are not unsigned 64-bit integers become `NonUInt`.
#[verifier::external_body]
fn value_to_json(v: serde_json::Value) -> JsonValue {
    match v {
        serde_json::Value::Null => JsonValue::Null,
        serde_json::Value::Bool(b) => JsonValue::Bool(b),
        serde_json::Value::Number(n) => match n.as_u64() {
            Some(u) => JsonValue::UInt(u),
            None => JsonValue::NonUInt,
        },
        serde_json::Value::String(s) => JsonValue::Str(s),
        serde_json::Value::Array(a) => JsonValue::Arr(a.into_iter().map(value_to_json).collect()),
        serde_json::Value::Object(m) => JsonValue::Obj(
            m.into_iter().map(|(k, x)| (k, value_to_json(x))).collect(),
        ),
    }
}

/// Relies on `serde_json::from_str::<serde_json::Value>`: parsing is a
/// deterministic function of the text; it fails exactly on text that is
/// not well-formed JSON, and its error reports a line and column.
#[verifier::external_body]
fn parse_json_text(text: &str) -> (r: Result<JsonValue, (usize, usize)>)
    ensures
        r == json_of(text@),
{
    match serde_json::from_str::<serde_json::Value>(text) {
        Ok(v) => Ok(value_to_json(v)),
        Err(e) => Err((e.line(), e.column())),
    }
}

/// Parses document text into the library's JSON model.
///
/// Succeeds exactly when the text is well-formed JSON; on failure the
/// error carries the syntax error's line and column.
pub fn parse_json_document(text: &str) -> (r: Result<JsonValue, GltfError>)
    ensures
        match json_of(text@) {
            Ok(v) => r == Ok::<JsonValue, GltfError>(v),
            Err(pos) => r == Err::<JsonValue, GltfError>(
                GltfError::JsonSyntax { line: pos.0, column: pos.1 },
            ),
        },
{
    match parse_json_text(text) {
        Ok(v) => Ok(v),
        Err(pos) => Err(GltfError::JsonSyntax { line: pos.0, column: pos.1 }),
    }
}

} // verus!
