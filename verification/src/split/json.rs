use vstd::prelude::*;

verus! {

/// serde_json's dynamic JSON document type. It is opaque here: values of
/// it are carried through whole and taken apart only by the wrappers in
/// this module, whose results the names below stand for.
#[verifier::external_type_specification]
#[verifier::external_body]
pub struct ExValue(serde_json::Value);

/// serde_json's JSON object representation, a map from field name to value.
#[verifier::external_type_specification]
#[verifier::external_body]
#[verifier::reject_recursive_types(K)]
#[verifier::reject_recursive_types(V)]
pub struct ExMap<K, V>(serde_json::Map<K, V>);

// What each outside call returns is a function of its arguments alone —
// parsing, rendering and the object operations are deterministic — so
// each gets a name. Nothing further is assumed of the names: the library
// states its parse and render results as compositions of them.

/// The document serde_json::from_slice reads out of the bytes, when they
/// are valid JSON.
pub uninterp spec fn json_doc(bytes: Seq<u8>) -> Option<serde_json::Value>;

/// The JSON text serde_json::to_vec renders a document as.
pub uninterp spec fn json_bytes(v: serde_json::Value) -> Seq<u8>;

/// The elements of `v`, when `v` is an array.
pub uninterp spec fn json_array_items(v: serde_json::Value) -> Option<Seq<serde_json::Value>>;

/// The fields of `v`, when `v` is an object.
pub uninterp spec fn json_object_fields(v: serde_json::Value) -> Option<
    serde_json::Map<String, serde_json::Value>,
>;

/// The payload of `v`, when `v` is a boolean.
pub uninterp spec fn json_bool_payload(v: serde_json::Value) -> Option<bool>;

/// The payload of `v`, when `v` is a string.
pub uninterp spec fn json_string_payload(v: serde_json::Value) -> Option<Seq<char>>;

/// Whether `v` is the JSON null.
pub uninterp spec fn json_is_null(v: serde_json::Value) -> bool;

/// The boolean document holding `b`.
pub uninterp spec fn json_bool(b: bool) -> serde_json::Value;

/// The string document holding `s`.
pub uninterp spec fn json_string(s: Seq<char>) -> serde_json::Value;

/// The array document holding `items`.
pub uninterp spec fn json_array(items: Seq<serde_json::Value>) -> serde_json::Value;

/// The object document holding `fields`.
pub uninterp spec fn json_object(fields: serde_json::Map<String, serde_json::Value>) -> serde_json::Value;

/// The empty object serde_json::Map::with_capacity returns: its backing
/// map takes no capacity hint, so every argument yields the one empty
/// object.
pub uninterp spec fn obj_fresh(capacity: int) -> serde_json::Map<String, serde_json::Value>;

/// What the object holds under `key` — the contents name the object
/// wrappers below speak of.
pub uninterp spec fn obj_found(
    fields: serde_json::Map<String, serde_json::Value>,
    key: Seq<char>,
) -> Option<serde_json::Value>;

/// The object after `key` is taken out.
pub uninterp spec fn obj_removed(
    fields: serde_json::Map<String, serde_json::Value>,
    key: Seq<char>,
) -> serde_json::Map<String, serde_json::Value>;

/// The object after `v` is put in under `key`.
pub uninterp spec fn obj_inserted(
    fields: serde_json::Map<String, serde_json::Value>,
    key: Seq<char>,
    v: serde_json::Value,
) -> serde_json::Map<String, serde_json::Value>;

/// Relies on serde_json::from_slice: parses `bytes` as one JSON document;
/// fails exactly when the bytes are not a valid JSON document.
#[verifier::external_body]
pub(crate) fn value_from_slice(bytes: &[u8]) -> (r: Option<serde_json::Value>)
    ensures
        r == json_doc(bytes@),
{
    serde_json::from_slice(bytes).ok()
}

/// Relies on serde_json::to_vec: renders the document as JSON text.
/// Serializing a `Value` has no failing path — its maps are keyed by
/// strings and its serializer never errors — so the call always succeeds.
#[verifier::external_body]
pub(crate) fn value_to_bytes(v: &serde_json::Value) -> (r: Option<Vec<u8>>)
    ensures
        r is Some,
        r matches Some(bytes) ==> bytes@ == json_bytes(*v),
{
    serde_json::to_vec(v).ok()
}

/// Relies on serde_json::Value: the elements of an array, or the value
/// itself when it is not one.
#[verifier::external_body]
pub(crate) fn value_into_array(v: serde_json::Value) -> (r: Result<
    Vec<serde_json::Value>,
    serde_json::Value,
>)
    ensures
        r matches Ok(items) ==> json_array_items(v) == Some(items@),
        r matches Err(w) ==> w == v && json_array_items(v) is None,
{
    match v {
        serde_json::Value::Array(items) => Ok(items),
        other => Err(other),
    }
}

/// Relies on serde_json::Value: the fields of an object, or the value
/// itself when it is not one.
#[verifier::external_body]
pub(crate) fn value_into_object(v: serde_json::Value) -> (r: Result<
    serde_json::Map<String, serde_json::Value>,
    serde_json::Value,
>)
    ensures
        r matches Ok(fields) ==> json_object_fields(v) == Some(fields),
        r matches Err(w) ==> w == v && json_object_fields(v) is None,
{
    match v {
        serde_json::Value::Object(fields) => Ok(fields),
        other => Err(other),
    }
}

/// Relies on serde_json::Value: the payload of a boolean.
#[verifier::external_body]
pub(crate) fn value_into_bool(v: serde_json::Value) -> (r: Option<bool>)
    ensures
        r == json_bool_payload(v),
{
    match v {
        serde_json::Value::Bool(b) => Some(b),
        _ => None,
    }
}

/// Relies on serde_json::Value: the payload of a string.
#[verifier::external_body]
pub(crate) fn value_into_string(v: serde_json::Value) -> (r: Option<String>)
    ensures
        r matches Some(s) ==> json_string_payload(v) == Some(s@),
        r is None ==> json_string_payload(v) is None,
{
    match v {
        serde_json::Value::String(s) => Some(s),
        _ => None,
    }
}

/// Relies on serde_json::Value::is_null.
#[verifier::external_body]
pub(crate) fn value_is_null(v: &serde_json::Value) -> (r: bool)
    ensures
        r == json_is_null(*v),
{
    v.is_null()
}

/// Relies on serde_json::Map::with_capacity: the empty object (the
/// BTreeMap behind it ignores the capacity hint).
#[verifier::external_body]
pub(crate) fn object_with_capacity(capacity: usize) -> (r: serde_json::Map<
    String,
    serde_json::Value,
>)
    ensures
        r == obj_fresh(capacity as int),
{
    serde_json::Map::with_capacity(capacity)
}

/// Relies on serde_json::Map::remove: takes the named field out of the
/// object, handing back what was under it.
#[verifier::external_body]
pub(crate) fn object_remove(
    fields: &mut serde_json::Map<String, serde_json::Value>,
    key: &str,
) -> (r: Option<serde_json::Value>)
    ensures
        *final(fields) == obj_removed(*old(fields), key@),
        r == obj_found(*old(fields), key@),
{
    fields.remove(key)
}

/// Relies on serde_json::Map::insert: puts the named field into the
/// object, handing back what it displaced.
#[verifier::external_body]
pub(crate) fn object_insert(
    fields: &mut serde_json::Map<String, serde_json::Value>,
    key: &str,
    v: serde_json::Value,
) -> (r: Option<serde_json::Value>)
    ensures
        *final(fields) == obj_inserted(*old(fields), key@, v),
        r == obj_found(*old(fields), key@),
{
    fields.insert(key.to_string(), v)
}

/// A JSON boolean.
#[verifier::external_body]
pub(crate) fn value_of_bool(b: bool) -> (r: serde_json::Value)
    ensures
        r == json_bool(b),
{
    serde_json::Value::Bool(b)
}

/// A JSON string.
#[verifier::external_body]
pub(crate) fn value_of_string(s: String) -> (r: serde_json::Value)
    ensures
        r == json_string(s@),
{
    serde_json::Value::String(s)
}

/// A JSON array.
#[verifier::external_body]
pub(crate) fn value_of_array(items: Vec<serde_json::Value>) -> (r: serde_json::Value)
    ensures
        r == json_array(items@),
{
    serde_json::Value::Array(items)
}

/// A JSON object.
#[verifier::external_body]
pub(crate) fn value_of_object(fields: serde_json::Map<String, serde_json::Value>) -> (r:
    serde_json::Value)
    ensures
        r == json_object(fields),
{
    serde_json::Value::Object(fields)
}

} // verus!
