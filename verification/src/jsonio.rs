//! Trusted bridge to the serde_json crate.
//!
//! A manifest definition is carried as serde_json's object and value types,
//! which are opaque here. Their contents are reflected into specifications
//! by a few uninterpreted names: what an object maps its keys to, what an
//! array value holds, what a string value says, and — since parsing,
//! inserting, array construction and rendering are all deterministic in
//! their arguments — which value each of those operations returns. Every
//! fact the filtering logic uses about a JSON value comes from one of the
//! thin wrappers below, each relying on one serde_json function.

use vstd::prelude::*;

verus! {

#[verifier::external_type_specification]
#[verifier::external_body]
pub struct ExValue(serde_json::Value);

#[verifier::external_type_specification]
#[verifier::external_body]
#[verifier::reject_recursive_types(K)]
#[verifier::reject_recursive_types(V)]
pub struct ExMap<K, V>(serde_json::Map<K, V>);

#[verifier::external_type_specification]
#[verifier::external_body]
pub struct ExJsonError(serde_json::Error);

/// Whether serde_json parses this text as a JSON object; parsing is a pure
/// function of the text.
pub uninterp spec fn parses_as_object(s: Seq<char>) -> bool;

/// The object that serde_json parses this text into, when it parses.
pub uninterp spec fn parsed_map(s: Seq<char>) -> serde_json::Map<String, serde_json::Value>;

/// What a JSON object holds: the association from its keys to its values.
pub uninterp spec fn obj_entries(m: serde_json::Map<String, serde_json::Value>) -> Map<
    Seq<char>,
    serde_json::Value,
>;

/// What a JSON array value holds, `None` for every other kind of value.
pub uninterp spec fn value_items(v: serde_json::Value) -> Option<Seq<serde_json::Value>>;

/// What a JSON object value holds, `None` for every other kind of value.
pub uninterp spec fn value_entries(v: serde_json::Value) -> Option<
    Map<Seq<char>, serde_json::Value>,
>;

/// What a JSON string value says, `None` for every other kind of value.
pub uninterp spec fn value_str(v: serde_json::Value) -> Option<Seq<char>>;

/// The JSON array value built from these items.
pub uninterp spec fn array_of(items: Seq<serde_json::Value>) -> serde_json::Value;

/// The JSON object obtained by inserting a value under a key.
pub uninterp spec fn obj_with(
    m: serde_json::Map<String, serde_json::Value>,
    key: Seq<char>,
    v: serde_json::Value,
) -> serde_json::Map<String, serde_json::Value>;

/// The text serde_json renders a JSON object to.
pub uninterp spec fn rendered_object(m: serde_json::Map<String, serde_json::Value>) -> Seq<char>;

/// Relies on serde_json::from_str for Map<String, Value>: it succeeds
/// exactly when the text is a JSON object, it depends on nothing but the
/// text, and equal texts parse to the same object.
#[verifier::external_body]
pub(crate) fn parse_object(s: &str) -> (r: Result<
    serde_json::Map<String, serde_json::Value>,
    serde_json::Error,
>)
    ensures
        r is Ok <==> parses_as_object(s@),
        r matches Ok(m) ==> m == parsed_map(s@),
{
    serde_json::from_str(s)
}

/// Relies on serde_json::Map::get: the value under a key of a JSON object.
#[verifier::external_body]
pub(crate) fn object_get<'a>(
    m: &'a serde_json::Map<String, serde_json::Value>,
    key: &str,
) -> (r: Option<&'a serde_json::Value>)
    ensures
        r is Some <==> obj_entries(*m).dom().contains(key@),
        r matches Some(v) ==> obj_entries(*m).dom().contains(key@) && *v == obj_entries(*m)[key@],
{
    m.get(key)
}

/// Relies on serde_json::Map::contains_key.
#[verifier::external_body]
pub(crate) fn object_contains_key(
    m: &serde_json::Map<String, serde_json::Value>,
    key: &str,
) -> (r: bool)
    ensures
        r == obj_entries(*m).dom().contains(key@),
{
    m.contains_key(key)
}

/// Relies on serde_json::Map::insert: it replaces or adds the value under a
/// key, returns what that key held before, and its result is determined by
/// the object, the key and the value.
#[verifier::external_body]
pub(crate) fn object_insert(
    m: &mut serde_json::Map<String, serde_json::Value>,
    key: String,
    value: serde_json::Value,
) -> (r: Option<serde_json::Value>)
    ensures
        *final(m) == obj_with(*old(m), key@, value),
        obj_entries(*final(m)) == obj_entries(*old(m)).insert(key@, value),
        r is Some <==> obj_entries(*old(m)).dom().contains(key@),
        r matches Some(prior) ==> prior == obj_entries(*old(m))[key@],
{
    m.insert(key, value)
}

/// Relies on serde_json's Clone for Map: the copy equals the original.
pub assume_specification[ <serde_json::Map<
    String,
    serde_json::Value,
> as Clone>::clone ](m: &serde_json::Map<String, serde_json::Value>) -> (r: serde_json::Map<
    String,
    serde_json::Value,
>)
    ensures
        r == *m,
;

/// Relies on serde_json's Clone for Value: the copy equals the original.
pub assume_specification[ <serde_json::Value as Clone>::clone ](
    v: &serde_json::Value,
) -> (r: serde_json::Value)
    ensures
        r == *v,
;

/// Relies on serde_json::Value::get with a string index: the field of a
/// JSON object, `None` for a missing field or any non-object value.
#[verifier::external_body]
pub(crate) fn value_get<'a>(v: &'a serde_json::Value, key: &str) -> (r: Option<
    &'a serde_json::Value,
>)
    ensures
        (match value_entries(*v) {
            Option::Some(es) => {
                &&& (r is Some <==> es.dom().contains(key@))
                &&& (r matches Some(f) ==> es.dom().contains(key@) && *f == es[key@])
            },
            Option::None => r is None,
        }),
{
    v.get(key)
}

/// Relies on serde_json::Value::as_array.
#[verifier::external_body]
pub(crate) fn value_as_array<'a>(v: &'a serde_json::Value) -> (r: Option<
    &'a Vec<serde_json::Value>,
>)
    ensures
        r is Some <==> value_items(*v) is Some,
        r matches Some(a) ==> value_items(*v) == Some(a@),
{
    v.as_array()
}

/// Relies on serde_json::Value::as_object.
#[verifier::external_body]
pub(crate) fn value_as_object<'a>(v: &'a serde_json::Value) -> (r: Option<
    &'a serde_json::Map<String, serde_json::Value>,
>)
    ensures
        r is Some <==> value_entries(*v) is Some,
        r matches Some(o) ==> value_entries(*v) == Some(obj_entries(*o)),
{
    v.as_object()
}

/// Relies on serde_json's PartialEq<&str> for Value: true exactly when the
/// value is a JSON string with this text.
#[verifier::external_body]
pub(crate) fn value_equals_str(v: &serde_json::Value, s: &str) -> (r: bool)
    ensures
        r == (value_str(*v) == Some(s@)),
{
    v == s
}

/// Relies on serde_json::Value::from for item vectors: the JSON array of
/// exactly the given items, determined by them.
#[verifier::external_body]
pub(crate) fn array_value(items: Vec<serde_json::Value>) -> (r: serde_json::Value)
    ensures
        r == array_of(items@),
        value_items(r) == Some(items@),
{
    serde_json::Value::from(items)
}

/// Relies on serde_json::to_string: it renders a JSON object to text
/// determined by the object. With string keys, and without serde_json's
/// arbitrary-precision numbers, that serializer has no failing path, so the
/// error case cannot occur.
#[verifier::external_body]
pub(crate) fn serialize_object(m: &serde_json::Map<String, serde_json::Value>) -> (r: String)
    ensures
        r@ == rendered_object(*m),
{
    serde_json::to_string(m).unwrap_or_default()
}

/// The JSON string literal for a text: quoted and escaped as serde_json
/// renders it; a pure function of the characters.
pub uninterp spec fn json_quoted(s: Seq<char>) -> Seq<char>;

/// Relies on serde_json's Display for Value on Value::String: the rendering
/// depends on the characters alone.
#[verifier::external_body]
pub(crate) fn quote_json_string(data: &str) -> (r: String)
    ensures
        r@ == json_quoted(data@),
{
    serde_json::Value::String(data.to_owned()).to_string()
}

} // verus!
