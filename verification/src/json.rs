//! JSON documents (`serde_json::Value`) as the library reads and edits them.
//!
//! A document is opaque here: what the library knows of one is what the names below say of
//! it — which text parses, to which document, which members an object has, and what a member
//! holds as a boolean, a string or an unsigned integer.

use vstd::prelude::*;

verus! {

/// A JSON document (`serde_json::Value`).
#[verifier::external_type_specification]
#[verifier::external_body]
pub struct ExJsonValue(serde_json::Value);

/// A JSON object's members (`serde_json::Map`).
#[verifier::external_type_specification]
#[verifier::external_body]
#[verifier::reject_recursive_types(K)]
#[verifier::reject_recursive_types(V)]
pub struct ExJsonMap<K, V>(serde_json::Map<K, V>);

/// A JSON syntax error (`serde_json::Error`), carried through for its message.
#[verifier::external_type_specification]
#[verifier::external_body]
pub struct ExJsonError(serde_json::Error);

/// Whether `text` is one well-formed JSON document (surrounding whitespace allowed).
pub uninterp spec fn json_valid(text: Seq<char>) -> bool;

/// The document that the text `text` parses to.
pub uninterp spec fn json_doc(text: Seq<char>) -> serde_json::Value;

/// Whether the bytes `bytes` are one well-formed JSON document.
pub uninterp spec fn json_valid_bytes(bytes: Seq<u8>) -> bool;

/// The document that the bytes `bytes` parse to.
pub uninterp spec fn json_doc_bytes(bytes: Seq<u8>) -> serde_json::Value;

/// Whether the document `v` is an object.
pub uninterp spec fn json_is_object(v: serde_json::Value) -> bool;

/// The member `key` of the document `v`: `None` unless `v` is an object with that key.
pub uninterp spec fn json_member(v: serde_json::Value, key: Seq<char>) -> Option<serde_json::Value>;

/// The boolean the document `v` is, if it is one.
pub uninterp spec fn json_bool(v: serde_json::Value) -> Option<bool>;

/// The string the document `v` is, if it is one.
pub uninterp spec fn json_str(v: serde_json::Value) -> Option<Seq<char>>;

/// The unsigned integer the document `v` is, if it is a number that fits in a `u64`.
pub uninterp spec fn json_u64(v: serde_json::Value) -> Option<u64>;

/// The member `key` of the object members `m`.
pub uninterp spec fn map_member(m: serde_json::Map<String, serde_json::Value>, key: Seq<char>) -> Option<serde_json::Value>;

/// The items of the document `v`, if it is an array.
pub uninterp spec fn json_items(v: serde_json::Value) -> Option<Seq<serde_json::Value>>;

/// The pretty-printed text of the document `v` (two-space indentation).
pub uninterp spec fn json_pretty(v: serde_json::Value) -> Seq<char>;

/// `serde_json::from_str::<serde_json::Value>`: it succeeds exactly on the texts that
/// [`json_valid`] accepts, with the document [`json_doc`] names.
#[verifier::external_body]
pub(crate) fn parse_json(text: &str) -> (r: Result<serde_json::Value, serde_json::Error>)
    ensures
        r is Ok <==> json_valid(text@),
        r matches Ok(v) ==> v == json_doc(text@),
{
    serde_json::from_str::<serde_json::Value>(text)
}

/// `serde_json::from_slice::<serde_json::Value>`: it succeeds exactly on the bytes that
/// [`json_valid_bytes`] accepts, with the document [`json_doc_bytes`] names.
#[verifier::external_body]
pub(crate) fn parse_json_bytes(bytes: &[u8]) -> (r: Result<serde_json::Value, serde_json::Error>)
    ensures
        r is Ok <==> json_valid_bytes(bytes@),
        r matches Ok(v) ==> v == json_doc_bytes(bytes@),
{
    serde_json::from_slice::<serde_json::Value>(bytes)
}

/// `Value::is_object`.
#[verifier::external_body]
pub(crate) fn is_object(v: &serde_json::Value) -> (b: bool)
    ensures
        b == json_is_object(*v),
{
    v.is_object()
}

/// `Value::get` with a string key: the member, which only an object can have.
#[verifier::external_body]
pub(crate) fn get_member<'a>(v: &'a serde_json::Value, key: &str) -> (r: Option<&'a serde_json::Value>)
    ensures
        match r {
            Some(m) => json_member(*v, key@) == Some(*m),
            None => json_member(*v, key@) is None,
        },
        !json_is_object(*v) ==> r is None,
{
    v.get(key)
}

/// `Value::as_bool`.
#[verifier::external_body]
pub(crate) fn as_bool(v: &serde_json::Value) -> (r: Option<bool>)
    ensures
        r == json_bool(*v),
{
    v.as_bool()
}

/// `Value::as_str`.
#[verifier::external_body]
pub(crate) fn as_str<'a>(v: &'a serde_json::Value) -> (r: Option<&'a str>)
    ensures
        match r {
            Some(s) => json_str(*v) == Some(s@),
            None => json_str(*v) is None,
        },
{
    v.as_str()
}

/// `Value::as_u64`.
#[verifier::external_body]
pub(crate) fn as_u64(v: &serde_json::Value) -> (r: Option<u64>)
    ensures
        r == json_u64(*v),
{
    v.as_u64()
}


/// `serde_json::Map::new`: no members.
#[verifier::external_body]
pub(crate) fn new_map() -> (r: serde_json::Map<String, serde_json::Value>)
    ensures
        forall|k: Seq<char>| #[trigger] map_member(r, k) is None,
{
    serde_json::Map::new()
}

/// The members of an object document, taken out of it (`Value::Object`'s field); `None` for
/// any other document.
#[verifier::external_body]
pub(crate) fn object_of(v: serde_json::Value) -> (r: Option<serde_json::Map<String, serde_json::Value>>)
    ensures
        r is Some <==> json_is_object(v),
        r matches Some(m) ==> forall|k: Seq<char>| #[trigger] map_member(m, k) == json_member(v, k),
{
    match v {
        serde_json::Value::Object(m) => Some(m),
        _ => None,
    }
}

/// The object document with the members `m` (`Value::Object`).
#[verifier::external_body]
pub(crate) fn object_value(m: serde_json::Map<String, serde_json::Value>) -> (r: serde_json::Value)
    ensures
        json_is_object(r),
        forall|k: Seq<char>| #[trigger] json_member(r, k) == map_member(m, k),
{
    serde_json::Value::Object(m)
}

/// The string document `s` (`Value::String`).
#[verifier::external_body]
pub(crate) fn string_value(s: &str) -> (r: serde_json::Value)
    ensures
        json_str(r) == Some(s@),
{
    serde_json::Value::String(s.to_owned())
}

/// The array document with the items `items` (`Value::Array`).
#[verifier::external_body]
pub(crate) fn array_value(items: Vec<serde_json::Value>) -> (r: serde_json::Value)
    ensures
        json_items(r) == Some(items@),
{
    serde_json::Value::Array(items)
}

/// `Map::remove`: takes the member `key` out, leaving the others.
#[verifier::external_body]
pub(crate) fn map_remove(m: &mut serde_json::Map<String, serde_json::Value>, key: &str) -> (r: Option<serde_json::Value>)
    ensures
        r == map_member(*old(m), key@),
        map_member(*final(m), key@) is None,
        forall|k: Seq<char>| k != key@ ==> #[trigger] map_member(*final(m), k) == map_member(*old(m), k),
{
    m.remove(key)
}

/// `Map::insert`: sets the member `key` to `v`, leaving the others.
#[verifier::external_body]
pub(crate) fn map_insert(m: &mut serde_json::Map<String, serde_json::Value>, key: &str, v: serde_json::Value)
    ensures
        map_member(*final(m), key@) == Some(v),
        forall|k: Seq<char>| k != key@ ==> #[trigger] map_member(*final(m), k) == map_member(*old(m), k),
{
    m.insert(key.to_owned(), v);
}

/// `serde_json::to_string_pretty` of a document: the pretty-printed text [`json_pretty`]
/// names. It fails only for a map with non-string keys or a failing `Serialize` impl, neither
/// of which a `Value` has, so it succeeds.
#[verifier::external_body]
pub(crate) fn to_pretty(v: &serde_json::Value) -> (r: Result<String, serde_json::Error>)
    ensures
        r is Ok,
        r matches Ok(s) ==> s@ == json_pretty(*v),
{
    serde_json::to_string_pretty(v)
}

} // verus!
