//! The outside codecs the library relies on: UUID syntax, URL-safe base64,
//! and JSON documents, read and written with `serde_json`.
//!
//! Each is a function of its arguments alone, and each would take pages to
//! restate, so its result is given a name here and the wrapper that makes the
//! call promises exactly that name applied to its arguments.

use vstd::prelude::*;
use base64::Engine as _;

verus! {

/// A hexadecimal digit, in either case.
pub open spec fn is_hex_digit(c: char) -> bool {
    ('0' <= c && c <= '9') || ('a' <= c && c <= 'f') || ('A' <= c && c <= 'F')
}

/// 32 hexadecimal digits, nothing else.
pub open spec fn uuid_simple(s: Seq<char>) -> bool {
    s.len() == 32 && forall|i: int| 0 <= i < 32 ==> is_hex_digit(#[trigger] s[i])
}

/// The hyphenated rendering: 8-4-4-4-12 hexadecimal digits.
pub open spec fn uuid_hyphenated(s: Seq<char>) -> bool {
    &&& s.len() == 36
    &&& forall|i: int| 0 <= i < 36 ==> (if i == 8 || i == 13 || i == 18 || i == 23 {
        #[trigger] s[i] == '-'
    } else {
        is_hex_digit(s[i])
    })
}

/// A character compared without regard to ASCII case.
pub open spec fn ascii_lower(c: char) -> char {
    if 'A' <= c && c <= 'Z' { ((c as u32) + 32) as char } else { c }
}

/// `urn:uuid:` in any ASCII case.
pub open spec fn urn_prefix(s: Seq<char>) -> bool {
    s.len() == 9 && forall|i: int| 0 <= i < 9 ==> ascii_lower(#[trigger] s[i]) == "urn:uuid:"@[i]
}

/// What `uuid::Uuid::try_parse` accepts: the simple rendering, the
/// hyphenated one, the hyphenated one in braces, or the hyphenated one
/// behind `urn:uuid:` in any ASCII case. Every accepted character is ASCII,
/// so counting characters is counting the bytes the crate counts.
pub open spec fn uuid_accepts(s: Seq<char>) -> bool {
    ||| uuid_simple(s)
    ||| uuid_hyphenated(s)
    ||| (s.len() == 38 && s[0] == '{' && s[37] == '}' && uuid_hyphenated(s.subrange(1, 37)))
    ||| (s.len() == 45 && urn_prefix(s.subrange(0, 9)) && uuid_hyphenated(s.subrange(9, 45)))
}

/// What the URL-safe, unpadded base64 engine decodes this text to, if it
/// decodes at all.
pub uninterp spec fn base64_url_decoded(s: Seq<char>) -> Option<Seq<u8>>;

/// The string member `key` of the JSON object these bytes hold, when the
/// bytes parse as JSON, the value is an object, and that member is a string.
pub uninterp spec fn json_string_member(doc: Seq<u8>, key: Seq<char>) -> Option<Seq<char>>;

/// The boolean member `key` of the JSON object these bytes hold, when the
/// bytes parse as JSON, the value is an object, and that member is a boolean.
pub uninterp spec fn json_bool_member(doc: Seq<u8>, key: Seq<char>) -> Option<bool>;

/// Whether these bytes parse as one JSON document.
pub uninterp spec fn json_parses(doc: Seq<u8>) -> bool;

/// The elements of the array member `key` of the JSON object these bytes
/// hold, each as its serialized bytes, when that member is an array.
pub uninterp spec fn json_array_member(doc: Seq<u8>, key: Seq<char>) -> Option<Seq<Seq<u8>>>;

/// The bytes `serde_json` writes for an object whose members are these
/// string pairs.
pub uninterp spec fn json_object_text(members: Seq<(Seq<char>, Seq<char>)>) -> Seq<u8>;

/// The members of the JSON object these bytes hold, in key order, when the
/// document is an object whose every value is a string.
pub uninterp spec fn json_string_map(doc: Seq<u8>) -> Option<Seq<(Seq<char>, Seq<char>)>>;

/// The elements of the JSON array these bytes hold, each as its serialized
/// bytes, when the document is an array.
pub uninterp spec fn json_array_elements(doc: Seq<u8>) -> Option<Seq<Seq<u8>>>;

/// Calls `uuid::Uuid::try_parse` and reports whether it succeeded.
///
/// Trusted: the answer is [`uuid_accepts`], the four renderings the crate's
/// parser takes (it dispatches on the input's length: 32 simple, 36
/// hyphenated, 38 braced, 45 `urn:uuid:`, and rejects any other length).
#[verifier::external_body]
pub fn uuid_parses(s: &str) -> (r: bool)
    ensures
        r == uuid_accepts(s@),
{
    uuid::Uuid::try_parse(s).is_ok()
}

/// Calls `base64::engine::general_purpose::URL_SAFE_NO_PAD.decode`.
///
/// Trusted: `None` exactly when the engine returns an error, and otherwise
/// the decoded bytes, named [`base64_url_decoded`]; the alphabet and padding
/// rules are not restated.
#[verifier::external_body]
pub fn decode_base64_url(s: &str) -> (r: Option<Vec<u8>>)
    ensures
        match r {
            Some(v) => base64_url_decoded(s@) == Some(v@),
            None => base64_url_decoded(s@) is None,
        },
{
    base64::engine::general_purpose::URL_SAFE_NO_PAD.decode(s).ok()
}

/// Parses `doc` with `serde_json::from_slice` and reads the string member
/// `key` with `Value::get` and `Value::as_str`.
///
/// Trusted: the result is named [`json_string_member`]; JSON's grammar is not
/// restated.
#[verifier::external_body]
pub fn json_string_field(doc: &[u8], key: &str) -> (r: Option<String>)
    ensures
        match r {
            Some(v) => json_string_member(doc@, key@) == Some(v@),
            None => json_string_member(doc@, key@) is None,
        },
{
    let v: serde_json::Value = serde_json::from_slice(doc).ok()?;
    v.get(key).and_then(serde_json::Value::as_str).map(str::to_owned)
}

/// Parses `doc` with `serde_json::from_slice` and reads the boolean member
/// `key` with `Value::get` and `Value::as_bool`.
///
/// Trusted: the result is named [`json_bool_member`].
#[verifier::external_body]
pub fn json_bool_field(doc: &[u8], key: &str) -> (r: Option<bool>)
    ensures
        r == json_bool_member(doc@, key@),
{
    let v: serde_json::Value = serde_json::from_slice(doc).ok()?;
    v.get(key).and_then(serde_json::Value::as_bool)
}

/// Reports whether `serde_json::from_slice` accepts `doc` as a JSON value.
///
/// Trusted: the result is named [`json_parses`].
#[verifier::external_body]
pub fn json_is_valid(doc: &[u8]) -> (r: bool)
    ensures
        r == json_parses(doc@),
{
    serde_json::from_slice::<serde_json::Value>(doc).is_ok()
}

/// Parses `doc` with `serde_json::from_slice`, reads the array member `key`
/// with `Value::get` and `Value::as_array`, and serializes each element back
/// with `serde_json::to_vec`.
///
/// Trusted: the result is named [`json_array_member`].
#[verifier::external_body]
pub fn json_array_field(doc: &[u8], key: &str) -> (r: Option<Vec<Vec<u8>>>)
    ensures
        match r {
            Some(v) => json_array_member(doc@, key@) == Some(v.deep_view()),
            None => json_array_member(doc@, key@) is None,
        },
{
    let v: serde_json::Value = serde_json::from_slice(doc).ok()?;
    let a = v.get(key)?.as_array()?;
    a.iter().map(|e| serde_json::to_vec(e).ok()).collect()
}

/// Parses `doc` with `serde_json::from_slice`, reads it with
/// `Value::as_array`, and serializes each element back with
/// `serde_json::to_vec`.
///
/// Trusted: the result is named [`json_array_elements`].
#[verifier::external_body]
pub fn json_array(doc: &[u8]) -> (r: Option<Vec<Vec<u8>>>)
    ensures
        match r {
            Some(v) => json_array_elements(doc@) == Some(v.deep_view()),
            None => json_array_elements(doc@) is None,
        },
{
    let v: serde_json::Value = serde_json::from_slice(doc).ok()?;
    let a = v.as_array()?;
    a.iter().map(|e| serde_json::to_vec(e).ok()).collect()
}

/// Builds a `serde_json::Map` from the pairs, each value a JSON string, and
/// writes it compactly with `Value`'s `Display`, which cannot fail.
///
/// Trusted: the bytes are named [`json_object_text`], a function of the pairs
/// alone; JSON's escaping rules and the member order the map keeps are not
/// restated.
#[verifier::external_body]
pub fn json_object(members: &[(String, String)]) -> (r: Vec<u8>)
    ensures
        r@ == json_object_text(members@.map_values(|m: (String, String)| (m.0@, m.1@))),
{
    let mut map = serde_json::Map::new();
    for (k, v) in members {
        map.insert(k.clone(), serde_json::Value::String(v.clone()));
    }
    serde_json::Value::Object(map).to_string().into_bytes()
}

/// Parses `doc` with `serde_json::from_slice` into a
/// `BTreeMap<String, String>` and lists its members in key order.
///
/// Trusted: the members are named [`json_string_map`]; `None` exactly when
/// the parse fails. The keys of a map are distinct, and that is stated too.
#[verifier::external_body]
pub fn json_string_pairs(doc: &[u8]) -> (r: Option<Vec<(String, String)>>)
    ensures
        match r {
            Some(v) => json_string_map(doc@) == Some(v@.map_values(|m: (String, String)| (m.0@, m.1@)))
                && v@.map_values(|m: (String, String)| m.0@).no_duplicates(),
            None => json_string_map(doc@) is None,
        },
{
    let m: std::collections::BTreeMap<String, String> = serde_json::from_slice(doc).ok()?;
    Some(m.into_iter().collect())
}

} // verus!
