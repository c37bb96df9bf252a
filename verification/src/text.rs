//! Decoding of captured character data: UTF-8 decoding followed by entity
//! unescaping, the two steps the tokenizer's own content decoding performs.

use vstd::prelude::*;

verus! {

/// What entity unescaping returns for a character run: `None` exactly when the
/// run holds a malformed or unknown entity reference.
pub uninterp spec fn unescaped_of(s: Seq<char>) -> Option<Seq<char>>;

/// The decoded form of a raw content run: UTF-8 decoding, then entity
/// unescaping; `None` when either step fails.
pub open spec fn decode_of(raw: Seq<u8>) -> Option<Seq<char>> {
    if vstd::utf8::valid_utf8(raw) {
        unescaped_of(vstd::utf8::decode_utf8(raw))
    } else {
        None
    }
}

/// Relies on core::str::from_utf8: returns `Ok` exactly on valid UTF-8, and
/// then the characters encoded by the bytes.
#[verifier::external_body]
fn utf8_to_string(b: &Vec<u8>) -> (r: Option<String>)
    ensures
        r is Some <==> vstd::utf8::valid_utf8(b@),
        r matches Some(s) ==> s@ == vstd::utf8::decode_utf8(b@),
{
    match core::str::from_utf8(b.as_slice()) {
        Ok(s) => Some(s.to_owned()),
        Err(_) => None,
    }
}

/// Relies on quick_xml::escape::unescape: entity unescaping is a function of
/// the input characters alone, and it fails exactly on a malformed or unknown
/// entity reference.
#[verifier::external_body]
fn unescape_string(s: &String) -> (r: Option<String>)
    ensures
        r is Some <==> unescaped_of(s@) is Some,
        r matches Some(t) ==> unescaped_of(s@) == Some(t@),
{
    match quick_xml::escape::unescape(s.as_str()) {
        Ok(c) => Some(c.into_owned()),
        Err(_) => None,
    }
}

/// Decode a raw content run into its final string form.
pub fn decode_text(raw: &Vec<u8>) -> (r: Option<String>)
    ensures
        r is Some <==> decode_of(raw@) is Some,
        r matches Some(s) ==> decode_of(raw@) == Some(s@),
{
    match utf8_to_string(raw) {
        None => None,
        Some(s) => unescape_string(&s),
    }
}

/// Relies on str::chars: yields exactly the string's characters in order.
#[verifier::external_body]
pub fn chars_of(s: &str) -> (v: Vec<char>)
    ensures
        v@ == s@,
{
    s.chars().collect()
}

/// Relies on String's FromIterator: collects the characters in order.
#[verifier::external_body]
pub fn string_from_chars(v: &Vec<char>) -> (s: String)
    ensures
        s@ == v@,
{
    v.iter().collect()
}

} // verus!
