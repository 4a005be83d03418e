//! Calls into std for what Unicode defines at length: UTF-8 validation and case mapping.
use vstd::prelude::*;
use vstd::utf8::*;
use vstd::string::StringSliceAdditionalSpecFns;

verus! {

/// What `str::to_uppercase` gives for a text: its full Unicode uppercase mapping.
pub uninterp spec fn uppercase(s: Seq<char>) -> Seq<char>;

/// What `str::to_lowercase` gives for a text: its full Unicode lowercase mapping.
pub uninterp spec fn lowercase(s: Seq<char>) -> Seq<char>;

/// Text made of ASCII characters only.
pub open spec fn ascii_text(s: Seq<char>) -> bool {
    forall|i: int| 0 <= i < s.len() ==> (#[trigger] s[i] as u32) < 128
}

/// An ASCII letter `a`–`z` as its uppercase letter; any other character as it is.
pub open spec fn ascii_upper(c: char) -> char {
    if 'a' <= c <= 'z' {
        ((c as u32) - 32) as char
    } else {
        c
    }
}

/// An ASCII letter `A`–`Z` as its lowercase letter; any other character as it is.
pub open spec fn ascii_lower(c: char) -> char {
    if 'A' <= c <= 'Z' {
        ((c as u32) + 32) as char
    } else {
        c
    }
}

/// std's `str::to_uppercase`. Trusted: the result is the Unicode uppercase mapping of `s`,
/// a function of `s` alone, named `uppercase`; on ASCII text (as std documents) each of
/// `a`–`z` becomes `A`–`Z` and every other character stays.
#[verifier::external_body]
fn to_uppercase_str(s: &str) -> (r: String)
    ensures
        r@ == uppercase(s@),
        ascii_text(s@) ==> r@ == s@.map_values(|c: char| ascii_upper(c)),
{
    s.to_uppercase()
}

/// std's `str::to_lowercase`. Trusted: the result is the Unicode lowercase mapping of `s`,
/// a function of `s` alone, named `lowercase`; on ASCII text (as std documents) each of
/// `A`–`Z` becomes `a`–`z` and every other character stays.
#[verifier::external_body]
fn to_lowercase_str(s: &str) -> (r: String)
    ensures
        r@ == lowercase(s@),
        ascii_text(s@) ==> r@ == s@.map_values(|c: char| ascii_lower(c)),
{
    s.to_lowercase()
}

/// std's `std::str::from_utf8`. Trusted: it succeeds exactly on well-formed UTF-8
/// (as vstd's `valid_utf8` defines it), and the text it returns is encoded by those bytes.
#[verifier::external_body]
pub(crate) fn utf8_str(b: &[u8]) -> (r: Option<&str>)
    ensures
        r is Some <==> valid_utf8(b@),
        r matches Some(t) ==> t.spec_bytes() == b@,
{
    std::str::from_utf8(b).ok()
}

/// The uppercase mapping of the characters `cs`.
pub fn uppercase_chars(cs: &[char]) -> (r: Vec<char>)
    ensures
        r@ == uppercase(cs@),
        ascii_text(cs@) ==> r@ == cs@.map_values(|c: char| ascii_upper(c)),
{
    let s = crate::text::string_of(cs);
    let u = to_uppercase_str(s.as_str());
    crate::text::chars_of(u.as_str())
}

/// The lowercase mapping of the characters `cs`.
pub fn lowercase_chars(cs: &[char]) -> (r: Vec<char>)
    ensures
        r@ == lowercase(cs@),
        ascii_text(cs@) ==> r@ == cs@.map_values(|c: char| ascii_lower(c)),
{
    let s = crate::text::string_of(cs);
    let l = to_lowercase_str(s.as_str());
    crate::text::chars_of(l.as_str())
}

/// The text that the bytes `b` encode, when they are well-formed UTF-8.
pub fn decode_utf8_bytes(b: &[u8]) -> (r: Option<Vec<char>>)
    ensures
        r is Some <==> valid_utf8(b@),
        r matches Some(cs) ==> cs@ == decode_utf8(b@),
{
    match utf8_str(b) {
        Some(t) => {
            proof {
                encode_utf8_decode_utf8(t@);
            }
            Some(crate::text::chars_of(t))
        },
        None => None,
    }
}

} // verus!
