//! Percent-decoding of URL text, by the `urlencoding` crate.
use vstd::prelude::*;
use vstd::utf8::*;

verus! {

pub open spec fn is_hex_byte(b: u8) -> bool {
    (48 <= b <= 57) || (65 <= b <= 70) || (97 <= b <= 102)
}

pub open spec fn hex_byte_value(b: u8) -> nat {
    if 48 <= b <= 57 {
        (b - 48) as nat
    } else if 65 <= b <= 70 {
        (b - 55) as nat
    } else {
        (b - 87) as nat
    }
}

/// Replaces each `%` followed by two hexadecimal digits (either case) by the byte they
/// spell; every other byte, a `%` without two digits after it included, stays as is.
pub open spec fn percent_decode(b: Seq<u8>) -> Seq<u8>
    decreases b.len(),
{
    if b.len() == 0 {
        seq![]
    } else if b[0] == 37 && b.len() >= 3 && is_hex_byte(b[1]) && is_hex_byte(b[2]) {
        seq![(hex_byte_value(b[1]) * 16 + hex_byte_value(b[2])) as u8] + percent_decode(b.skip(3))
    } else {
        seq![b[0]] + percent_decode(b.skip(1))
    }
}

/// What `urlencoding::decode` gives for `s`: the percent-decoded UTF-8 bytes of `s`, read
/// back as text, or nothing when they are not well-formed UTF-8.
pub open spec fn url_decoded(s: Seq<char>) -> Option<Seq<char>> {
    let d = percent_decode(encode_utf8(s));
    if valid_utf8(d) {
        Some(decode_utf8(d))
    } else {
        None
    }
}

/// `urlencoding::decode`. Trusted: it succeeds exactly when the percent-decoded bytes of
/// `s` are well-formed UTF-8, and then gives the text they encode (`url_decoded`).
#[verifier::external_body]
fn url_decode_str(s: &str) -> (r: Option<String>)
    ensures
        match r {
            Some(t) => url_decoded(s@) == Some(t@),
            None => url_decoded(s@) is None,
        },
{
    match urlencoding::decode(s) {
        Ok(t) => Some(t.into_owned()),
        Err(_) => None,
    }
}

/// The percent-decoded text, or the empty text when decoding fails
/// (`urlencoding::decode(s).unwrap_or_default()`).
pub open spec fn url_decoded_or_empty(s: Seq<char>) -> Seq<char> {
    match url_decoded(s) {
        Some(t) => t,
        None => seq![],
    }
}

pub fn decode_or_empty(cs: &[char]) -> (r: Vec<char>)
    ensures
        r@ == url_decoded_or_empty(cs@),
{
    let s = crate::text::string_of(cs);
    match url_decode_str(s.as_str()) {
        Some(t) => crate::text::chars_of(t.as_str()),
        None => Vec::new(),
    }
}


proof fn lemma_decode_without_percent(b: Seq<u8>)
    requires
        forall|i: int| 0 <= i < b.len() ==> b[i] != 37,
    ensures
        percent_decode(b) == b,
    decreases b.len(),
{
    if b.len() > 0 {
        let rest = b.skip(1);
        assert forall|i: int| 0 <= i < rest.len() implies rest[i] != 37 by {
            assert(rest[i] == b[i + 1]);
        }
        lemma_decode_without_percent(rest);
        assert(seq![b[0]] + rest =~= b);
    }
}

proof fn lemma_scalar_bytes_not_percent(c: char)
    requires
        c != '%',
    ensures
        forall|i: int| 0 <= i < encode_scalar(c as u32).len() ==> #[trigger] encode_scalar(c as u32)[i] != 37,
{
    let v = c as u32;
    assert(v != 37);
    assert(v <= 0x7F && v != 37 ==> ((v & 0x7F) as u8) != 37u8) by (bit_vector);
    assert((0xC0u8 | (((v >> 6u32) & 0x1Fu32) as u8)) != 37u8) by (bit_vector);
    assert((0xE0u8 | (((v >> 12u32) & 0x0Fu32) as u8)) != 37u8) by (bit_vector);
    assert((0xF0u8 | (((v >> 18u32) & 0x7u32) as u8)) != 37u8) by (bit_vector);
    assert((0x80u8 | ((v & 0x3Fu32) as u8)) != 37u8) by (bit_vector);
    assert((0x80u8 | (((v >> 6u32) & 0x3Fu32) as u8)) != 37u8) by (bit_vector);
    assert((0x80u8 | (((v >> 12u32) & 0x3Fu32) as u8)) != 37u8) by (bit_vector);
}

proof fn lemma_encoding_without_percent(s: Seq<char>)
    requires
        !s.contains('%'),
    ensures
        forall|i: int| 0 <= i < encode_utf8(s).len() ==> encode_utf8(s)[i] != 37,
    decreases s.len(),
{
    if s.len() > 0 {
        let rest = s.drop_first();
        assert(!rest.contains('%')) by {
            if rest.contains('%') {
                let k = choose|k: int| 0 <= k < rest.len() && rest[k] == '%';
                assert(s[k + 1] == '%');
            }
        }
        lemma_encoding_without_percent(rest);
        assert(s[0] != '%') by {
            if s[0] == '%' {
                assert(s.contains('%'));
            }
        }
        lemma_scalar_bytes_not_percent(s[0]);
        let e = encode_utf8(s);
        let h = encode_scalar(s[0] as u32);
        let t = encode_utf8(rest);
        assert(e == h + t);
        assert forall|i: int| 0 <= i < e.len() implies e[i] != 37 by {
            if i < h.len() {
                assert(e[i] == h[i]);
            } else {
                assert(e[i] == t[i - h.len()]);
            }
        }
    }
}

/// Text without `%` decodes to itself.
pub proof fn lemma_plain_text_decodes_to_itself(s: Seq<char>)
    requires
        !s.contains('%'),
    ensures
        url_decoded(s) == Some(s),
{
    lemma_encoding_without_percent(s);
    lemma_decode_without_percent(encode_utf8(s));
    encode_utf8_valid_utf8(s);
    encode_utf8_decode_utf8(s);
}

} // verus!
