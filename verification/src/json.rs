//! JSON text as serde_json writes it: quoted strings and arrays of strings, and the
//! `__error` member of a reply from the web view.
use vstd::prelude::*;
use crate::numbers::hex_digit_char;
use vstd::utf8::char_u32_cast;

verus! {

#[verifier::external_type_specification]
#[verifier::external_body]
pub struct ExJsonError(serde_json::Error);

/// How serde_json writes one character inside a JSON string: `"` and `\` and the control
/// characters below U+0020 are escaped, the short forms `\b \t \n \f \r` where JSON has
/// them and `\u00XX` (lowercase hex) for the others; every other character stands as is.
pub open spec fn json_escape_char(c: char) -> Seq<char> {
    let u = c as u32;
    if c == '"' {
        seq!['\\', '"']
    } else if c == '\\' {
        seq!['\\', '\\']
    } else if u == 0x08 {
        seq!['\\', 'b']
    } else if u == 0x09 {
        seq!['\\', 't']
    } else if u == 0x0A {
        seq!['\\', 'n']
    } else if u == 0x0C {
        seq!['\\', 'f']
    } else if u == 0x0D {
        seq!['\\', 'r']
    } else if u < 0x20 {
        seq!['\\', 'u', '0', '0', hex_digit_char((u / 16) as nat), hex_digit_char((u % 16) as nat)]
    } else {
        seq![c]
    }
}

/// The escaped contents of a JSON string holding `s`.
pub open spec fn json_escape(s: Seq<char>) -> Seq<char>
    decreases s.len(),
{
    if s.len() == 0 {
        seq![]
    } else {
        json_escape(s.drop_last()) + json_escape_char(s.last())
    }
}

/// The JSON string literal for `s`, as `serde_json::to_string` writes it.
pub open spec fn json_quoted(s: Seq<char>) -> Seq<char> {
    seq!['"'] + json_escape(s) + seq!['"']
}

/// The quoted items, separated by commas.
pub open spec fn json_items(items: Seq<Seq<char>>) -> Seq<char>
    decreases items.len(),
{
    if items.len() == 0 {
        seq![]
    } else if items.len() == 1 {
        json_quoted(items[0])
    } else {
        json_items(items.drop_last()) + seq![','] + json_quoted(items.last())
    }
}

/// The JSON array of the strings `items`, as `serde_json::to_string` writes a `Vec<String>`.
pub open spec fn json_string_array(items: Seq<Seq<char>>) -> Seq<char> {
    seq!['['] + json_items(items) + seq![']']
}

/// What `serde_json::from_str::<serde_json::Value>` makes of `data`, then `Value::get(key)`
/// on it, written back by `Value`'s `Display` (compact JSON): the member `key` when `data`
/// parses as a JSON object that has it.
pub uninterp spec fn json_member_text(data: Seq<char>, key: Seq<char>) -> Option<Seq<char>>;

/// The member through which the page's script reports a failed evaluation.
pub open spec fn error_key() -> Seq<char> {
    "__error"@
}

/// The `__error` member of a reply, as compact JSON.
pub open spec fn reply_error(data: Seq<char>) -> Option<Seq<char>> {
    json_member_text(data, error_key())
}

/// `serde_json::to_string` on a `str`. Trusted: the result is the quoted, escaped literal
/// `json_quoted(s)`, and it is never an error (the source writes into a `Vec<u8>`, which
/// cannot fail, and `str` serialization has no failing case).
#[verifier::external_body]
fn to_json_str(s: &str) -> (r: Result<String, serde_json::Error>)
    ensures
        r is Ok,
        r matches Ok(q) ==> q@ == json_quoted(s@),
{
    serde_json::to_string(s)
}

/// `serde_json::to_string` on a `Vec<String>`. Trusted: the result is `[`, the quoted items
/// separated by `,`, then `]`, and it is never an error (as for a single string).
#[verifier::external_body]
fn to_json_str_array(v: &Vec<String>) -> (r: Result<String, serde_json::Error>)
    ensures
        r is Ok,
        r matches Ok(q) ==> q@ == json_string_array(v@.map_values(|x: String| x@)),
{
    serde_json::to_string(v)
}

/// `serde_json::from_str::<serde_json::Value>`, then `Value::get(key)` on the parsed value
/// and that member's `Display`. Trusted: the result is `json_member_text(data, key)`, a
/// function of `data` and `key` alone.
#[verifier::external_body]
fn json_member(data: &str, key: &str) -> (r: Option<String>)
    ensures
        match r {
            Some(m) => json_member_text(data@, key@) == Some(m@),
            None => json_member_text(data@, key@) is None,
        },
{
    match serde_json::from_str::<serde_json::Value>(data) {
        Ok(v) => v.get(key).map(|m| m.to_string()),
        Err(_) => None,
    }
}

/// The JSON string literal for `s`.
pub fn json_string(s: &str) -> (r: String)
    ensures
        r@ == json_quoted(s@),
{
    to_json_str(s).unwrap()
}

/// The JSON array of the strings `items`.
pub fn json_array(items: &Vec<String>) -> (r: String)
    ensures
        r@ == json_string_array(items@.map_values(|x: String| x@)),
{
    to_json_str_array(items).unwrap()
}

/// The `__error` member of a reply, as compact JSON, if the reply is a JSON object with one.
pub fn error_member(data: &str) -> (r: Option<String>)
    ensures
        match r {
            Some(e) => reply_error(data@) == Some(e@),
            None => reply_error(data@) is None,
        },
{
    json_member(data, error_member_name())
}

/// The name of the member that reports a failed evaluation, `__error`.
pub fn error_member_name() -> (r: &'static str)
    ensures
        r@ == error_key(),
{
    "__error"
}


/// Text that JSON can hold without escapes: no `"`, no `\` and no control character below
/// U+0020.
pub open spec fn json_plain(s: Seq<char>) -> bool {
    forall|i: int| 0 <= i < s.len() ==> #[trigger] s[i] != '"' && s[i] != '\\' && s[i] as u32 >= 0x20
}

/// Plain text is quoted as it stands.
pub proof fn lemma_plain_text_quoted_as_is(s: Seq<char>)
    requires
        json_plain(s),
    ensures
        json_quoted(s) == seq!['"'] + s + seq!['"'],
    decreases s.len(),
{
    lemma_plain_escape(s);
}

proof fn lemma_plain_escape(s: Seq<char>)
    requires
        json_plain(s),
    ensures
        json_escape(s) == s,
    decreases s.len(),
{
    if s.len() > 0 {
        let init = s.drop_last();
        assert forall|i: int| 0 <= i < init.len() implies #[trigger] init[i] != '"' && init[i] != '\\'
            && init[i] as u32 >= 0x20 by {
            assert(init[i] == s[i]);
        }
        lemma_plain_escape(init);
        let c = s.last();
        assert(c == s[s.len() - 1]);
        assert(json_escape_char(c) == seq![c]);
        assert(init + seq![c] =~= s);
    }
}


/// A hexadecimal digit as JSON accepts it in `\u` escapes: `0`–`9`, `a`–`f`, `A`–`F`.
pub open spec fn is_json_hex(c: char) -> bool {
    ('0' <= c <= '9') || ('a' <= c <= 'f') || ('A' <= c <= 'F')
}

pub open spec fn json_hex_value(c: char) -> nat {
    if '0' <= c <= '9' {
        ((c as nat) - 48) as nat
    } else if 'a' <= c <= 'f' {
        ((c as nat) - 87) as nat
    } else {
        ((c as nat) - 55) as nat
    }
}

/// The character a two-character escape `\x` stands for in a JSON string.
pub open spec fn json_short_escape(x: char) -> Option<char> {
    if x == '"' {
        Some('"')
    } else if x == '\\' {
        Some('\\')
    } else if x == '/' {
        Some('/')
    } else if x == 'b' {
        Some('\u{8}')
    } else if x == 'f' {
        Some('\u{c}')
    } else if x == 'n' {
        Some('\n')
    } else if x == 'r' {
        Some('\r')
    } else if x == 't' {
        Some('\t')
    } else {
        None
    }
}

/// `c` before the text `o` holds, if it holds one.
pub open spec fn prepend_char(c: char, o: Option<Seq<char>>) -> Option<Seq<char>> {
    match o {
        Some(x) => Some(seq![c] + x),
        None => None,
    }
}

/// The characters that the contents of a JSON string literal (between its quotes) stand
/// for: escapes `\" \\ \/ \b \f \n \r \t` and `\uXXXX` for a character of the basic
/// multilingual plane; nothing when the contents hold another escape, an unescaped `"` or a
/// control character below U+0020.
pub open spec fn json_unescape(t: Seq<char>) -> Option<Seq<char>>
    decreases t.len(),
{
    if t.len() == 0 {
        Some(seq![])
    } else if t[0] == '\\' {
        if t.len() >= 2 && json_short_escape(t[1]) is Some {
            prepend_char(json_short_escape(t[1])->0, json_unescape(t.skip(2)))
        } else if t.len() >= 6 && t[1] == 'u' && is_json_hex(t[2]) && is_json_hex(t[3]) && is_json_hex(t[4])
            && is_json_hex(t[5]) {
            let v = json_hex_value(t[2]) * 4096 + json_hex_value(t[3]) * 256 + json_hex_value(t[4]) * 16
                + json_hex_value(t[5]);
            if 0xD800 <= v <= 0xDFFF {
                None
            } else {
                prepend_char((v as u32) as char, json_unescape(t.skip(6)))
            }
        } else {
            None
        }
    } else if t[0] == '"' || (t[0] as u32) < 0x20 {
        None
    } else {
        prepend_char(t[0], json_unescape(t.skip(1)))
    }
}

/// The text a JSON string literal stands for.
pub open spec fn json_string_value(lit: Seq<char>) -> Option<Seq<char>> {
    if lit.len() >= 2 && lit[0] == '"' && lit[lit.len() - 1] == '"' {
        json_unescape(lit.subrange(1, lit.len() - 1))
    } else {
        None
    }
}

proof fn lemma_hex_digit_reads_back(d: nat)
    requires
        d < 16,
    ensures
        is_json_hex(hex_digit_char(d)),
        json_hex_value(hex_digit_char(d)) == d,
{
    if d < 10 {
        assert(((48 + d) as u8) as char as nat == 48 + d);
    } else {
        assert(((87 + d) as u8) as char as nat == 87 + d);
    }
}

/// One escaped character reads back as itself, whatever follows it.
#[verifier::spinoff_prover]
proof fn lemma_unescape_char(c: char, rest: Seq<char>)
    ensures
        json_unescape(json_escape_char(c) + rest) == prepend_char(c, json_unescape(rest)),
{
    let e = json_escape_char(c);
    let t = e + rest;
    let u = c as u32;
    if c == '"' || c == '\\' || u == 0x08 || u == 0x09 || u == 0x0A || u == 0x0C || u == 0x0D {
        assert(t.skip(2) =~= rest);
        if u == 0x08 {
            char_u32_cast(c, 8);
        } else if u == 0x09 {
            char_u32_cast(c, 9);
        } else if u == 0x0A {
            char_u32_cast(c, 10);
        } else if u == 0x0C {
            char_u32_cast(c, 12);
        } else if u == 0x0D {
            char_u32_cast(c, 13);
        }
    } else if u < 0x20 {
        assert(t.skip(6) =~= rest);
        lemma_hex_digit_reads_back((u / 16) as nat);
        lemma_hex_digit_reads_back((u % 16) as nat);
        assert(t[2] == '0' && t[3] == '0');
        let v = json_hex_value(t[2]) * 4096 + json_hex_value(t[3]) * 256 + json_hex_value(t[4]) * 16
            + json_hex_value(t[5]);
        assert(v == u);
        char_u32_cast(c, u);
    } else {
        assert(t.skip(1) =~= rest);
        assert(t[0] == c);
    }
}

/// The escaped text reads back as itself, whatever follows it.
#[verifier::spinoff_prover]
proof fn lemma_unescape_escaped(s: Seq<char>, rest: Seq<char>)
    ensures
        json_unescape(json_escape(s) + rest) == match json_unescape(rest) {
            Some(x) => Some(s + x),
            None => None::<Seq<char>>,
        },
    decreases s.len(),
{
    if s.len() == 0 {
        assert(json_escape(s) + rest =~= rest);
        match json_unescape(rest) {
            Some(x) => {
                assert(s + x =~= x);
            },
            None => {},
        }
    } else {
        let init = s.drop_last();
        let c = s.last();
        let tail = json_escape_char(c) + rest;
        assert(json_escape(s) + rest =~= json_escape(init) + tail);
        lemma_unescape_escaped(init, tail);
        lemma_unescape_char(c, rest);
        match json_unescape(rest) {
            Some(x) => {
                assert(init + (seq![c] + x) =~= s + x);
            },
            None => {},
        }
    }
}

/// A JSON string literal as serde_json writes it reads back as the text it was written for.
#[verifier::spinoff_prover]
pub proof fn lemma_json_string_reads_back(s: Seq<char>)
    ensures
        json_string_value(json_quoted(s)) == Some(s),
{
    let lit = json_quoted(s);
    assert(lit.subrange(1, lit.len() - 1) =~= json_escape(s) + Seq::<char>::empty());
    lemma_unescape_escaped(s, Seq::<char>::empty());
    assert(s + Seq::<char>::empty() =~= s);
}

} // verus!
