//! Decimal and hexadecimal numerals: formatting as `format!("{}")` and
//! `format!("{:016x}")` do, and parsing as `str::parse` for unsigned integers does.
use vstd::prelude::*;
use vstd::arithmetic::div_mod::lemma_mod_breakdown;
use crate::text::push_char;

verus! {

/// The decimal digit character for `d < 10`.
pub open spec fn digit_char(d: nat) -> char {
    ((48 + d) as u8) as char
}

/// The decimal numeral of `n`, without sign or leading zeros.
pub open spec fn decimal(n: nat) -> Seq<char>
    decreases n,
{
    if n < 10 {
        seq![digit_char(n)]
    } else {
        decimal(n / 10).push(digit_char(n % 10))
    }
}

fn digit_of(d: u128) -> (c: char)
    requires
        d < 10,
    ensures
        c == digit_char(d as nat),
{
    let b: u8 = 48u8 + (d as u8);
    b as char
}

/// The decimal numeral of `n`.
pub fn decimal_chars(n: u128) -> (r: Vec<char>)
    ensures
        r@ == decimal(n as nat),
    decreases n,
{
    if n < 10 {
        let mut v: Vec<char> = Vec::new();
        v.push(digit_of(n));
        v
    } else {
        let mut v = decimal_chars(n / 10);
        v.push(digit_of(n % 10));
        v
    }
}

/// The decimal numeral of `n`, as text (`n.to_string()`).
pub fn decimal_text(n: u128) -> (r: String)
    ensures
        r@ == decimal(n as nat),
    decreases n,
{
    if n < 10 {
        let mut s = String::new();
        push_char(&mut s, digit_of(n));
        s
    } else {
        let mut s = decimal_text(n / 10);
        push_char(&mut s, digit_of(n % 10));
        s
    }
}

pub open spec fn is_digit(c: char) -> bool {
    '0' <= c <= '9'
}

pub open spec fn all_digits(s: Seq<char>) -> bool {
    forall|i: int| 0 <= i < s.len() ==> is_digit(#[trigger] s[i])
}

/// The value of a run of decimal digits.
pub open spec fn digits_value(s: Seq<char>) -> nat
    decreases s.len(),
{
    if s.len() == 0 {
        0
    } else {
        digits_value(s.drop_last()) * 10 + ((s.last() as nat) - 48) as nat
    }
}

/// The digits of an unsigned numeral: the text after one optional leading `'+'`.
pub open spec fn unsigned_digits(s: Seq<char>) -> Seq<char> {
    if s.len() > 0 && s[0] == '+' {
        s.drop_first()
    } else {
        s
    }
}

/// What `str::parse` gives for an unsigned integer type whose largest value is `max`:
/// an optional `'+'`, then one or more decimal digits whose value is at most `max`.
pub open spec fn parse_unsigned(s: Seq<char>, max: nat) -> Option<nat> {
    let d = unsigned_digits(s);
    if d.len() > 0 && all_digits(d) && digits_value(d) <= max {
        Some(digits_value(d))
    } else {
        None
    }
}

proof fn lemma_digits_value_grows(d: Seq<char>, k: int)
    requires
        0 <= k <= d.len(),
        all_digits(d),
    ensures
        digits_value(d.take(k)) <= digits_value(d),
    decreases d.len() - k,
{
    if k < d.len() {
        assert(d.take(k + 1).drop_last() =~= d.take(k));
        assert(all_digits(d.take(k + 1)));
        lemma_digits_value_grows(d, k + 1);
        assert(d.take(d.len() as int) =~= d);
    } else {
        assert(d.take(k) =~= d);
    }
}

/// Parses an unsigned numeral whose value must not exceed `max`.
pub fn parse_unsigned_chars(s: &[char], max: u64) -> (r: Option<u64>)
    ensures
        match r {
            Some(v) => parse_unsigned(s@, max as nat) == Some(v as nat),
            None => parse_unsigned(s@, max as nat) is None,
        },
{
    let start: usize = if s.len() > 0 && s[0] == '+' {
        1
    } else {
        0
    };
    let ghost d = unsigned_digits(s@);
    assert(d =~= s@.skip(start as int));
    if start >= s.len() {
        return None;
    }
    let mut acc: u64 = 0;
    let mut i: usize = start;
    assert(d.take(0) =~= Seq::<char>::empty());
    while i < s.len()
        invariant
            start <= i <= s@.len(),
            d == s@.skip(start as int),
            d == unsigned_digits(s@),
            all_digits(d.take(i - start)),
            acc as nat == digits_value(d.take(i - start)),
            acc <= max,
        decreases s@.len() - i,
    {
        let c = s[i];
        assert(d[i - start] == c);
        if !('0' <= c && c <= '9') {
            assert(!is_digit(d[i - start]));
            assert(!all_digits(d));
            assert(parse_unsigned(s@, max as nat) is None);
            return None;
        }
        let dv: u64 = (c as u64) - 48;
        assert(d.take(i - start + 1).drop_last() =~= d.take(i - start));
        assert(d.take(i - start + 1).last() == c);
        assert(digits_value(d.take(i - start + 1)) == acc * 10 + dv);
        assert(all_digits(d.take(i - start + 1)));
        let next: u128 = (acc as u128) * 10 + (dv as u128);
        if next > max as u128 {
            proof {
                if all_digits(d) {
                    lemma_digits_value_grows(d, i - start + 1);
                }
                assert(parse_unsigned(s@, max as nat) is None);
            }
            return None;
        }
        acc = next as u64;
        i = i + 1;
    }
    assert(d.take(i - start) =~= d);
    Some(acc)
}

/// The lowercase hexadecimal digit character for `d < 16`.
pub open spec fn hex_digit_char(d: nat) -> char {
    if d < 10 {
        ((48 + d) as u8) as char
    } else {
        ((87 + d) as u8) as char
    }
}

/// The last `k` lowercase hexadecimal digits of `n`, zero-padded.
pub open spec fn hex_digits(n: nat, k: nat) -> Seq<char>
    decreases k,
{
    if k == 0 {
        seq![]
    } else {
        hex_digits(n / 16, (k - 1) as nat).push(hex_digit_char(n % 16))
    }
}

/// The sixteen-digit lowercase hexadecimal numeral of `n` (`format!("{:016x}", n)` for a `u64`).
pub open spec fn hex16(n: nat) -> Seq<char> {
    hex_digits(n, 16)
}

pub open spec fn is_lower_hex(c: char) -> bool {
    ('0' <= c <= '9') || ('a' <= c <= 'f')
}

pub open spec fn hex_value(c: char) -> nat {
    if '0' <= c <= '9' {
        ((c as nat) - 48) as nat
    } else {
        ((c as nat) - 87) as nat
    }
}

pub open spec fn hex_digits_value(s: Seq<char>) -> nat
    decreases s.len(),
{
    if s.len() == 0 {
        0
    } else {
        hex_digits_value(s.drop_last()) * 16 + hex_value(s.last())
    }
}

/// The value of `s` when it is exactly sixteen lowercase hexadecimal digits.
pub open spec fn parse_hex16(s: Seq<char>) -> Option<nat> {
    if s.len() == 16 && (forall|i: int| 0 <= i < s.len() ==> is_lower_hex(#[trigger] s[i])) {
        Some(hex_digits_value(s))
    } else {
        None
    }
}

pub open spec fn pow16(k: nat) -> nat
    decreases k,
{
    if k == 0 {
        1
    } else {
        16 * pow16((k - 1) as nat)
    }
}

fn hex_char_of(d: u64) -> (c: char)
    requires
        d < 16,
    ensures
        c == hex_digit_char(d as nat),
{
    if d < 10 {
        let b: u8 = 48u8 + (d as u8);
        b as char
    } else {
        let b: u8 = 87u8 + (d as u8);
        b as char
    }
}

fn hex_digits_chars(n: u64, k: usize) -> (r: Vec<char>)
    ensures
        r@ == hex_digits(n as nat, k as nat),
    decreases k,
{
    if k == 0 {
        Vec::new()
    } else {
        let mut v = hex_digits_chars(n / 16, k - 1);
        v.push(hex_char_of(n % 16));
        v
    }
}

/// The sixteen-digit lowercase hexadecimal numeral of `n`.
pub fn hex16_text(n: u64) -> (r: String)
    ensures
        r@ == hex16(n as nat),
{
    let v = hex_digits_chars(n, 16);
    crate::text::string_of(v.as_slice())
}

proof fn lemma_hex_digits_shape(n: nat, k: nat)
    ensures
        hex_digits(n, k).len() == k,
        forall|i: int| 0 <= i < k ==> is_lower_hex(#[trigger] hex_digits(n, k)[i]),
        hex_digits_value(hex_digits(n, k)) == n % pow16(k),
    decreases k,
{
    if k > 0 {
        let k1 = (k - 1) as nat;
        lemma_hex_digits_shape(n / 16, k1);
        let s = hex_digits(n, k);
        assert(s.drop_last() =~= hex_digits(n / 16, k1));
        let d = n % 16;
        assert(hex_value(hex_digit_char(d)) == d) by {
            if d < 10 {
                assert(((48 + d) as u8) as char as nat == 48 + d);
            } else {
                assert(((87 + d) as u8) as char as nat == 87 + d);
            }
        }
        assert(is_lower_hex(hex_digit_char(d)));
        assert(pow16(k) == 16 * pow16(k1));
        lemma_pow16_pos(k1);
        lemma_mod_breakdown(n as int, 16, pow16(k1) as int);
    }
}

proof fn lemma_hex_digits_of_value(s: Seq<char>)
    requires
        forall|i: int| 0 <= i < s.len() ==> is_lower_hex(#[trigger] s[i]),
    ensures
        hex_digits(hex_digits_value(s), s.len()) == s,
    decreases s.len(),
{
    if s.len() > 0 {
        let init = s.drop_last();
        assert forall|i: int| 0 <= i < init.len() implies is_lower_hex(#[trigger] init[i]) by {
            assert(init[i] == s[i]);
        }
        lemma_hex_digits_of_value(init);
        let c = s.last();
        assert(is_lower_hex(c));
        let h = hex_value(c);
        assert(h < 16);
        let v = hex_digits_value(s);
        assert(v == hex_digits_value(init) * 16 + h);
        assert(v / 16 == hex_digits_value(init)) by (nonlinear_arith)
            requires
                v == hex_digits_value(init) * 16 + h,
                h < 16,
        ;
        assert(v % 16 == h) by (nonlinear_arith)
            requires
                v == hex_digits_value(init) * 16 + h,
                h < 16,
        ;
        assert(hex_digit_char(h) == c) by {
            if '0' <= c <= '9' {
                assert(((48 + h) as u8) as char == c);
            } else {
                assert(((87 + h) as u8) as char == c);
            }
        }
        assert(hex_digits(v, s.len()) =~= s);
    }
}

/// Reading back a sixteen-digit request identifier gives the number it was made from.
pub proof fn lemma_hex16_roundtrip(n: u64)
    ensures
        parse_hex16(hex16(n as nat)) == Some(n as nat),
{
    lemma_hex_digits_shape(n as nat, 16);
    reveal_with_fuel(pow16, 17);
    assert(pow16(16) == 0x1_0000_0000_0000_0000);
}

/// A sixteen-digit identifier is the numeral of exactly one number: the one it reads as.
pub proof fn lemma_hex16_unique(s: Seq<char>)
    requires
        parse_hex16(s) is Some,
    ensures
        hex16(parse_hex16(s)->0) == s,
        parse_hex16(s)->0 < 0x1_0000_0000_0000_0000,
{
    lemma_hex_digits_of_value(s);
    lemma_hex_digits_shape(hex_digits_value(s), 16);
    lemma_hex_value_bound(s);
    reveal_with_fuel(pow16, 17);
}

proof fn lemma_hex_value_bound(s: Seq<char>)
    requires
        forall|i: int| 0 <= i < s.len() ==> is_lower_hex(#[trigger] s[i]),
    ensures
        hex_digits_value(s) < pow16(s.len()),
    decreases s.len(),
{
    if s.len() > 0 {
        let init = s.drop_last();
        assert forall|i: int| 0 <= i < init.len() implies is_lower_hex(#[trigger] init[i]) by {
            assert(init[i] == s[i]);
        }
        lemma_hex_value_bound(init);
        assert(is_lower_hex(s.last()));
        let a = hex_digits_value(init);
        let p = pow16(init.len());
        let h = hex_value(s.last());
        assert(h < 16);
        assert(a * 16 + h < 16 * p) by (nonlinear_arith)
            requires
                a < p,
                h < 16,
        ;
    }
}

/// Reads a sixteen-digit lowercase hexadecimal identifier.
pub fn parse_hex16_chars(s: &[char]) -> (r: Option<u64>)
    ensures
        match r {
            Some(v) => parse_hex16(s@) == Some(v as nat),
            None => parse_hex16(s@) is None,
        },
{
    if s.len() != 16 {
        return None;
    }
    let mut acc: u64 = 0;
    let mut i: usize = 0;
    assert(s@.take(0) =~= Seq::<char>::empty());
    while i < 16
        invariant
            s@.len() == 16,
            i <= 16,
            forall|j: int| 0 <= j < i ==> is_lower_hex(#[trigger] s@[j]),
            acc as nat == hex_digits_value(s@.take(i as int)),
            acc < pow16(i as nat),
        decreases 16 - i,
    {
        let c = s[i];
        let h: u64 = if '0' <= c && c <= '9' {
            (c as u64) - 48
        } else if 'a' <= c && c <= 'f' {
            (c as u64) - 87
        } else {
            return None;
        };
        assert(s@.take(i + 1).drop_last() =~= s@.take(i as int));
        proof {
            reveal_with_fuel(pow16, 17);
            assert(pow16(16) == 0x1_0000_0000_0000_0000);
            lemma_pow16_mono(i as nat + 1, 16);
            assert(acc * 16 + h < 16 * pow16(i as nat)) by (nonlinear_arith)
                requires
                    acc < pow16(i as nat),
                    h < 16,
            ;
        }
        acc = acc * 16 + h;
        i = i + 1;
    }
    assert(s@.take(16) =~= s@);
    Some(acc)
}

proof fn lemma_pow16_pos(k: nat)
    ensures
        pow16(k) > 0,
    decreases k,
{
    if k > 0 {
        lemma_pow16_pos((k - 1) as nat);
    }
}

proof fn lemma_pow16_mono(a: nat, b: nat)
    requires
        a <= b,
    ensures
        pow16(a) <= pow16(b),
    decreases b - a,
{
    if a < b {
        lemma_pow16_mono(a, (b - 1) as nat);
        assert(pow16(b) == 16 * pow16((b - 1) as nat));
    }
}

} // verus!
