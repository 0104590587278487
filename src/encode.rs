//! Order-preserving text form of a 64-bit value.

use vstd::prelude::*;

verus! {

/// ASCII code of the symbol for the 6-bit digit `d` in the alphabet
/// `-0123456789ABCDEFGHIJKLMNOPQRSTUVWXYZ_abcdefghijklmnopqrstuvwxyz`,
/// whose codes rise strictly with the digit.
pub open spec fn symbol_code(d: int) -> int {
    if d == 0 {
        45
    } else if d <= 10 {
        d + 47
    } else if d <= 36 {
        d + 54
    } else if d == 37 {
        95
    } else {
        d + 59
    }
}

/// The symbol for digit `d`.
pub open spec fn symbol(d: int) -> char {
    (symbol_code(d) as u8) as char
}

/// Symbol of the alphabet for a digit below 64.
pub fn symbol_byte(d: u64) -> (r: u8)
    requires
        d < 64,
    ensures
        r as int == symbol_code(d as int),
{
    if d == 0 {
        45
    } else if d <= 10 {
        (d + 47) as u8
    } else if d <= 36 {
        (d + 54) as u8
    } else if d == 37 {
        95
    } else {
        (d + 59) as u8
    }
}


/// The digit at position `k` (0 to 10, most significant first) of the value
/// read as 66 bits: the value itself followed by two zero bits.
pub open spec fn sextet(v: u64, k: int) -> u64 {
    if k < 10 {
        (v >> ((58 - 6 * k) as u64)) & 63u64
    } else {
        (v & 15u64) << 2u64
    }
}

/// The 11-character text form of `v`.
pub open spec fn encoding(v: u64) -> Seq<char> {
    Seq::new(11, |k: int| symbol(sextet(v, k) as int))
}

/// A character of the alphabet.
pub open spec fn in_alphabet(c: char) -> bool {
    exists|d: int| 0 <= d < 64 && c == symbol(d)
}

proof fn lemma_low_six_bits(x: u64)
    ensures
        x & 63 < 64,
{
    assert(x & 63 < 64) by (bit_vector);
}

proof fn lemma_sextet_bound(v: u64, k: int)
    requires
        0 <= k < 11,
    ensures
        sextet(v, k) < 64,
{
    if k < 10 {
        let s = (58 - 6 * k) as u64;
        assert((v >> s) & 63u64 < 64) by (bit_vector);
    } else {
        assert((v & 15u64) << 2u64 < 64) by (bit_vector);
    }
}

/// The four digits that three bytes of `v`, starting at bit `s + 7`, expand to.
proof fn lemma_three_bytes(v: u64, s: u64)
    requires
        16 <= s <= 56,
    ensures
        (((v >> s) & 255) >> 2) & 63 == (v >> ((s + 2) as u64)) & 63,
        (((v >> s) & 255) & 3) << 4 | ((((v >> ((s - 8) as u64)) & 255) >> 4) & 15) == (v >> ((s - 4) as u64)) & 63,
        (((v >> ((s - 8) as u64)) & 255) & 15) << 2 | ((((v >> ((s - 16) as u64)) & 255) >> 6) & 3) == (v >> ((s - 10) as u64)) & 63,
        ((v >> ((s - 16) as u64)) & 255) & 63 == (v >> ((s - 16) as u64)) & 63,
{
    assert((((v >> s) & 255) >> 2) & 63 == (v >> ((s + 2) as u64)) & 63) by (bit_vector)
        requires 16 <= s <= 56;
    assert((((v >> s) & 255) & 3) << 4 | ((((v >> ((s - 8) as u64)) & 255) >> 4) & 15) == (v >> ((s - 4) as u64)) & 63)
        by (bit_vector)
        requires 16 <= s <= 56;
    assert((((v >> ((s - 8) as u64)) & 255) & 15) << 2 | ((((v >> ((s - 16) as u64)) & 255) >> 6) & 3) == (v >> ((s - 10) as u64)) & 63)
        by (bit_vector)
        requires 16 <= s <= 56;
    assert(((v >> ((s - 16) as u64)) & 255) & 63 == (v >> ((s - 16) as u64)) & 63) by (bit_vector)
        requires 16 <= s <= 56;
}

/// The three digits that the last two bytes of `v` expand to.
proof fn lemma_last_two_bytes(v: u64)
    ensures
        (((v >> 8) & 255) >> 2) & 63 == (v >> 10) & 63,
        (((v >> 8) & 255) & 3) << 4 | (((v & 255) >> 4) & 15) == (v >> 4) & 63,
        ((v & 255) & 15) << 2 == (v & 15) << 2,
{
    assert((((v >> 8) & 255) >> 2) & 63 == (v >> 10) & 63) by (bit_vector);
    assert((((v >> 8) & 255) & 3) << 4 | (((v & 255) >> 4) & 15) == (v >> 4) & 63) by (bit_vector);
    assert(((v & 255) & 15) << 2 == (v & 15) << 2) by (bit_vector);
}

/// Relies on String::from_utf8, which keeps the bytes of valid UTF-8 text; a
/// byte below 128 is the one-byte UTF-8 form of the character with that code.
#[verifier::external_body]
fn ascii_string(bytes: Vec<u8>) -> (r: String)
    requires
        forall|i: int| 0 <= i < bytes@.len() ==> bytes@[i] < 128,
    ensures
        r@ == bytes@.map_values(|b: u8| b as char),
{
    String::from_utf8(bytes).unwrap()
}

/// Encodes `value` as 11 characters of the alphabet, with no padding: the
/// eight big-endian bytes are read three at a time, four digits each, and the
/// last two bytes give three digits, the last of them ending in two zero bits.
pub fn base64_encode_u64(value: u64) -> (r: String)
    ensures
        r@ == encoding(value),
        r@.len() == 11,
        forall|k: int| 0 <= k < 11 ==> in_alphabet(#[trigger] r@[k]),
{
    let mut result: Vec<u8> = Vec::with_capacity(11);
    let mut i: u64 = 0;
    while i + 2 < 8
        invariant
            i == 0 || i == 3 || i == 6,
            result@.len() == 4 * i / 3,
            forall|j: int|
                0 <= j < result@.len() ==> #[trigger] result@[j] as int == symbol_code(
                    sextet(value, j) as int,
                ),
        decreases 8 - i,
    {
        let s: u64 = 56 - 8 * i;
        let b1 = (value >> s) & 0xFF;
        let b2 = (value >> (s - 8)) & 0xFF;
        let b3 = (value >> (s - 16)) & 0xFF;
        proof {
            lemma_three_bytes(value, s);
            lemma_low_six_bits(value >> ((s + 2) as u64));
            lemma_low_six_bits(value >> ((s - 4) as u64));
            lemma_low_six_bits(value >> ((s - 10) as u64));
            lemma_low_six_bits(value >> ((s - 16) as u64));
            let k = 4 * i / 3;
            assert(58 - 6 * k == s + 2);
        }
        result.push(symbol_byte((b1 >> 2) & 0x3F));
        result.push(symbol_byte(((b1 & 0x03) << 4) | ((b2 >> 4) & 0x0F)));
        result.push(symbol_byte(((b2 & 0x0F) << 2) | ((b3 >> 6) & 0x03)));
        result.push(symbol_byte(b3 & 0x3F));
        i += 3;
    }
    // Two bytes remain: they give three digits.
    let b1 = (value >> 8) & 0xFF;
    let b2 = value & 0xFF;
    proof {
        lemma_last_two_bytes(value);
        lemma_low_six_bits(value >> 10);
        lemma_low_six_bits(value >> 4);
        lemma_sextet_bound(value, 10);
    }
    result.push(symbol_byte((b1 >> 2) & 0x3F));
    result.push(symbol_byte(((b1 & 0x03) << 4) | ((b2 >> 4) & 0x0F)));
    result.push(symbol_byte((b2 & 0x0F) << 2));
    proof {
        assert forall|k: int| 0 <= k < 11 implies result@[k] < 128 && (result@[k] as char) == symbol(
            sextet(value, k) as int,
        ) by {
            lemma_sextet_bound(value, k);
        }
    }
    let r = ascii_string(result);
    proof {
        assert(r@ =~= encoding(value));
        assert forall|k: int| 0 <= k < 11 implies in_alphabet(#[trigger] r@[k]) by {
            lemma_sextet_bound(value, k);
            assert(r@[k] == symbol(sextet(value, k) as int));
        }
    }
    r
}


/// `a` comes strictly before `b` when compared character by character, by
/// code, a proper prefix first.
pub open spec fn lex_lt(a: Seq<char>, b: Seq<char>) -> bool {
    (exists|i: int|
        0 <= i < a.len() && i < b.len() && a.take(i) == b.take(i) && (a[i] as u32) < (
        b[i] as u32))
    || (a.len() < b.len() && a == b.take(a.len() as int))
}

/// The digits of `v` above position `k` read as one number: the first `k`
/// digits, with the two trailing zero bits left out at the end.
spec fn leading(v: u64, k: int) -> u64 {
    if k <= 0 {
        0
    } else if k <= 10 {
        v >> ((64 - 6 * k) as u64)
    } else {
        v
    }
}

proof fn lemma_symbol_rises(d1: int, d2: int)
    requires
        0 <= d1 < d2 < 64,
    ensures
        (symbol(d1) as u32) < (symbol(d2) as u32),
{
}

proof fn lemma_leading_step(v: u64, k: int)
    requires
        0 <= k < 11,
    ensures
        k < 10 ==> sextet(v, k) == leading(v, k + 1) & 63,
        k < 10 ==> leading(v, k + 1) >> 6 == leading(v, k),
        k == 10 ==> leading(v, k + 1) >> 4 == leading(v, k),
{
    if k == 0 {
        assert((v >> 58u64) >> 6u64 == 0) by (bit_vector);
    } else if k < 10 {
        let t = (58 - 6 * k) as u64;
        assert((v >> t) >> 6u64 == v >> ((t + 6) as u64)) by (bit_vector)
            requires t <= 52;
    }
}

proof fn lemma_shift_monotone(a: u64, b: u64, t: u64)
    requires
        a <= b,
    ensures
        a >> t <= b >> t,
{
    assert(a <= b ==> a >> t <= b >> t) by (bit_vector);
}

proof fn lemma_low_digit(x: u64, y: u64)
    requires
        x <= y,
        x >> 6 == y >> 6,
    ensures
        x & 63 <= y & 63,
        x & 63 == y & 63 ==> x == y,
{
    assert(x <= y && x >> 6 == y >> 6 ==> x & 63 <= y & 63) by (bit_vector);
    assert(x >> 6 == y >> 6 && x & 63 == y & 63 ==> x == y) by (bit_vector);
}

proof fn lemma_last_digit(x: u64, y: u64)
    requires
        x <= y,
        x >> 4 == y >> 4,
    ensures
        (x & 15) << 2 <= (y & 15) << 2,
        (x & 15) << 2 == (y & 15) << 2 ==> x == y,
{
    assert(x <= y && x >> 4 == y >> 4 ==> (x & 15) << 2 <= (y & 15) << 2) by (bit_vector);
    assert(x >> 4 == y >> 4 && (x & 15) << 2 == (y & 15) << 2 ==> x == y) by (bit_vector);
}

/// The first position, from `k` on, at which the digits of `a < b` differ:
/// there the digit of `a` is the smaller.
proof fn lemma_first_difference(a: u64, b: u64, k: int) -> (i: int)
    requires
        a < b,
        0 <= k < 11,
        leading(a, k) == leading(b, k),
        forall|j: int| 0 <= j < k ==> sextet(a, j) == sextet(b, j),
    ensures
        k <= i < 11,
        forall|j: int| 0 <= j < i ==> sextet(a, j) == sextet(b, j),
        sextet(a, i) < sextet(b, i),
    decreases 11 - k,
{
    lemma_leading_step(a, k);
    lemma_leading_step(b, k);
    if k < 10 {
        lemma_shift_monotone(a, b, (64 - 6 * (k + 1)) as u64);
        lemma_low_digit(leading(a, k + 1), leading(b, k + 1));
        if sextet(a, k) == sextet(b, k) {
            lemma_first_difference(a, b, k + 1)
        } else {
            k
        }
    } else {
        lemma_last_digit(a, b);
        k
    }
}

/// Order is kept: for `a < b`, the text of `a` comes strictly before the text
/// of `b`.
pub proof fn lemma_encoding_keeps_order(a: u64, b: u64)
    requires
        a < b,
    ensures
        lex_lt(encoding(a), encoding(b)),
{
    let i = lemma_first_difference(a, b, 0);
    lemma_sextet_bound(a, i);
    lemma_sextet_bound(b, i);
    lemma_symbol_rises(sextet(a, i) as int, sextet(b, i) as int);
    assert(encoding(a).take(i) =~= encoding(b).take(i));
}

/// Distinct values have distinct texts.
pub proof fn lemma_encoding_injective(a: u64, b: u64)
    requires
        a != b,
    ensures
        encoding(a) != encoding(b),
{
    if a < b {
        lemma_encoding_keeps_order(a, b);
        lemma_lex_lt_differs(encoding(a), encoding(b));
    } else {
        lemma_encoding_keeps_order(b, a);
        lemma_lex_lt_differs(encoding(b), encoding(a));
    }
}

proof fn lemma_lex_lt_differs(x: Seq<char>, y: Seq<char>)
    requires
        lex_lt(x, y),
    ensures
        x != y,
{
}

} // verus!
