//! Hexadecimal digits in ASCII text.

use vstd::prelude::*;

verus! {

/// The value of the byte `b` read as a hexadecimal digit of either case.
pub open spec fn spec_hex_digit(b: u8) -> Option<u8> {
    if 0x30 <= b <= 0x39 {
        Some((b - 0x30) as u8)
    } else if 0x41 <= b <= 0x46 {
        Some((b - 0x41 + 10) as u8)
    } else if 0x61 <= b <= 0x66 {
        Some((b - 0x61 + 10) as u8)
    } else {
        None
    }
}

/// Whether `b` is a digit or one of the capital letters `A` to `F`.
pub open spec fn spec_is_upper_hex(b: u8) -> bool {
    0x30 <= b <= 0x39 || 0x41 <= b <= 0x46
}

/// The value of two hexadecimal digits, the first being the more significant.
pub open spec fn spec_hex_byte(s: Seq<u8>) -> Option<u8>
    recommends
        s.len() == 2,
{
    match (spec_hex_digit(s[0]), spec_hex_digit(s[1])) {
        (Some(high), Some(low)) => Some((high * 16 + low) as u8),
        _ => None,
    }
}

/// The value of four hexadecimal digits, the first being the most significant.
pub open spec fn spec_hex_word(s: Seq<u8>) -> Option<u16>
    recommends
        s.len() == 4,
{
    match (spec_hex_byte(s.subrange(0, 2)), spec_hex_byte(s.subrange(2, 4))) {
        (Some(high), Some(low)) => Some((high * 256 + low) as u16),
        _ => None,
    }
}

/// The capital hexadecimal digit that stands for `n`, for `n` below 16.
pub open spec fn spec_hex_char(n: u8) -> u8
    recommends
        n < 16,
{
    if n < 10 {
        (0x30 + n) as u8
    } else {
        (0x41 + n - 10) as u8
    }
}

/// The two capital hexadecimal digits of a byte.
pub open spec fn spec_hex_byte_text(b: u8) -> Seq<u8> {
    seq![spec_hex_char(b / 16), spec_hex_char(b % 16)]
}

/// The four capital hexadecimal digits of a 16-bit number.
pub open spec fn spec_hex_word_text(w: u16) -> Seq<u8> {
    spec_hex_byte_text((w / 256) as u8) + spec_hex_byte_text((w % 256) as u8)
}

/// Reads one hexadecimal digit.
pub fn hex_digit(b: u8) -> (d: Option<u8>)
    ensures
        d == spec_hex_digit(b),
        d matches Some(v) ==> v < 16,
{
    if 0x30 <= b && b <= 0x39 {
        Some(b - 0x30)
    } else if 0x41 <= b && b <= 0x46 {
        Some(b - 0x41 + 10)
    } else if 0x61 <= b && b <= 0x66 {
        Some(b - 0x61 + 10)
    } else {
        None
    }
}

/// Tells whether `b` is a digit or a capital letter from `A` to `F`.
pub fn is_upper_hex(b: u8) -> (r: bool)
    ensures
        r == spec_is_upper_hex(b),
{
    (0x30 <= b && b <= 0x39) || (0x41 <= b && b <= 0x46)
}

/// Reads the two hexadecimal digits at `at` and `at + 1`.
pub fn hex_byte(s: &[u8], at: usize) -> (r: Option<u8>)
    requires
        at + 2 <= s.len(),
    ensures
        r == spec_hex_byte(s@.subrange(at as int, at + 2)),
{
    let high = hex_digit(s[at]);
    let low = hex_digit(s[at + 1]);
    match (high, low) {
        (Some(h), Some(l)) => Some(h * 16 + l),
        _ => None,
    }
}

/// Reads the four hexadecimal digits that start at `at`.
pub fn hex_word(s: &[u8], at: usize) -> (r: Option<u16>)
    requires
        at + 4 <= s.len(),
    ensures
        r == spec_hex_word(s@.subrange(at as int, at + 4)),
{
    proof {
        let w = s@.subrange(at as int, at + 4);
        assert(w.subrange(0, 2) =~= s@.subrange(at as int, at + 2));
        assert(w.subrange(2, 4) =~= s@.subrange(at + 2, at + 4));
    }
    let high = hex_byte(s, at);
    let low = hex_byte(s, at + 2);
    match (high, low) {
        (Some(h), Some(l)) => {
            let h16: u16 = h as u16;
            let l16: u16 = l as u16;
            Some(h16 * 256 + l16)
        },
        _ => None,
    }
}

/// The capital hexadecimal digit for a number below 16.
pub fn hex_char(n: u8) -> (c: u8)
    requires
        n < 16,
    ensures
        c == spec_hex_char(n),
        spec_is_upper_hex(c),
        c < 128,
{
    if n < 10 {
        0x30 + n
    } else {
        0x41 + n - 10
    }
}

/// A capital hexadecimal digit reads back as the number it stands for.
pub proof fn lemma_hex_char_round_trip(n: u8)
    requires
        n < 16,
    ensures
        spec_hex_digit(spec_hex_char(n)) == Some(n),
        spec_is_upper_hex(spec_hex_char(n)),
{
}

/// The two digits written for a byte read back as that byte.
pub proof fn lemma_hex_byte_round_trip(b: u8)
    ensures
        spec_hex_byte(spec_hex_byte_text(b)) == Some(b),
        spec_hex_byte_text(b).len() == 2,
        spec_is_upper_hex(spec_hex_byte_text(b)[0]),
        spec_is_upper_hex(spec_hex_byte_text(b)[1]),
{
    lemma_hex_char_round_trip(b / 16);
    lemma_hex_char_round_trip(b % 16);
}

/// The four digits written for a 16-bit number read back as that number.
pub proof fn lemma_hex_word_round_trip(w: u16)
    ensures
        spec_hex_word(spec_hex_word_text(w)) == Some(w),
        spec_hex_word_text(w).len() == 4,
        forall|i: int| 0 <= i < 4 ==> spec_is_upper_hex(#[trigger] spec_hex_word_text(w)[i]),
{
    let high = (w / 256) as u8;
    let low = (w % 256) as u8;
    lemma_hex_byte_round_trip(high);
    lemma_hex_byte_round_trip(low);
    let t = spec_hex_word_text(w);
    assert(t.subrange(0, 2) =~= spec_hex_byte_text(high));
    assert(t.subrange(2, 4) =~= spec_hex_byte_text(low));
}

} // verus!
