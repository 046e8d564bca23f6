//! Fixed-width hexadecimal codec: a `u32` as eight uppercase hex digits, and back.

use crate::text::backwards;
use std::str::Chars;
use vstd::prelude::*;
use vstd::std_specs::iter::IteratorSpec;

verus! {

/// Why a token could not be decoded.
#[derive(Clone, Copy, Debug, PartialEq, Eq, Structural)]
pub enum DecodeError {
    /// Fewer than eight characters were left, or one of the eight is not a hex digit.
    MalformedToken,
}

/// Whether `c` is one of `0-9`, `a-f`, `A-F`.
pub open spec fn is_hex_digit_spec(c: char) -> bool {
    ('0' <= c && c <= '9') || ('a' <= c && c <= 'f') || ('A' <= c && c <= 'F')
}

/// The number a hex digit stands for, in either case; 0 for any other character.
pub open spec fn digit_value(c: char) -> nat {
    if '0' <= c && c <= '9' {
        (c as u32 - '0' as u32) as nat
    } else if 'a' <= c && c <= 'f' {
        (c as u32 - 'a' as u32 + 10) as nat
    } else if 'A' <= c && c <= 'F' {
        (c as u32 - 'A' as u32 + 10) as nat
    } else {
        0
    }
}

/// The uppercase hex digit for `d % 16`.
pub open spec fn hex_char(d: nat) -> char {
    let d = (d % 16) as u8;
    if d < 10 {
        ('0' as u8 + d) as char
    } else {
        ('A' as u8 + (d - 10) as u8) as char
    }
}

/// Whether every character of `s` is a hex digit.
pub open spec fn all_hex(s: Seq<char>) -> bool {
    forall|i: int| 0 <= i < s.len() ==> is_hex_digit_spec(#[trigger] s[i])
}

/// The number that a string of hex digits denotes, most significant digit first.
pub open spec fn hex_value(s: Seq<char>) -> nat
    decreases s.len(),
{
    if s.len() == 0 {
        0
    } else {
        hex_value(s.drop_last()) * 16 + digit_value(s.last())
    }
}

/// The lowest `width` hex digits of `n`, most significant first, in uppercase.
pub open spec fn hex_digits(n: nat, width: nat) -> Seq<char>
    decreases width,
{
    if width == 0 {
        Seq::empty()
    } else {
        hex_digits(n / 16, (width - 1) as nat).push(hex_char(n % 16))
    }
}

/// The token of a 32-bit value: its eight hex digits.
pub open spec fn token(value: u32) -> Seq<char> {
    hex_digits(value as nat, 8)
}

/// 16 to the power `k`.
pub open spec fn pow16(k: nat) -> nat
    decreases k,
{
    if k == 0 {
        1
    } else {
        16 * pow16((k - 1) as nat)
    }
}

/// Whether `s` starts with eight hex digits.
pub open spec fn starts_with_token(s: Seq<char>) -> bool {
    s.len() >= 8 && all_hex(s.take(8))
}

/// What decoding the front of `s` gives: the value of its first eight
/// characters if they are all hex digits, and an error otherwise.
pub open spec fn decode_spec(s: Seq<char>) -> Result<u32, DecodeError> {
    if starts_with_token(s) {
        Ok(hex_value(s.take(8)) as u32)
    } else {
        Err(DecodeError::MalformedToken)
    }
}

/// `pow16` on the exponents up to eight.
pub proof fn lemma_pow16_values()
    ensures
        pow16(0) == 1,
        pow16(1) == 0x10,
        pow16(2) == 0x100,
        pow16(3) == 0x1000,
        pow16(4) == 0x1_0000,
        pow16(5) == 0x10_0000,
        pow16(6) == 0x100_0000,
        pow16(7) == 0x1000_0000,
        pow16(8) == 0x1_0000_0000,
{
    reveal_with_fuel(pow16, 10);
}

/// `pow16` grows with its exponent.
pub proof fn lemma_pow16_monotone(a: nat, b: nat)
    requires
        a <= b,
    ensures
        pow16(a) <= pow16(b),
    decreases b,
{
    if a < b {
        lemma_pow16_monotone(a, (b - 1) as nat);
    }
}

/// A string of `k` digits denotes a number below `16^k`.
pub proof fn lemma_hex_value_bound(s: Seq<char>)
    ensures
        hex_value(s) < pow16(s.len()),
    decreases s.len(),
{
    if s.len() > 0 {
        lemma_hex_value_bound(s.drop_last());
        assert(digit_value(s.last()) < 16);
    }
}

/// `hex_digits` gives `width` hex digits.
pub proof fn lemma_hex_digits_shape(n: nat, width: nat)
    ensures
        hex_digits(n, width).len() == width,
        all_hex(hex_digits(n, width)),
    decreases width,
{
    if width > 0 {
        lemma_hex_digits_shape(n / 16, (width - 1) as nat);
    }
}

/// The digits of a number that fits in `width` digits denote that number.
pub proof fn lemma_hex_value_of_digits(n: nat, width: nat)
    requires
        n < pow16(width),
    ensures
        hex_value(hex_digits(n, width)) == n,
    decreases width,
{
    if width > 0 {
        let rest = hex_digits(n / 16, (width - 1) as nat);
        lemma_hex_value_of_digits(n / 16, (width - 1) as nat);
        assert(hex_digits(n, width).drop_last() =~= rest);
        assert(digit_value(hex_char(n % 16)) == n % 16);
    }
}

/// Decoding the token of a value gives the value back.
pub proof fn lemma_decode_encode(value: u32)
    ensures
        decode_spec(token(value)) == Ok::<u32, DecodeError>(value),
{
    lemma_pow16_values();
    lemma_hex_digits_shape(value as nat, 8);
    lemma_hex_value_of_digits(value as nat, 8);
    assert(token(value).take(8) =~= token(value));
}

/// Decoding looks at the first eight characters only: what follows them
/// does not change the result.
pub proof fn lemma_decode_ignores_rest(s: Seq<char>, rest: Seq<char>)
    requires
        s.len() >= 8,
    ensures
        decode_spec(s + rest) == decode_spec(s),
{
    assert((s + rest).take(8) =~= s.take(8));
}

/// Whether `c` is a hex digit, in either case.
#[verifier::when_used_as_spec(is_hex_digit_spec)]
pub fn is_hex_digit(c: char) -> (r: bool)
    ensures
        r == is_hex_digit_spec(c),
{
    ('0' <= c && c <= '9') || ('a' <= c && c <= 'f') || ('A' <= c && c <= 'F')
}

/// The uppercase hex digit for a number below sixteen.
fn hex_char_of(d: u32) -> (c: char)
    requires
        d < 16,
    ensures
        c == hex_char(d as nat),
{
    let d: u8 = d as u8;
    if d < 10 {
        ('0' as u8 + d) as char
    } else {
        ('A' as u8 + (d - 10)) as char
    }
}

/// The number that a hex digit stands for.
fn digit_value_of(c: char) -> (d: u32)
    requires
        is_hex_digit_spec(c),
    ensures
        d == digit_value(c),
        d < 16,
{
    if '0' <= c && c <= '9' {
        c as u32 - '0' as u32
    } else if 'a' <= c && c <= 'f' {
        c as u32 - 'a' as u32 + 10
    } else {
        c as u32 - 'A' as u32 + 10
    }
}

/// Encodes `value` as exactly eight uppercase hex digits, zero-padded.
pub fn encode(value: u32) -> (r: String)
    ensures
        r@ == token(value),
{
    let mut digits: Vec<char> = Vec::new();
    let mut rest: u32 = value;
    let mut k: usize = 0;
    // Least significant digit first.
    while k < 8
        invariant
            k <= 8,
            digits@.len() == k,
            token(value) == hex_digits(rest as nat, (8 - k) as nat) + digits@.reverse(),
        decreases 8 - k,
    {
        let c = hex_char_of(rest % 16);
        proof {
            let ghost front = hex_digits((rest / 16) as nat, (8 - k - 1) as nat);
            assert(hex_digits(rest as nat, (8 - k) as nat) == front.push(c));
            assert(front.push(c) + digits@.reverse() =~= front + digits@.push(c).reverse());
        }
        digits.push(c);
        rest = rest / 16;
        k = k + 1;
    }
    assert(token(value) =~= digits@.reverse());
    backwards(&digits)
}

/// Takes one eight-digit token off the front of `chars`.
///
/// On success the iterator stands right behind the token, so that the next
/// parser in a chain goes on from there. On failure nothing is promised of
/// where it stands.
pub fn parse_hex8(chars: &mut Chars<'_>) -> (r: Result<u32, DecodeError>)
    ensures
        r == decode_spec((*old(chars)).remaining()),
        r is Ok ==> (*final(chars)).remaining() == (*old(chars)).remaining().skip(8),
{
    broadcast use vstd::string::next_postcondition;

    let ghost input = (*old(chars)).remaining();
    let mut acc: u32 = 0;
    let mut i: usize = 0;
    assert(input.skip(0) =~= input);
    while i < 8
        invariant
            i <= 8,
            i <= input.len(),
            input == (*old(chars)).remaining(),
            (*chars).remaining() =~= input.skip(i as int),
            all_hex(input.take(i as int)),
            acc == hex_value(input.take(i as int)),
        decreases 8 - i,
    {
        match chars.next() {
            None => {
                assert(input.skip(i as int).len() == 0);
                return Err(DecodeError::MalformedToken);
            },
            Some(c) => {
                assert(c == input[i as int]);
                if !is_hex_digit(c) {
                    assert(input.len() >= 8 ==> input.take(8)[i as int] == c);
                    return Err(DecodeError::MalformedToken);
                }
                let d: u32 = digit_value_of(c);
                proof {
                    lemma_hex_value_bound(input.take(i as int));
                    lemma_pow16_values();
                    lemma_pow16_monotone(i as nat, 7);
                    assert(input.take(i + 1).drop_last() =~= input.take(i as int));
                    assert(input.skip(i as int).drop_first() =~= input.skip(i + 1));
                }
                acc = acc * 16 + d;
                i = i + 1;
            },
        }
    }
    Ok(acc)
}

/// Decodes the first eight characters of `input`, which must all be hex
/// digits (either case). What follows them is not looked at.
pub fn decode(input: &str) -> (r: Result<u32, DecodeError>)
    ensures
        r == decode_spec(input@),
{
    broadcast use vstd::string::axiom_spec_iter;

    let mut chars = input.chars();
    parse_hex8(&mut chars)
}

/// The value of a string of exactly eight hex digits.
pub fn from_hex8(input: &str) -> (r: Result<u32, DecodeError>)
    ensures
        r == (if input@.len() == 8 {
            decode_spec(input@)
        } else {
            Err(DecodeError::MalformedToken)
        }),
{
    broadcast use vstd::string::axiom_spec_iter;
    broadcast use vstd::string::next_postcondition;

    let mut chars = input.chars();
    match parse_hex8(&mut chars) {
        Err(e) => Err(e),
        Ok(value) => match chars.next() {
            None => Ok(value),
            Some(_) => Err(DecodeError::MalformedToken),
        },
    }
}

} // verus!
