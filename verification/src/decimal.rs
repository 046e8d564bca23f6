//! Decimal numerals: a number as its digits, and digits as their number.

use crate::text::backwards;
use vstd::prelude::*;

verus! {

/// Whether `c` is one of `0` to `9`.
pub open spec fn is_digit(c: char) -> bool {
    '0' <= c && c <= '9'
}

/// The digit for `d % 10`.
pub open spec fn digit_char(d: nat) -> char {
    ('0' as u8 + (d % 10) as u8) as char
}

/// The number that a digit stands for; 0 for any other character.
pub open spec fn digit_value(c: char) -> nat {
    if is_digit(c) {
        (c as u32 - '0' as u32) as nat
    } else {
        0
    }
}

/// The decimal numeral of `n`, without leading zeros.
pub open spec fn decimal(n: nat) -> Seq<char>
    decreases n,
{
    if n < 10 {
        seq![digit_char(n)]
    } else {
        decimal(n / 10).push(digit_char(n % 10))
    }
}

/// The number that a string of digits denotes.
pub open spec fn decimal_value(s: Seq<char>) -> nat
    decreases s.len(),
{
    if s.len() == 0 {
        0
    } else {
        decimal_value(s.drop_last()) * 10 + digit_value(s.last())
    }
}

/// Whether every character of `s` is a digit.
pub open spec fn all_digits(s: Seq<char>) -> bool {
    forall|i: int| 0 <= i < s.len() ==> is_digit(#[trigger] s[i])
}

/// A numeral has at least one character, and digits only.
pub proof fn lemma_decimal_shape(n: nat)
    ensures
        decimal(n).len() >= 1,
        all_digits(decimal(n)),
    decreases n,
{
    if n >= 10 {
        lemma_decimal_shape(n / 10);
    }
}

/// The numeral of a number denotes that number.
pub proof fn lemma_decimal_value(n: nat)
    ensures
        decimal_value(decimal(n)) == n,
    decreases n,
{
    if n < 10 {
        assert(decimal(n).drop_last() =~= Seq::<char>::empty());
        assert(decimal_value(Seq::<char>::empty()) == 0);
        assert(digit_value(digit_char(n)) == n);
    } else {
        lemma_decimal_value(n / 10);
        assert(decimal(n).drop_last() =~= decimal(n / 10));
        assert(digit_value(digit_char(n % 10)) == n % 10);
    }
}

/// The digit for a number below ten.
fn digit_char_of(d: u64) -> (c: char)
    requires
        d < 10,
    ensures
        c == digit_char(d as nat),
{
    ('0' as u8 + d as u8) as char
}

/// The decimal numeral of `n`.
pub fn to_decimal(n: u64) -> (r: String)
    ensures
        r@ == decimal(n as nat),
{
    let mut digits: Vec<char> = Vec::new();
    digits.push(digit_char_of(n % 10));
    let mut rest: u64 = n / 10;
    proof {
        let ghost last = digit_char(n as nat % 10);
        assert(digits@.reverse() =~= seq![last]);
        if n >= 10 {
            assert(decimal(n as nat) =~= decimal(rest as nat) + seq![last]);
        }
    }
    // Least significant digit first.
    while rest > 0
        invariant
            digits@.len() >= 1,
            decimal(n as nat) == (if rest == 0 {
                digits@.reverse()
            } else {
                decimal(rest as nat) + digits@.reverse()
            }),
        decreases rest,
    {
        let c = digit_char_of(rest % 10);
        proof {
            let ghost front = decimal((rest / 10) as nat);
            if rest >= 10 {
                assert(decimal(rest as nat) == front.push(c));
                assert(front.push(c) + digits@.reverse() =~= front + digits@.push(c).reverse());
            } else {
                assert(decimal(rest as nat) =~= seq![c]);
                assert(seq![c] + digits@.reverse() =~= digits@.push(c).reverse());
            }
        }
        digits.push(c);
        rest = rest / 10;
    }
    backwards(&digits)
}

/// How many digits stand in `s` from position `from` on, before the first
/// character that is none, or the end.
pub open spec fn digit_run(s: Seq<char>, from: int) -> int
    decreases s.len() - from,
{
    if 0 <= from < s.len() && is_digit(s[from]) {
        1 + digit_run(s, from + 1)
    } else {
        0
    }
}

/// The number written at position `from` of `s`, with the position behind
/// it: the longest run of digits there, if it has a digit and its number
/// fits in 32 bits.
pub open spec fn number_at(s: Seq<char>, from: int) -> Option<(u32, int)> {
    let end = from + digit_run(s, from);
    let value = decimal_value(s.subrange(from, end));
    if end == from || value > u32::MAX {
        None
    } else {
        Some((value as u32, end))
    }
}

/// A run of digits ends where the digits end.
pub proof fn lemma_digit_run(s: Seq<char>, from: int, end: int)
    requires
        0 <= from <= end <= s.len(),
        forall|i: int| from <= i < end ==> is_digit(#[trigger] s[i]),
        end == s.len() || !is_digit(s[end]),
    ensures
        digit_run(s, from) == end - from,
    decreases end - from,
{
    if from < end {
        lemma_digit_run(s, from + 1, end);
    }
}

/// The numeral of a 32-bit number, wherever it stands in a text, is read
/// back as that number, if no digit follows it.
pub proof fn lemma_number_at_numeral(front: Seq<char>, value: u32, rest: Seq<char>)
    requires
        rest.len() == 0 || !is_digit(rest[0]),
    ensures
        number_at(front + decimal(value as nat) + rest, front.len() as int) == Some(
            (value, (front.len() + decimal(value as nat).len()) as int),
        ),
{
    let numeral = decimal(value as nat);
    let s = front + numeral + rest;
    let from = front.len() as int;
    let end = from + numeral.len();
    lemma_decimal_shape(value as nat);
    lemma_decimal_value(value as nat);
    assert forall|i: int| from <= i < end implies is_digit(#[trigger] s[i]) by {
        assert(s[i] == numeral[i - from]);
    }
    if rest.len() > 0 {
        assert(s[end] == rest[0]);
    }
    lemma_digit_run(s, from, end);
    assert(s.subrange(from, end) =~= numeral);
}

/// The number that a digit stands for.
fn digit_value_of(c: char) -> (d: u64)
    requires
        is_digit(c),
    ensures
        d == digit_value(c),
        d < 10,
{
    (c as u32 - '0' as u32) as u64
}

/// Whether `c` is one of `0` to `9`.
fn is_digit_char(c: char) -> (r: bool)
    ensures
        r == is_digit(c),
{
    '0' <= c && c <= '9'
}

/// Reads the number written at position `from` of `chars`: as many digits
/// as stand there. Gives the number and the position behind it; nothing
/// where no digit stands there or the number does not fit in 32 bits.
pub fn take_number(chars: &Vec<char>, from: usize) -> (r: Option<(u32, usize)>)
    ensures
        match r {
            Some((value, end)) => number_at(chars@, from as int) == Some((value, end as int))
                && end <= chars@.len(),
            None => number_at(chars@, from as int) is None,
        },
{
    let ghost s = chars@;
    if from > chars.len() {
        return None;
    }
    let mut i: usize = from;
    let mut acc: u64 = 0;
    let mut fits = true;
    assert(s.subrange(from as int, from as int) =~= Seq::<char>::empty());
    while i < chars.len() && is_digit_char(chars[i])
        invariant
            s == chars@,
            from <= i <= s.len(),
            digit_run(s, from as int) == (i - from) + digit_run(s, i as int),
            fits ==> acc == decimal_value(s.subrange(from as int, i as int)) && acc <= u32::MAX,
            !fits ==> decimal_value(s.subrange(from as int, i as int)) > u32::MAX,
        decreases s.len() - i,
    {
        let d: u64 = digit_value_of(chars[i]);
        proof {
            assert(s.subrange(from as int, i + 1).drop_last() =~= s.subrange(
                from as int,
                i as int,
            ));
            assert(s.subrange(from as int, i + 1).last() == s[i as int]);
        }
        if fits {
            acc = acc * 10 + d;
            if acc > 0xFFFF_FFFF {
                fits = false;
            }
        }
        i = i + 1;
    }
    if i == from || !fits {
        None
    } else {
        Some((acc as u32, i))
    }
}

} // verus!
