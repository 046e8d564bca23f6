//! Texts: what the library needs of `str` and `String` beyond what vstd
//! says of them.

use vstd::prelude::*;
use vstd::std_specs::iter::IteratorSpec;

verus! {

/// `String::push` puts the character at the end of the string.
pub assume_specification[ String::push ](s: &mut String, c: char)
    ensures
        final(s)@ == old(s)@.push(c),
;

/// `==` on `str`: two texts are equal when they hold the same characters.
#[verifier::external_body]
pub(crate) fn same_text(a: &str, b: &str) -> (r: bool)
    ensures
        r == (a@ == b@),
{
    a == b
}

/// The text of `chars` read from the last to the first.
pub fn backwards(chars: &Vec<char>) -> (r: String)
    ensures
        r@ == chars@.reverse(),
{
    let mut r = String::new();
    let mut i: usize = chars.len();
    while i > 0
        invariant
            i <= chars@.len(),
            r@ == chars@.reverse().take(chars@.len() - i),
        decreases i,
    {
        i = i - 1;
        r.push(chars[i]);
        assert(r@ =~= chars@.reverse().take(chars@.len() - i));
    }
    assert(chars@.reverse().take(chars@.len() as int) =~= chars@.reverse());
    r
}

/// The characters of a text, one by one.
pub fn chars_of(text: &str) -> (r: Vec<char>)
    ensures
        r@ == text@,
{
    broadcast use vstd::string::axiom_spec_iter;
    broadcast use vstd::string::next_postcondition;

    let mut chars = text.chars();
    let mut r: Vec<char> = Vec::new();
    assert(text@.skip(0) =~= text@);
    loop
        invariant
            r@.len() <= text@.len(),
            r@ == text@.take(r@.len() as int),
            chars.remaining() == text@.skip(r@.len() as int),
        decreases text@.len() - r@.len(),
    {
        match chars.next() {
            None => {
                assert(text@.skip(r@.len() as int).len() == 0);
                assert(text@.take(r@.len() as int) =~= text@);
                return r;
            },
            Some(c) => {
                let ghost n = r@.len() as int;
                assert(c == text@[n]);
                assert(text@.skip(n).drop_first() =~= text@.skip(n + 1));
                r.push(c);
                assert(r@ =~= text@.take(n + 1));
            },
        }
    }
}

} // verus!
