//! The three levels of identifier (project, document, section) and their
//! canonical text form: the fixed-width tokens of the ancestor chain, root
//! first, with nothing between them.
//!
//! Equality, hashing and ordering are structural: two identifiers are equal when
//! their values and their whole parent chains are, and they are ordered by the
//! parent chain first and by their own value last.

use crate::hex::{
    all_hex, decode_spec, encode, lemma_decode_encode, lemma_decode_ignores_rest,
    lemma_hex_digits_shape, parse_hex8, token,
};
use std::str::Chars;
use vstd::prelude::*;
use vstd::std_specs::iter::IteratorSpec;
use vstd::string::StringExecFns;

verus! {

/// Identifier of a project, the root of the hierarchy.
#[derive(Clone, Copy, Debug, PartialEq, Eq, Hash, Ord, Structural)]
pub struct Proj {
    pub value: u32,
}

/// Identifier of a document: its own value and a copy of its project's identifier.
#[derive(Clone, Copy, Debug, PartialEq, Eq, Hash, Ord, Structural)]
pub struct Doc {
    pub proj: Proj,
    pub value: u32,
}

/// Identifier of a section: its own value and a copy of its document's identifier.
#[derive(Clone, Copy, Debug, PartialEq, Eq, Hash, Ord, Structural)]
pub struct Sec {
    pub doc: Doc,
    pub value: u32,
}

/// Why a text is not an identifier.
#[derive(Clone, Copy, Debug, PartialEq, Eq, Structural)]
pub enum ParseError {
    /// The part of the text that starts at character `at` is not the tag or
    /// the number that belongs there.
    Malformed { at: usize },
}

/// What is left of a parse failure where identifiers are read back from
/// stored text: that the text has the wrong format, and nothing more.
#[derive(Clone, Copy, Debug, PartialEq, Eq, Structural)]
pub struct InvalidFormat;

impl InvalidFormat {
    /// The words for the failure.
    pub fn message(&self) -> (r: &'static str)
        ensures
            r@ == "invalid format"@,
    {
        "invalid format"
    }
}

/// The token at `at` in `s`, or the failure that names `at`.
pub open spec fn field_at(s: Seq<char>, at: usize) -> Result<u32, ParseError> {
    match decode_spec(s.skip(at as int)) {
        Ok(value) => Ok(value),
        Err(_) => Err(ParseError::Malformed { at }),
    }
}

/// Takes one token off `chars`; `at` is where it starts in the whole text.
fn take_field(chars: &mut Chars<'_>, at: usize) -> (r: Result<u32, ParseError>)
    ensures
        r == (match decode_spec((*old(chars)).remaining()) {
            Ok(value) => Ok::<u32, ParseError>(value),
            Err(_) => Err(ParseError::Malformed { at }),
        }),
        r is Ok ==> (*final(chars)).remaining() == (*old(chars)).remaining().skip(8),
{
    match parse_hex8(chars) {
        Ok(value) => Ok(value),
        Err(_) => Err(ParseError::Malformed { at }),
    }
}

impl Proj {
    pub fn new(value: u32) -> (r: Self)
        ensures
            r == (Proj { value }),
    {
        Proj { value }
    }

    /// The canonical text of the identifier: the token of its value.
    pub open spec fn text(self) -> Seq<char> {
        token(self.value)
    }

    /// What parsing `s` gives: the identifier whose token `s` starts with.
    pub open spec fn parse_spec(s: Seq<char>) -> Result<Proj, ParseError> {
        match field_at(s, 0) {
            Ok(value) => Ok(Proj { value }),
            Err(e) => Err(e),
        }
    }

    /// The canonical text, eight hex digits.
    pub fn to_string(&self) -> (r: String)
        ensures
            r@ == self.text(),
    {
        encode(self.value)
    }

    /// Parses the canonical text. What follows the token is not looked at.
    pub fn from_str(s: &str) -> (r: Result<Proj, ParseError>)
        ensures
            r == Proj::parse_spec(s@),
    {
        broadcast use vstd::string::axiom_spec_iter;

        let mut chars = s.chars();
        parse_proj(&mut chars)
    }

    /// The identifier of the next document of this project, given how many
    /// it has: the count becomes the new document's value.
    pub fn next_id(&self, count: u32) -> (r: Doc)
        ensures
            r == (Doc { proj: *self, value: count }),
    {
        Doc { proj: *self, value: count }
    }

    /// The text under which the identifier is stored: its canonical text.
    pub fn serialize(&self) -> (r: String)
        ensures
            r@ == self.text(),
    {
        self.to_string()
    }

    /// Reads an identifier back from stored text; of a failure only the
    /// fact is kept.
    pub fn deserialize(s: &str) -> (r: Result<Proj, InvalidFormat>)
        ensures
            r == (match Proj::parse_spec(s@) {
                Ok(id) => Ok::<Proj, InvalidFormat>(id),
                Err(_) => Err(InvalidFormat),
            }),
    {
        match Proj::from_str(s) {
            Ok(id) => Ok(id),
            Err(_) => Err(InvalidFormat),
        }
    }
}

/// Takes a project identifier off the front of `chars`.
pub fn parse_proj(chars: &mut Chars<'_>) -> (r: Result<Proj, ParseError>)
    ensures
        r == Proj::parse_spec((*old(chars)).remaining()),
        r is Ok ==> (*final(chars)).remaining() == (*old(chars)).remaining().skip(8),
{
    assert((*old(chars)).remaining().skip(0) =~= (*old(chars)).remaining());
    match take_field(chars, 0) {
        Ok(value) => Ok(Proj { value }),
        Err(e) => Err(e),
    }
}

impl Doc {
    pub fn new(value: u32, proj: Proj) -> (r: Self)
        ensures
            r == (Doc { proj, value }),
    {
        Doc { proj, value }
    }

    /// The canonical text: the project's text, then the token of the value.
    pub open spec fn text(self) -> Seq<char> {
        self.proj.text() + token(self.value)
    }

    /// What parsing `s` gives: a project identifier, then a token.
    pub open spec fn parse_spec(s: Seq<char>) -> Result<Doc, ParseError> {
        match Proj::parse_spec(s) {
            Err(e) => Err(e),
            Ok(proj) => match field_at(s, 8) {
                Ok(value) => Ok(Doc { proj, value }),
                Err(e) => Err(e),
            },
        }
    }

    /// The canonical text, sixteen hex digits.
    pub fn to_string(&self) -> (r: String)
        ensures
            r@ == self.text(),
    {
        let mut r = self.proj.to_string();
        let own = encode(self.value);
        r.append(own.as_str());
        r
    }

    /// Parses the canonical text. What follows the two tokens is not looked at.
    pub fn from_str(s: &str) -> (r: Result<Doc, ParseError>)
        ensures
            r == Doc::parse_spec(s@),
    {
        broadcast use vstd::string::axiom_spec_iter;

        let mut chars = s.chars();
        parse_doc(&mut chars)
    }

    /// The identifier of the next section of this document, given how many
    /// it has: the count becomes the new section's value.
    pub fn next_id(&self, count: u32) -> (r: Sec)
        ensures
            r == (Sec { doc: *self, value: count }),
    {
        Sec { doc: *self, value: count }
    }

    /// The text under which the identifier is stored: its canonical text.
    pub fn serialize(&self) -> (r: String)
        ensures
            r@ == self.text(),
    {
        self.to_string()
    }

    /// Reads an identifier back from stored text; of a failure only the
    /// fact is kept.
    pub fn deserialize(s: &str) -> (r: Result<Doc, InvalidFormat>)
        ensures
            r == (match Doc::parse_spec(s@) {
                Ok(id) => Ok::<Doc, InvalidFormat>(id),
                Err(_) => Err(InvalidFormat),
            }),
    {
        match Doc::from_str(s) {
            Ok(id) => Ok(id),
            Err(_) => Err(InvalidFormat),
        }
    }
}

/// Takes a document identifier off the front of `chars`.
pub fn parse_doc(chars: &mut Chars<'_>) -> (r: Result<Doc, ParseError>)
    ensures
        r == Doc::parse_spec((*old(chars)).remaining()),
        r is Ok ==> (*final(chars)).remaining() == (*old(chars)).remaining().skip(16),
{
    let ghost input = (*old(chars)).remaining();
    let proj = match parse_proj(chars) {
        Ok(proj) => proj,
        Err(e) => {
            return Err(e);
        },
    };
    match take_field(chars, 8) {
        Ok(value) => {
            assert(input.skip(8).skip(8) =~= input.skip(16));
            Ok(Doc { proj, value })
        },
        Err(e) => Err(e),
    }
}

impl Sec {
    pub fn new(value: u32, doc: Doc) -> (r: Self)
        ensures
            r == (Sec { doc, value }),
    {
        Sec { doc, value }
    }

    /// The canonical text: the document's text, then the token of the value.
    pub open spec fn text(self) -> Seq<char> {
        self.doc.text() + token(self.value)
    }

    /// What parsing `s` gives: a document identifier, then a token.
    pub open spec fn parse_spec(s: Seq<char>) -> Result<Sec, ParseError> {
        match Doc::parse_spec(s) {
            Err(e) => Err(e),
            Ok(doc) => match field_at(s, 16) {
                Ok(value) => Ok(Sec { doc, value }),
                Err(e) => Err(e),
            },
        }
    }

    /// The canonical text, twenty-four hex digits.
    pub fn to_string(&self) -> (r: String)
        ensures
            r@ == self.text(),
    {
        let mut r = self.doc.to_string();
        let own = encode(self.value);
        r.append(own.as_str());
        r
    }

    /// Parses the canonical text. What follows the three tokens is not looked at.
    pub fn from_str(s: &str) -> (r: Result<Sec, ParseError>)
        ensures
            r == Sec::parse_spec(s@),
    {
        broadcast use vstd::string::axiom_spec_iter;

        let mut chars = s.chars();
        parse_sec(&mut chars)
    }

    /// The text under which the identifier is stored: its canonical text.
    pub fn serialize(&self) -> (r: String)
        ensures
            r@ == self.text(),
    {
        self.to_string()
    }

    /// Reads an identifier back from stored text; of a failure only the
    /// fact is kept.
    pub fn deserialize(s: &str) -> (r: Result<Sec, InvalidFormat>)
        ensures
            r == (match Sec::parse_spec(s@) {
                Ok(id) => Ok::<Sec, InvalidFormat>(id),
                Err(_) => Err(InvalidFormat),
            }),
    {
        match Sec::from_str(s) {
            Ok(id) => Ok(id),
            Err(_) => Err(InvalidFormat),
        }
    }
}

/// Takes a section identifier off the front of `chars`.
pub fn parse_sec(chars: &mut Chars<'_>) -> (r: Result<Sec, ParseError>)
    ensures
        r == Sec::parse_spec((*old(chars)).remaining()),
        r is Ok ==> (*final(chars)).remaining() == (*old(chars)).remaining().skip(24),
{
    let ghost input = (*old(chars)).remaining();
    let doc = match parse_doc(chars) {
        Ok(doc) => doc,
        Err(e) => {
            return Err(e);
        },
    };
    match take_field(chars, 16) {
        Ok(value) => {
            assert(input.skip(16).skip(8) =~= input.skip(24));
            Ok(Sec { doc, value })
        },
        Err(e) => Err(e),
    }
}

/// A text parses as a project identifier exactly when it starts with eight
/// hex digits. So a text of fewer than eight characters, and one with
/// another character among its first eight, is rejected.
pub proof fn lemma_proj_accepted(s: Seq<char>)
    ensures
        Proj::parse_spec(s) is Ok <==> s.len() >= 8 && all_hex(s.take(8)),
        Proj::parse_spec(s) is Err ==> Proj::parse_spec(s) == Err::<Proj, ParseError>(
            ParseError::Malformed { at: 0 },
        ),
{
    assert(s.skip(0) =~= s);
}

/// A text parses as a document identifier exactly when it starts with
/// sixteen hex digits; the failure names the first of the two tokens that
/// is not there.
pub proof fn lemma_doc_accepted(s: Seq<char>)
    ensures
        Doc::parse_spec(s) is Ok <==> s.len() >= 16 && all_hex(s.take(16)),
        Doc::parse_spec(s) is Err ==> Doc::parse_spec(s) == Err::<Doc, ParseError>(
            ParseError::Malformed { at: if Proj::parse_spec(s) is Err { 0usize } else { 8usize } },
        ),
{
    lemma_proj_accepted(s);
    if s.len() >= 16 {
        lemma_all_hex_split(s, 8, 16);
    }
}

/// A text parses as a section identifier exactly when it starts with
/// twenty-four hex digits; the failure names the first of the three tokens
/// that is not there.
pub proof fn lemma_sec_accepted(s: Seq<char>)
    ensures
        Sec::parse_spec(s) is Ok <==> s.len() >= 24 && all_hex(s.take(24)),
        Sec::parse_spec(s) is Err ==> Sec::parse_spec(s) == Err::<Sec, ParseError>(
            ParseError::Malformed {
                at: if Proj::parse_spec(s) is Err {
                    0usize
                } else if Doc::parse_spec(s) is Err {
                    8usize
                } else {
                    16usize
                },
            },
        ),
{
    lemma_doc_accepted(s);
    if s.len() >= 24 {
        lemma_all_hex_split(s, 16, 24);
    }
}

/// The first `end` characters are hex digits exactly when the first `mid`
/// are and the eight-character field behind them is.
proof fn lemma_all_hex_split(s: Seq<char>, mid: int, end: int)
    requires
        0 <= mid,
        end == mid + 8,
        end <= s.len(),
    ensures
        all_hex(s.take(end)) <==> all_hex(s.take(mid)) && all_hex(s.skip(mid).take(8)),
{
    if all_hex(s.take(end)) {
        assert forall|i: int| 0 <= i < mid implies crate::hex::is_hex_digit_spec(#[trigger] s.take(mid)[i]) by {
            assert(s.take(end)[i] == s[i]);
        }
        assert forall|i: int| 0 <= i < 8 implies crate::hex::is_hex_digit_spec(#[trigger] s.skip(mid).take(8)[i]) by {
            assert(s.take(end)[mid + i] == s[mid + i]);
        }
    }
    if all_hex(s.take(mid)) && all_hex(s.skip(mid).take(8)) {
        assert forall|i: int| 0 <= i < end implies crate::hex::is_hex_digit_spec(#[trigger] s.take(end)[i]) by {
            if i < mid {
                assert(s.take(mid)[i] == s[i]);
            } else {
                assert(s.skip(mid).take(8)[i - mid] == s[i]);
            }
        }
    }
}

/// Parsing the canonical text of a project identifier gives it back,
/// whatever follows the text.
pub proof fn lemma_proj_round_trip(id: Proj, rest: Seq<char>)
    ensures
        Proj::parse_spec(id.text() + rest) == Ok::<Proj, ParseError>(id),
        id.text().len() == 8,
{
    lemma_hex_digits_shape(id.value as nat, 8);
    lemma_decode_encode(id.value);
    lemma_decode_ignores_rest(id.text(), rest);
    assert((id.text() + rest).skip(0) =~= id.text() + rest);
}

/// Parsing the canonical text of a document identifier gives it back,
/// whatever follows the text.
pub proof fn lemma_doc_round_trip(id: Doc, rest: Seq<char>)
    ensures
        Doc::parse_spec(id.text() + rest) == Ok::<Doc, ParseError>(id),
        id.text().len() == 16,
{
    let own = token(id.value);
    let s = id.text() + rest;
    lemma_hex_digits_shape(id.value as nat, 8);
    lemma_proj_round_trip(id.proj, own + rest);
    assert(s =~= id.proj.text() + (own + rest));
    assert(s.skip(8) =~= own + rest);
    lemma_decode_encode(id.value);
    lemma_decode_ignores_rest(own, rest);
}

/// Parsing the canonical text of a section identifier gives it back,
/// whatever follows the text.
pub proof fn lemma_sec_round_trip(id: Sec, rest: Seq<char>)
    ensures
        Sec::parse_spec(id.text() + rest) == Ok::<Sec, ParseError>(id),
        id.text().len() == 24,
{
    let own = token(id.value);
    let s = id.text() + rest;
    lemma_hex_digits_shape(id.value as nat, 8);
    lemma_doc_round_trip(id.doc, own + rest);
    assert(s =~= id.doc.text() + (own + rest));
    assert(s.skip(16) =~= own + rest);
    lemma_decode_encode(id.value);
    lemma_decode_ignores_rest(own, rest);
}

/// An identifier read back from the text it was stored under is the same
/// identifier, at each level.
pub proof fn lemma_stored_round_trip(proj: Proj, doc: Doc, sec: Sec)
    ensures
        Proj::parse_spec(proj.text()) == Ok::<Proj, ParseError>(proj),
        Doc::parse_spec(doc.text()) == Ok::<Doc, ParseError>(doc),
        Sec::parse_spec(sec.text()) == Ok::<Sec, ParseError>(sec),
{
    lemma_proj_round_trip(proj, Seq::empty());
    lemma_doc_round_trip(doc, Seq::empty());
    lemma_sec_round_trip(sec, Seq::empty());
    assert(proj.text() + Seq::<char>::empty() =~= proj.text());
    assert(doc.text() + Seq::<char>::empty() =~= doc.text());
    assert(sec.text() + Seq::<char>::empty() =~= sec.text());
}

} // verus!
