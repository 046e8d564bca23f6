//! The human-readable form of the identifiers, as it stands in a query:
//! `proj=3`, `proj=3&doc=5`, `proj=3&doc=5&card=8`. Each level is a tag and
//! the decimal numeral of the value, ancestors first.

use crate::decimal::{
    decimal, is_digit, lemma_number_at_numeral, number_at, take_number, to_decimal,
};
use crate::id::{Doc, ParseError, Proj, Sec};
use crate::text::chars_of;
use vstd::prelude::*;
use vstd::string::{StrSliceExecFns, StringExecFns};

verus! {

/// The tag in front of a project's value.
pub open spec fn proj_tag() -> Seq<char> {
    seq!['p', 'r', 'o', 'j', '=']
}

/// The tag in front of a document's value.
pub open spec fn doc_tag() -> Seq<char> {
    seq!['&', 'd', 'o', 'c', '=']
}

/// The tag in front of a section's value.
pub open spec fn sec_tag() -> Seq<char> {
    seq!['&', 'c', 'a', 'r', 'd', '=']
}

/// Whether `tag` stands at position `at` of `s`.
pub open spec fn has_tag(s: Seq<char>, at: int, tag: Seq<char>) -> bool {
    0 <= at && at + tag.len() <= s.len() && s.subrange(at, at + tag.len()) == tag
}

/// The value behind `tag` at position `at` of `s`, with the position behind
/// it. The failure names `at` where the tag does not stand there, and the
/// position behind the tag where no number that fits in 32 bits does.
pub open spec fn tagged_number(s: Seq<char>, at: int, tag: Seq<char>) -> Result<
    (u32, int),
    ParseError,
> {
    if !has_tag(s, at, tag) {
        Err(ParseError::Malformed { at: at as usize })
    } else {
        match number_at(s, at + tag.len()) {
            Some(found) => Ok(found),
            None => Err(ParseError::Malformed { at: (at + tag.len()) as usize }),
        }
    }
}

/// Reads `tag` at position `at` of `chars`; gives the position behind it,
/// or nothing where the tag does not stand there.
fn take_tag(chars: &Vec<char>, at: usize, tag: &str) -> (r: Option<usize>)
    requires
        at <= chars@.len(),
    ensures
        match r {
            Some(end) => has_tag(chars@, at as int, tag@) && end == at + tag@.len(),
            None => !has_tag(chars@, at as int, tag@),
        },
{
    let n: usize = tag.unicode_len();
    let total: usize = chars.len();
    if n > total - at {
        return None;
    }
    let mut j: usize = 0;
    assert(chars@.subrange(at as int, at as int) =~= tag@.take(0));
    while j < n
        invariant
            j <= n,
            n == tag@.len(),
            at + n <= total,
            total == chars@.len(),
            chars@.subrange(at as int, at + j) == tag@.take(j as int),
        decreases n - j,
    {
        if chars[at + j] != tag.get_char(j) {
            assert(chars@.subrange(at as int, at + n)[j as int] != tag@[j as int]);
            return None;
        }
        assert(chars@.subrange(at as int, at + j + 1) =~= chars@.subrange(
            at as int,
            at + j,
        ).push(chars@[at + j]));
        assert(tag@.take(j + 1) =~= tag@.take(j as int).push(tag@[j as int]));
        j = j + 1;
    }
    assert(tag@.take(n as int) =~= tag@);
    Some(at + n)
}

/// Reads `tag` and the number behind it at position `at` of `chars`.
fn take_tagged(chars: &Vec<char>, at: usize, tag: &str) -> (r: Result<(u32, usize), ParseError>)
    requires
        at <= chars@.len(),
    ensures
        match r {
            Ok((value, end)) => tagged_number(chars@, at as int, tag@) == Ok::<
                (u32, int),
                ParseError,
            >((value, end as int)) && end <= chars@.len(),
            Err(e) => tagged_number(chars@, at as int, tag@) == Err::<(u32, int), ParseError>(e),
        },
{
    let from: usize = match take_tag(chars, at, tag) {
        Some(end) => end,
        None => {
            return Err(ParseError::Malformed { at });
        },
    };
    match take_number(chars, from) {
        Some((value, end)) => Ok((value, end)),
        None => Err(ParseError::Malformed { at: from }),
    }
}

impl Proj {
    /// The human-readable text: `proj=` and the value in decimal.
    pub open spec fn query(self) -> Seq<char> {
        proj_tag() + decimal(self.value as nat)
    }

    /// What reading a project identifier off the front of `s` gives, with
    /// the position behind it.
    pub open spec fn query_prefix(s: Seq<char>) -> Result<(Proj, int), ParseError> {
        match tagged_number(s, 0, proj_tag()) {
            Ok((value, end)) => Ok((Proj { value }, end)),
            Err(e) => Err(e),
        }
    }

    /// What parsing the human-readable text `s` gives.
    pub open spec fn parse_query_spec(s: Seq<char>) -> Result<Proj, ParseError> {
        match Proj::query_prefix(s) {
            Ok((id, _)) => Ok(id),
            Err(e) => Err(e),
        }
    }

    /// The human-readable text of the identifier.
    pub fn to_query(&self) -> (r: String)
        ensures
            r@ == self.query(),
    {
        proof {
            reveal_strlit("proj=");
            assert("proj="@ =~= proj_tag());
        }
        let mut r = String::from_str("proj=");
        r.append(to_decimal(self.value as u64).as_str());
        r
    }

    /// Parses the human-readable text. What follows the number is not
    /// looked at.
    pub fn from_query(s: &str) -> (r: Result<Proj, ParseError>)
        ensures
            r == Proj::parse_query_spec(s@),
    {
        let chars = chars_of(s);
        match parse_proj_id(&chars) {
            Ok((id, _)) => Ok(id),
            Err(e) => Err(e),
        }
    }
}

/// Reads a project identifier off the front of `chars`; gives it with the
/// position behind it.
pub fn parse_proj_id(chars: &Vec<char>) -> (r: Result<(Proj, usize), ParseError>)
    ensures
        match r {
            Ok((id, end)) => Proj::query_prefix(chars@) == Ok::<(Proj, int), ParseError>(
                (id, end as int),
            ) && end <= chars@.len(),
            Err(e) => Proj::query_prefix(chars@) == Err::<(Proj, int), ParseError>(e),
        },
{
    proof {
        reveal_strlit("proj=");
        assert("proj="@ =~= proj_tag());
    }
    match take_tagged(chars, 0, "proj=") {
        Ok((value, end)) => Ok((Proj { value }, end)),
        Err(e) => Err(e),
    }
}

impl Doc {
    /// The human-readable text: the project's, then `&doc=` and the value
    /// in decimal.
    pub open spec fn query(self) -> Seq<char> {
        self.proj.query() + doc_tag() + decimal(self.value as nat)
    }

    /// What reading a document identifier off the front of `s` gives, with
    /// the position behind it.
    pub open spec fn query_prefix(s: Seq<char>) -> Result<(Doc, int), ParseError> {
        match Proj::query_prefix(s) {
            Err(e) => Err(e),
            Ok((proj, at)) => match tagged_number(s, at, doc_tag()) {
                Ok((value, end)) => Ok((Doc { proj, value }, end)),
                Err(e) => Err(e),
            },
        }
    }

    /// What parsing the human-readable text `s` gives.
    pub open spec fn parse_query_spec(s: Seq<char>) -> Result<Doc, ParseError> {
        match Doc::query_prefix(s) {
            Ok((id, _)) => Ok(id),
            Err(e) => Err(e),
        }
    }

    /// The human-readable text of the identifier.
    pub fn to_query(&self) -> (r: String)
        ensures
            r@ == self.query(),
    {
        proof {
            reveal_strlit("&doc=");
            assert("&doc="@ =~= doc_tag());
        }
        let mut r = self.proj.to_query();
        r.append("&doc=");
        r.append(to_decimal(self.value as u64).as_str());
        r
    }

    /// Parses the human-readable text. What follows the number is not
    /// looked at.
    pub fn from_query(s: &str) -> (r: Result<Doc, ParseError>)
        ensures
            r == Doc::parse_query_spec(s@),
    {
        let chars = chars_of(s);
        match parse_doc_id(&chars) {
            Ok((id, _)) => Ok(id),
            Err(e) => Err(e),
        }
    }
}

/// Reads a document identifier off the front of `chars`; gives it with the
/// position behind it.
pub fn parse_doc_id(chars: &Vec<char>) -> (r: Result<(Doc, usize), ParseError>)
    ensures
        match r {
            Ok((id, end)) => Doc::query_prefix(chars@) == Ok::<(Doc, int), ParseError>(
                (id, end as int),
            ) && end <= chars@.len(),
            Err(e) => Doc::query_prefix(chars@) == Err::<(Doc, int), ParseError>(e),
        },
{
    proof {
        reveal_strlit("&doc=");
        assert("&doc="@ =~= doc_tag());
    }
    let (proj, at) = match parse_proj_id(chars) {
        Ok(found) => found,
        Err(e) => {
            return Err(e);
        },
    };
    match take_tagged(chars, at, "&doc=") {
        Ok((value, end)) => Ok((Doc { proj, value }, end)),
        Err(e) => Err(e),
    }
}

impl Sec {
    /// The human-readable text: the document's, then `&card=` and the
    /// value in decimal.
    pub open spec fn query(self) -> Seq<char> {
        self.doc.query() + sec_tag() + decimal(self.value as nat)
    }

    /// What reading a section identifier off the front of `s` gives, with
    /// the position behind it.
    pub open spec fn query_prefix(s: Seq<char>) -> Result<(Sec, int), ParseError> {
        match Doc::query_prefix(s) {
            Err(e) => Err(e),
            Ok((doc, at)) => match tagged_number(s, at, sec_tag()) {
                Ok((value, end)) => Ok((Sec { doc, value }, end)),
                Err(e) => Err(e),
            },
        }
    }

    /// What parsing the human-readable text `s` gives.
    pub open spec fn parse_query_spec(s: Seq<char>) -> Result<Sec, ParseError> {
        match Sec::query_prefix(s) {
            Ok((id, _)) => Ok(id),
            Err(e) => Err(e),
        }
    }

    /// The human-readable text of the identifier.
    pub fn to_query(&self) -> (r: String)
        ensures
            r@ == self.query(),
    {
        proof {
            reveal_strlit("&card=");
            assert("&card="@ =~= sec_tag());
        }
        let mut r = self.doc.to_query();
        r.append("&card=");
        r.append(to_decimal(self.value as u64).as_str());
        r
    }

    /// Parses the human-readable text. What follows the number is not
    /// looked at.
    pub fn from_query(s: &str) -> (r: Result<Sec, ParseError>)
        ensures
            r == Sec::parse_query_spec(s@),
    {
        let chars = chars_of(s);
        match parse_card_id(&chars) {
            Ok((id, _)) => Ok(id),
            Err(e) => Err(e),
        }
    }
}

/// Reads a section identifier off the front of `chars`; gives it with the
/// position behind it.
pub fn parse_card_id(chars: &Vec<char>) -> (r: Result<(Sec, usize), ParseError>)
    ensures
        match r {
            Ok((id, end)) => Sec::query_prefix(chars@) == Ok::<(Sec, int), ParseError>(
                (id, end as int),
            ) && end <= chars@.len(),
            Err(e) => Sec::query_prefix(chars@) == Err::<(Sec, int), ParseError>(e),
        },
{
    proof {
        reveal_strlit("&card=");
        assert("&card="@ =~= sec_tag());
    }
    let (doc, at) = match parse_doc_id(chars) {
        Ok(found) => found,
        Err(e) => {
            return Err(e);
        },
    };
    match take_tagged(chars, at, "&card=") {
        Ok((value, end)) => Ok((Sec { doc, value }, end)),
        Err(e) => Err(e),
    }
}

/// Joining texts does not depend on where the brackets stand.
proof fn lemma_join(a: Seq<char>, b: Seq<char>, c: Seq<char>)
    ensures
        (a + b) + c == a + (b + c),
{
    assert((a + b) + c =~= a + (b + c));
}

/// A tag and the numeral of a 32-bit number behind it are read back as
/// that number, wherever they stand, if no digit follows them.
proof fn lemma_tagged_numeral(front: Seq<char>, tag: Seq<char>, value: u32, rest: Seq<char>)
    requires
        rest.len() == 0 || !is_digit(rest[0]),
    ensures
        tagged_number(front + tag + decimal(value as nat) + rest, front.len() as int, tag) == Ok::<
            (u32, int),
            ParseError,
        >((value, (front + tag + decimal(value as nat)).len() as int)),
{
    let s = front + tag + decimal(value as nat) + rest;
    let at = front.len() as int;
    assert(s.subrange(at, at + tag.len()) =~= tag);
    lemma_number_at_numeral(front + tag, value, rest);
}

/// Reading the human-readable text of a project identifier gives it back,
/// and stops behind the text, whatever follows that is no digit.
pub proof fn lemma_proj_query_round_trip(id: Proj, rest: Seq<char>)
    requires
        rest.len() == 0 || !is_digit(rest[0]),
    ensures
        Proj::query_prefix(id.query() + rest) == Ok::<(Proj, int), ParseError>(
            (id, id.query().len() as int),
        ),
        Proj::parse_query_spec(id.query() + rest) == Ok::<Proj, ParseError>(id),
{
    let front = Seq::<char>::empty();
    lemma_tagged_numeral(front, proj_tag(), id.value, rest);
    assert(front + proj_tag() =~= proj_tag());
}

/// Reading the human-readable text of a document identifier gives it
/// back, and stops behind the text, whatever follows that is no digit.
pub proof fn lemma_doc_query_round_trip(id: Doc, rest: Seq<char>)
    requires
        rest.len() == 0 || !is_digit(rest[0]),
    ensures
        Doc::query_prefix(id.query() + rest) == Ok::<(Doc, int), ParseError>(
            (id, id.query().len() as int),
        ),
        Doc::parse_query_spec(id.query() + rest) == Ok::<Doc, ParseError>(id),
{
    let front = id.proj.query();
    let numeral = decimal(id.value as nat);
    let own = doc_tag() + (numeral + rest);
    let s = id.query() + rest;
    assert(s == front + own) by {
        lemma_join(front + doc_tag(), numeral, rest);
        lemma_join(front, doc_tag(), numeral + rest);
    }
    assert(Proj::query_prefix(s) == Ok::<(Proj, int), ParseError>((id.proj, front.len() as int)))
        by {
        assert(own[0] == '&');
        lemma_proj_query_round_trip(id.proj, own);
    }
    assert(tagged_number(s, front.len() as int, doc_tag()) == Ok::<(u32, int), ParseError>(
        (id.value, id.query().len() as int),
    )) by {
        lemma_tagged_numeral(front, doc_tag(), id.value, rest);
    }
}

/// Reading the human-readable text of a section identifier gives it back,
/// and stops behind the text, whatever follows that is no digit.
pub proof fn lemma_sec_query_round_trip(id: Sec, rest: Seq<char>)
    requires
        rest.len() == 0 || !is_digit(rest[0]),
    ensures
        Sec::query_prefix(id.query() + rest) == Ok::<(Sec, int), ParseError>(
            (id, id.query().len() as int),
        ),
        Sec::parse_query_spec(id.query() + rest) == Ok::<Sec, ParseError>(id),
{
    let front = id.doc.query();
    let numeral = decimal(id.value as nat);
    let own = sec_tag() + (numeral + rest);
    let s = id.query() + rest;
    assert(s == front + own) by {
        lemma_join(front + sec_tag(), numeral, rest);
        lemma_join(front, sec_tag(), numeral + rest);
    }
    assert(Doc::query_prefix(s) == Ok::<(Doc, int), ParseError>((id.doc, front.len() as int)))
        by {
        assert(own[0] == '&');
        lemma_doc_query_round_trip(id.doc, own);
    }
    assert(tagged_number(s, front.len() as int, sec_tag()) == Ok::<(u32, int), ParseError>(
        (id.value, id.query().len() as int),
    )) by {
        lemma_tagged_numeral(front, sec_tag(), id.value, rest);
    }
}

/// An identifier read back from its human-readable text is the same
/// identifier, at each level.
pub proof fn lemma_query_round_trip(proj: Proj, doc: Doc, sec: Sec)
    ensures
        Proj::parse_query_spec(proj.query()) == Ok::<Proj, ParseError>(proj),
        Doc::parse_query_spec(doc.query()) == Ok::<Doc, ParseError>(doc),
        Sec::parse_query_spec(sec.query()) == Ok::<Sec, ParseError>(sec),
{
    lemma_proj_query_round_trip(proj, Seq::empty());
    lemma_doc_query_round_trip(doc, Seq::empty());
    lemma_sec_query_round_trip(sec, Seq::empty());
    assert(proj.query() + Seq::<char>::empty() =~= proj.query());
    assert(doc.query() + Seq::<char>::empty() =~= doc.query());
    assert(sec.query() + Seq::<char>::empty() =~= sec.query());
}

} // verus!
