//! The identifiers through std's conversion traits: from and to their
//! values, to their canonical text, and from text by `str::parse`.

use crate::id::{Doc, ParseError, Proj, Sec};
use std::str::FromStr;
use vstd::prelude::*;
use vstd::std_specs::convert::FromSpecImpl;

verus! {

impl From<u32> for Proj {
    fn from(value: u32) -> (r: Proj) {
        Proj { value }
    }
}

impl FromSpecImpl<u32> for Proj {
    open spec fn obeys_from_spec() -> bool {
        true
    }

    open spec fn from_spec(value: u32) -> Proj {
        Proj { value }
    }
}

impl From<Proj> for u32 {
    fn from(id: Proj) -> (r: u32) {
        id.value
    }
}

impl FromSpecImpl<Proj> for u32 {
    open spec fn obeys_from_spec() -> bool {
        true
    }

    open spec fn from_spec(id: Proj) -> u32 {
        id.value
    }
}

impl From<Doc> for u32 {
    fn from(id: Doc) -> (r: u32) {
        id.value
    }
}

impl FromSpecImpl<Doc> for u32 {
    open spec fn obeys_from_spec() -> bool {
        true
    }

    open spec fn from_spec(id: Doc) -> u32 {
        id.value
    }
}

impl From<Sec> for u32 {
    fn from(id: Sec) -> (r: u32) {
        id.value
    }
}

impl FromSpecImpl<Sec> for u32 {
    open spec fn obeys_from_spec() -> bool {
        true
    }

    open spec fn from_spec(id: Sec) -> u32 {
        id.value
    }
}

impl FromStr for Proj {
    type Err = ParseError;

    fn from_str(s: &str) -> (r: Result<Self, Self::Err>)
        ensures
            r == Proj::parse_spec(s@),
    {
        Proj::from_str(s)
    }
}

impl FromStr for Doc {
    type Err = ParseError;

    fn from_str(s: &str) -> (r: Result<Self, Self::Err>)
        ensures
            r == Doc::parse_spec(s@),
    {
        Doc::from_str(s)
    }
}

impl FromStr for Sec {
    type Err = ParseError;

    fn from_str(s: &str) -> (r: Result<Self, Self::Err>)
        ensures
            r == Sec::parse_spec(s@),
    {
        Sec::from_str(s)
    }
}

} // verus!
