//! The order of the identifiers: by the parent chain first, root before
//! leaf, and by the identifier's own value last. It is a total order, and two
//! identifiers are equal in it exactly when they are the same identifier.

use crate::id::{Doc, Proj, Sec};
use std::cmp::Ordering;
use vstd::prelude::*;

verus! {

/// How two values compare.
pub open spec fn order_of(a: u32, b: u32) -> Ordering {
    if a < b {
        Ordering::Less
    } else if a > b {
        Ordering::Greater
    } else {
        Ordering::Equal
    }
}

/// The first comparison decides, unless it finds its sides equal.
pub open spec fn order_then(first: Ordering, second: Ordering) -> Ordering {
    match first {
        Ordering::Equal => second,
        _ => first,
    }
}

/// How two project identifiers compare.
pub open spec fn order_of_proj(a: Proj, b: Proj) -> Ordering {
    order_of(a.value, b.value)
}

/// How two document identifiers compare.
pub open spec fn order_of_doc(a: Doc, b: Doc) -> Ordering {
    order_then(order_of_proj(a.proj, b.proj), order_of(a.value, b.value))
}

/// How two section identifiers compare.
pub open spec fn order_of_sec(a: Sec, b: Sec) -> Ordering {
    order_then(order_of_doc(a.doc, b.doc), order_of(a.value, b.value))
}

/// How two values compare.
fn compare(a: u32, b: u32) -> (r: Ordering)
    ensures
        r == order_of(a, b),
{
    if a < b {
        Ordering::Less
    } else if a > b {
        Ordering::Greater
    } else {
        Ordering::Equal
    }
}

/// The first comparison, or the second where the first finds its sides equal.
fn then(first: Ordering, second: Ordering) -> (r: Ordering)
    ensures
        r == order_then(first, second),
{
    match first {
        Ordering::Equal => second,
        Ordering::Less => Ordering::Less,
        Ordering::Greater => Ordering::Greater,
    }
}

impl PartialOrd for Proj {
    fn partial_cmp(&self, other: &Self) -> (r: Option<Ordering>) {
        Some(compare(self.value, other.value))
    }
}

impl vstd::std_specs::cmp::PartialOrdSpecImpl for Proj {
    open spec fn obeys_partial_cmp_spec() -> bool {
        true
    }

    open spec fn partial_cmp_spec(&self, other: &Self) -> Option<Ordering> {
        Some(order_of_proj(*self, *other))
    }
}

impl PartialOrd for Doc {
    fn partial_cmp(&self, other: &Self) -> (r: Option<Ordering>) {
        Some(then(compare(self.proj.value, other.proj.value), compare(self.value, other.value)))
    }
}

impl vstd::std_specs::cmp::PartialOrdSpecImpl for Doc {
    open spec fn obeys_partial_cmp_spec() -> bool {
        true
    }

    open spec fn partial_cmp_spec(&self, other: &Self) -> Option<Ordering> {
        Some(order_of_doc(*self, *other))
    }
}

impl PartialOrd for Sec {
    fn partial_cmp(&self, other: &Self) -> (r: Option<Ordering>) {
        let by_proj = compare(self.doc.proj.value, other.doc.proj.value);
        let by_doc = then(by_proj, compare(self.doc.value, other.doc.value));
        Some(then(by_doc, compare(self.value, other.value)))
    }
}

impl vstd::std_specs::cmp::PartialOrdSpecImpl for Sec {
    open spec fn obeys_partial_cmp_spec() -> bool {
        true
    }

    open spec fn partial_cmp_spec(&self, other: &Self) -> Option<Ordering> {
        Some(order_of_sec(*self, *other))
    }
}

/// Two identifiers compare as equal exactly when they are the same
/// identifier: the same value under the same parents.
pub proof fn lemma_order_equal(a: Sec, b: Sec)
    ensures
        order_of_sec(a, b) == Ordering::Equal <==> a == b,
        order_of_doc(a.doc, b.doc) == Ordering::Equal <==> a.doc == b.doc,
        order_of_proj(a.doc.proj, b.doc.proj) == Ordering::Equal <==> a.doc.proj == b.doc.proj,
{
}

/// Turning a comparison round turns its result round.
pub proof fn lemma_order_antisymmetric(a: Sec, b: Sec)
    ensures
        order_of_sec(a, b) == Ordering::Less <==> order_of_sec(b, a) == Ordering::Greater,
        order_of_doc(a.doc, b.doc) == Ordering::Less <==> order_of_doc(b.doc, a.doc)
            == Ordering::Greater,
        order_of_proj(a.doc.proj, b.doc.proj) == Ordering::Less <==> order_of_proj(
            b.doc.proj,
            a.doc.proj,
        ) == Ordering::Greater,
{
}

/// What stands before something that stands before a third stands before
/// the third.
pub proof fn lemma_order_transitive(a: Sec, b: Sec, c: Sec)
    ensures
        order_of_sec(a, b) == Ordering::Less && order_of_sec(b, c) == Ordering::Less
            ==> order_of_sec(a, c) == Ordering::Less,
        order_of_doc(a.doc, b.doc) == Ordering::Less && order_of_doc(b.doc, c.doc)
            == Ordering::Less ==> order_of_doc(a.doc, c.doc) == Ordering::Less,
        order_of_proj(a.doc.proj, b.doc.proj) == Ordering::Less && order_of_proj(
            b.doc.proj,
            c.doc.proj,
        ) == Ordering::Less ==> order_of_proj(a.doc.proj, c.doc.proj) == Ordering::Less,
{
}

/// The documents of one project come in the order of their values, and so
/// do the sections of one document.
pub proof fn lemma_order_of_siblings(proj: Proj, doc: Doc, a: u32, b: u32)
    ensures
        order_of_doc(Doc { proj, value: a }, Doc { proj, value: b }) == order_of(a, b),
        order_of_sec(Sec { doc, value: a }, Sec { doc, value: b }) == order_of(a, b),
{
}

} // verus!
