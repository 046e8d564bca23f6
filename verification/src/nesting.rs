//! What the reduction makes of events that are properly nested: each
//! construct becomes one element, whose children are the trees of the
//! events between its opening and its closing event, and constructs that
//! follow each other become siblings.

use crate::event::{MdEvent, MdTag};
use crate::render::{close_tag, leaf, open_tag, reduce, Reduction};
use crate::tree::Tree;
use vstd::prelude::*;

verus! {

/// How many constructs `events` open without closing them, less how many
/// they close without opening them.
pub open spec fn depth(events: Seq<MdEvent>) -> int
    decreases events.len(),
{
    if events.len() == 0 {
        0
    } else {
        depth(events.drop_last()) + match events.last() {
            MdEvent::Start(_) => 1int,
            MdEvent::End(_) => -1int,
            _ => 0int,
        }
    }
}

/// Whether `events` close nothing but what they opened themselves.
pub open spec fn self_contained(events: Seq<MdEvent>) -> bool {
    forall|k: int| 0 <= k <= events.len() ==> depth(#[trigger] events.take(k)) >= 0
}

/// Whether `events` are self-contained and leave nothing open.
pub open spec fn closed(events: Seq<MdEvent>) -> bool {
    self_contained(events) && depth(events) == 0
}

/// Positions moved up by `by`.
pub open spec fn shift(positions: Seq<int>, by: int) -> Seq<int> {
    Seq::new(positions.len(), |i: int| positions[i] + by)
}

/// Where the reduction stands after `events`, if it stood at `state`
/// before them and the first of them has position `offset`.
pub open spec fn reduce_from(state: Reduction, events: Seq<MdEvent>, offset: int) -> Reduction
    decreases events.len(),
{
    if events.len() == 0 {
        state
    } else {
        reduce_from(state, events.drop_last(), offset).step(
            events.last(),
            offset + events.len() - 1,
        )
    }
}

impl Reduction {
    /// A reduction that started from nothing, put where `base` stood: its
    /// roots become the next children of the innermost element that
    /// `base` has open, or the next roots where it has none; its open
    /// elements come on top of those of `base`; its skipped positions are
    /// counted from `offset`.
    pub open spec fn onto(self, base: Reduction, offset: int) -> Reduction {
        if base.open.len() > 0 {
            let top = base.open.last();
            Reduction {
                open: base.open.drop_last().push(top.with_children(top.children + self.roots))
                    + self.open,
                roots: base.roots,
                skipped: base.skipped + shift(self.skipped, offset),
            }
        } else {
            Reduction {
                open: self.open,
                roots: base.roots + self.roots,
                skipped: base.skipped + shift(self.skipped, offset),
            }
        }
    }
}

/// Reducing from the start is reducing from the state before the first event.
pub proof fn lemma_reduce_from_start(events: Seq<MdEvent>)
    ensures
        reduce_from(Reduction::start(), events, 0) == reduce(events),
    decreases events.len(),
{
    if events.len() > 0 {
        lemma_reduce_from_start(events.drop_last());
    }
}

/// Reducing two streams one behind the other is reducing the second from
/// where the first has got to.
pub proof fn lemma_reduce_split(first: Seq<MdEvent>, second: Seq<MdEvent>)
    ensures
        reduce(first + second) == reduce_from(reduce(first), second, first.len() as int),
    decreases second.len(),
{
    if second.len() == 0 {
        assert(first + second =~= first);
    } else {
        lemma_reduce_split(first, second.drop_last());
        assert((first + second).drop_last() =~= first + second.drop_last());
        assert((first + second).last() == second.last());
    }
}

/// A prefix of self-contained events is self-contained.
proof fn lemma_self_contained_prefix(events: Seq<MdEvent>)
    requires
        self_contained(events),
        events.len() > 0,
    ensures
        self_contained(events.drop_last()),
        depth(events) >= 0,
{
    let prefix = events.drop_last();
    assert forall|k: int| 0 <= k <= prefix.len() implies depth(#[trigger] prefix.take(k)) >= 0 by {
        assert(prefix.take(k) =~= events.take(k));
    }
    assert(events.take(events.len() as int) =~= events);
}

/// Attaching a node before or after a reduction is put onto another comes
/// to the same.
proof fn lemma_attach_onto(r: Reduction, node: Tree, base: Reduction, offset: int)
    ensures
        r.attach(node).onto(base, offset) == r.onto(base, offset).attach(node),
{
    let left = r.attach(node).onto(base, offset);
    let right = r.onto(base, offset).attach(node);
    if r.open.len() > 0 {
        assert(left.open =~= right.open);
    } else if base.open.len() > 0 {
        let top = base.open.last();
        assert(top.children + r.roots.push(node) =~= (top.children + r.roots).push(node));
        assert(left.open =~= right.open);
    } else {
        assert(left.roots =~= right.roots);
    }
}

/// Skipping an event before or after a reduction is put onto another
/// comes to the same, but for the event's position.
proof fn lemma_skip_onto(r: Reduction, index: int, base: Reduction, offset: int)
    ensures
        r.skip(index).onto(base, offset) == r.onto(base, offset).skip(index + offset),
{
    let left = r.skip(index).onto(base, offset);
    let right = r.onto(base, offset).skip(index + offset);
    assert(shift(r.skipped.push(index), offset) =~= shift(r.skipped, offset).push(index + offset));
    assert(left.skipped =~= right.skipped);
}

/// One step before or after a reduction is put onto another comes to the
/// same, if the step closes nothing but what the reduction itself has open.
proof fn lemma_step_onto(r: Reduction, event: MdEvent, index: int, base: Reduction, offset: int)
    requires
        event is End ==> r.open.len() > 0,
    ensures
        r.step(event, index).onto(base, offset) == r.onto(base, offset).step(
            event,
            index + offset,
        ),
{
    let framed = r.onto(base, offset);
    match event {
        MdEvent::Start(tag) => {
            let left = r.step(event, index).onto(base, offset);
            let right = framed.step(event, index + offset);
            assert(left.open =~= right.open);
        },
        MdEvent::End(tag) => {
            let popped = Reduction { open: r.open.drop_last(), ..r };
            let node = Tree::Element(close_tag(tag, r.open.last()));
            assert(framed.open.last() == r.open.last());
            assert(popped.onto(base, offset).open =~= framed.open.drop_last());
            assert(popped.onto(base, offset) == (Reduction {
                open: framed.open.drop_last(),
                ..framed
            }));
            lemma_attach_onto(popped, node, base, offset);
        },
        _ => match leaf(event) {
            Some(node) => {
                lemma_attach_onto(r, node, base, offset);
            },
            None => {
                lemma_skip_onto(r, index, base, offset);
            },
        },
    }
}

/// The reduction of self-contained events has as many elements open as
/// the events leave constructs open.
pub proof fn lemma_open_depth(events: Seq<MdEvent>)
    requires
        self_contained(events),
    ensures
        reduce(events).open.len() == depth(events),
    decreases events.len(),
{
    if events.len() > 0 {
        lemma_self_contained_prefix(events);
        lemma_open_depth(events.drop_last());
    }
}

/// Self-contained events do the same wherever they stand: reducing them
/// from any state gives what reducing them from the start gives, put onto
/// that state.
pub proof fn lemma_frame(base: Reduction, events: Seq<MdEvent>, offset: int)
    requires
        self_contained(events),
    ensures
        reduce_from(base, events, offset) == reduce(events).onto(base, offset),
    decreases events.len(),
{
    if events.len() == 0 {
        let framed = Reduction::start().onto(base, offset);
        assert(shift(Seq::<int>::empty(), offset) =~= Seq::<int>::empty());
        assert(framed.skipped =~= base.skipped);
        if base.open.len() > 0 {
            let top = base.open.last();
            assert(top.children + Seq::<Tree>::empty() =~= top.children);
            assert(framed.open =~= base.open);
        } else {
            assert(framed.roots =~= base.roots);
            assert(framed.open =~= base.open);
        }
    } else {
        let before = events.drop_last();
        lemma_self_contained_prefix(events);
        lemma_frame(base, before, offset);
        lemma_open_depth(before);
        lemma_step_onto(reduce(before), events.last(), events.len() - 1, base, offset);
    }
}

/// An element has no child when it is opened.
pub proof fn lemma_open_tag_childless(tag: MdTag)
    ensures
        open_tag(tag).children == Seq::<Tree>::empty(),
{
}

/// The depth of two streams one behind the other is the sum of their depths.
pub proof fn lemma_depth_concat(first: Seq<MdEvent>, second: Seq<MdEvent>)
    ensures
        depth(first + second) == depth(first) + depth(second),
    decreases second.len(),
{
    if second.len() == 0 {
        assert(first + second =~= first);
    } else {
        lemma_depth_concat(first, second.drop_last());
        assert((first + second).drop_last() =~= first + second.drop_last());
        assert((first + second).last() == second.last());
    }
}

/// Self-contained events behind closed events are self-contained.
pub proof fn lemma_self_contained_concat(first: Seq<MdEvent>, second: Seq<MdEvent>)
    requires
        self_contained(first),
        depth(first) >= 0,
        self_contained(second),
    ensures
        self_contained(first + second),
{
    let all = first + second;
    assert forall|k: int| 0 <= k <= all.len() implies depth(#[trigger] all.take(k)) >= 0 by {
        if k <= first.len() {
            assert(all.take(k) =~= first.take(k));
        } else {
            assert(all.take(k) =~= first + second.take(k - first.len()));
            lemma_depth_concat(first, second.take(k - first.len()));
        }
    }
}

/// Closed events between an opening and a closing event are closed events.
pub proof fn lemma_closed_wrap(tag: MdTag, inner: Seq<MdEvent>, end: MdTag)
    requires
        closed(inner),
    ensures
        closed(seq![MdEvent::Start(tag)] + inner + seq![MdEvent::End(end)]),
{
    let head = seq![MdEvent::Start(tag)];
    let tail = seq![MdEvent::End(end)];
    assert(head.drop_last() =~= Seq::<MdEvent>::empty());
    assert(tail.drop_last() =~= Seq::<MdEvent>::empty());
    assert(depth(Seq::<MdEvent>::empty()) == 0);
    assert(head.last() == MdEvent::Start(tag));
    assert(tail.last() == MdEvent::End(end));
    assert(depth(head) == 1);
    assert(depth(tail) == -1);
    assert forall|k: int| 0 <= k <= head.len() implies depth(#[trigger] head.take(k)) >= 0 by {
        if k == 0 {
            assert(head.take(0) =~= Seq::<MdEvent>::empty());
        } else {
            assert(head.take(1) =~= head);
        }
    }
    lemma_self_contained_concat(head, inner);
    lemma_depth_concat(head, inner);
    let all = head + inner + tail;
    lemma_depth_concat(head + inner, tail);
    assert forall|k: int| 0 <= k <= all.len() implies depth(#[trigger] all.take(k)) >= 0 by {
        if k < all.len() {
            assert(all.take(k) =~= (head + inner).take(k));
        } else {
            assert(all.take(k) =~= all);
        }
    }
}

/// Closed events one behind the other are closed events.
pub proof fn lemma_closed_concat(first: Seq<MdEvent>, second: Seq<MdEvent>)
    requires
        closed(first),
        closed(second),
    ensures
        closed(first + second),
{
    lemma_self_contained_concat(first, second);
    lemma_depth_concat(first, second);
}

/// A construct becomes one element. Where closed events stand between
/// the event that opens it and the event that closes it, the reduction of
/// the whole has one root: the element that the construct opens with,
/// with the roots of the events in between as its children, finished as
/// the closing event asks. Nothing stays open, and what is skipped is
/// what is skipped in between.
pub proof fn lemma_element(tag: MdTag, inner: Seq<MdEvent>, end: MdTag)
    requires
        closed(inner),
    ensures
        reduce(seq![MdEvent::Start(tag)] + inner + seq![MdEvent::End(end)]) == (Reduction {
            open: Seq::empty(),
            roots: seq![
                Tree::Element(close_tag(end, open_tag(tag).with_children(reduce(inner).roots))),
            ],
            skipped: shift(reduce(inner).skipped, 1),
        }),
        reduce(seq![MdEvent::Start(tag)] + inner + seq![MdEvent::End(end)]).tree()
            == Tree::Element(close_tag(end, open_tag(tag).with_children(reduce(inner).roots))),
{
    let head = seq![MdEvent::Start(tag)];
    let tail = seq![MdEvent::End(end)];
    let base = reduce(head);
    assert(head.drop_last() =~= Seq::<MdEvent>::empty());
    assert(reduce(Seq::<MdEvent>::empty()) == Reduction::start());
    assert(head.last() == MdEvent::Start(tag));
    assert(base == Reduction::start().step(MdEvent::Start(tag), 0));
    assert(base.open =~= seq![open_tag(tag)]);
    assert(base.roots =~= Seq::<Tree>::empty());
    assert(base.skipped =~= Seq::<int>::empty());
    lemma_open_tag_childless(tag);
    lemma_reduce_split(head, inner);
    lemma_frame(base, inner, 1);
    lemma_open_depth(inner);
    let within = reduce(head + inner);
    let filled = open_tag(tag).with_children(reduce(inner).roots);
    assert(Seq::<Tree>::empty() + reduce(inner).roots =~= reduce(inner).roots);
    assert(within.open =~= seq![filled]);
    assert(within.skipped =~= shift(reduce(inner).skipped, 1));
    let all = head + inner + tail;
    assert(all.drop_last() =~= head + inner);
    assert(all.last() == MdEvent::End(end));
    let after = reduce(all);
    assert(after.open =~= Seq::<crate::tree::ElementView>::empty());
    assert(after.roots =~= seq![Tree::Element(close_tag(end, filled))]);
}

/// Constructs that follow each other become siblings: the roots of closed
/// events followed by self-contained events are the roots of the first
/// and then the roots of the second.
pub proof fn lemma_siblings(first: Seq<MdEvent>, second: Seq<MdEvent>)
    requires
        closed(first),
        self_contained(second),
    ensures
        reduce(first + second) == (Reduction {
            open: reduce(second).open,
            roots: reduce(first).roots + reduce(second).roots,
            skipped: reduce(first).skipped + shift(reduce(second).skipped, first.len() as int),
        }),
{
    lemma_reduce_split(first, second);
    lemma_open_depth(first);
    lemma_frame(reduce(first), second, first.len() as int);
}

/// An event that neither opens nor closes a construct, alone: the leaf
/// that it stands for is the one root, or the event is skipped where it
/// stands for none.
pub proof fn lemma_single(event: MdEvent)
    requires
        !(event is Start),
        !(event is End),
    ensures
        closed(seq![event]),
        reduce(seq![event]) == (match leaf(event) {
            Some(node) => Reduction {
                open: Seq::empty(),
                roots: seq![node],
                skipped: Seq::empty(),
            },
            None => Reduction { open: Seq::empty(), roots: Seq::empty(), skipped: seq![0int] },
        }),
{
    let one = seq![event];
    assert(one.drop_last() =~= Seq::<MdEvent>::empty());
    assert(one.last() == event);
    assert(depth(Seq::<MdEvent>::empty()) == 0);
    assert(reduce(Seq::<MdEvent>::empty()) == Reduction::start());
    assert forall|k: int| 0 <= k <= one.len() implies depth(#[trigger] one.take(k)) >= 0 by {
        if k == 0 {
            assert(one.take(0) =~= Seq::<MdEvent>::empty());
        } else {
            assert(one.take(1) =~= one);
        }
    }
    let r = reduce(one);
    match leaf(event) {
        Some(node) => {
            assert(r.roots =~= seq![node]);
        },
        None => {
            assert(r.skipped =~= seq![0int]);
        },
    }
}

/// No event, no root: the reduction of the empty stream is where it starts.
pub proof fn lemma_empty()
    ensures
        closed(Seq::<MdEvent>::empty()),
        reduce(Seq::<MdEvent>::empty()) == Reduction::start(),
{
    let none = Seq::<MdEvent>::empty();
    assert forall|k: int| 0 <= k <= none.len() implies depth(#[trigger] none.take(k)) >= 0 by {
        assert(none.take(k) =~= none);
    }
}

} // verus!
