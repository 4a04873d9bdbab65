//! The display list: the ordered drawing operations of one frame, and what it
//! means for the anchors in it to be balanced.

use vstd::prelude::*;
use crate::geometry::Point;

verus! {

/// One drawing operation. Leaf operations are placed relative to the sum of
/// the anchors that precede them.
#[derive(Clone, Debug, PartialEq, Eq)]
pub enum Operation {
    /// Moves the frame of reference by an offset.
    SetAnchor(Point),
    /// Puts one character at the current anchor.
    PutChar(char),
    /// Puts a string at the current anchor.
    PutString(String),
}

/// The operations of one frame, in drawing order. Nested draws only append.
#[derive(Debug, PartialEq, Eq)]
pub struct DisplayList(pub Vec<Operation>);

impl View for DisplayList {
    type V = Seq<Operation>;

    open spec fn view(&self) -> Seq<Operation> {
        self.0@
    }
}

impl DisplayList {
    /// An empty display list.
    pub fn new() -> (r: DisplayList)
        ensures
            r@ == Seq::<Operation>::empty(),
    {
        DisplayList(Vec::new())
    }
}

/// How far an operation moves the frame of reference.
pub open spec fn shift(op: Operation) -> (int, int) {
    match op {
        Operation::SetAnchor(v) => (v.x as int, v.y as int),
        _ => (0, 0),
    }
}

/// The net movement of the frame of reference over a run of operations.
pub open spec fn anchor_sum(ops: Seq<Operation>) -> (int, int)
    decreases ops.len(),
{
    if ops.len() == 0 {
        (0, 0)
    } else {
        let rest = anchor_sum(ops.drop_last());
        let last = shift(ops.last());
        (rest.0 + last.0, rest.1 + last.1)
    }
}

/// How many operations of a run set the anchor to exactly `(dx, dy)`.
pub open spec fn anchor_count(ops: Seq<Operation>, dx: int, dy: int) -> nat
    decreases ops.len(),
{
    if ops.len() == 0 {
        0
    } else {
        let here: nat = if ops.last() is SetAnchor && shift(ops.last()) == (dx, dy) {
            1
        } else {
            0
        };
        anchor_count(ops.drop_last(), dx, dy) + here
    }
}

/// Whether `close` is an anchor that moves back exactly what `open` moved.
pub open spec fn undoes(open: Operation, close: Operation) -> bool {
    &&& open is SetAnchor
    &&& close is SetAnchor
    &&& shift(close).0 == -shift(open).0
    &&& shift(close).1 == -shift(open).1
}

/// Whether the anchor that opens `ops` is undone at position `k`.
pub open spec fn closed_at(ops: Seq<Operation>, k: int) -> bool {
    1 <= k < ops.len() && undoes(ops[0], ops[k])
}

/// Stack discipline: every anchor is undone later by its opposite, and what
/// lies between the two, and what follows them, is nested in the same way.
pub open spec fn nested(ops: Seq<Operation>) -> bool
    decreases ops.len(),
{
    if ops.len() == 0 {
        true
    } else if ops[0] is SetAnchor {
        exists|k: int|
            #[trigger] closed_at(ops, k) && nested(ops.subrange(1, k)) && nested(
                ops.subrange(k + 1, ops.len() as int),
            )
    } else {
        nested(ops.subrange(1, ops.len() as int))
    }
}

/// `inner`, drawn in a frame of reference moved by `offset` and moved back
/// afterwards.
pub open spec fn framed(offset: Point, inner: Seq<Operation>) -> Seq<Operation> {
    seq![Operation::SetAnchor(offset)] + inner + seq![Operation::SetAnchor(offset.opposite())]
}

/// The net movement of two runs is the sum of their net movements.
pub proof fn lemma_anchor_sum_concat(a: Seq<Operation>, b: Seq<Operation>)
    ensures
        anchor_sum(a + b).0 == anchor_sum(a).0 + anchor_sum(b).0,
        anchor_sum(a + b).1 == anchor_sum(a).1 + anchor_sum(b).1,
    decreases b.len(),
{
    if b.len() == 0 {
    } else {
        assert((a + b).drop_last() =~= a + b.drop_last());
        lemma_anchor_sum_concat(a, b.drop_last());
    }
}

/// The anchors of two runs are counted separately.
pub proof fn lemma_anchor_count_concat(a: Seq<Operation>, b: Seq<Operation>, dx: int, dy: int)
    ensures
        anchor_count(a + b, dx, dy) == anchor_count(a, dx, dy) + anchor_count(b, dx, dy),
    decreases b.len(),
{
    if b.len() == 0 {
    } else {
        assert((a + b).drop_last() =~= a + b.drop_last());
        lemma_anchor_count_concat(a, b.drop_last(), dx, dy);
    }
}

/// Two nested runs, one after the other, are nested.
pub proof fn lemma_nested_concat(a: Seq<Operation>, b: Seq<Operation>)
    requires
        nested(a),
        nested(b),
    ensures
        nested(a + b),
    decreases a.len(),
{
    let ab = a + b;
    if a.len() == 0 {
    } else if a[0] is SetAnchor {
        let k = choose|k: int|
            #[trigger] closed_at(a, k) && nested(a.subrange(1, k)) && nested(
                a.subrange(k + 1, a.len() as int),
            );
        let tail = a.subrange(k + 1, a.len() as int);
        lemma_nested_concat(tail, b);
        assert(ab.subrange(1, k) =~= a.subrange(1, k));
        assert(ab.subrange(k + 1, ab.len() as int) =~= tail + b);
        assert(closed_at(ab, k));
    } else {
        let tail = a.subrange(1, a.len() as int);
        lemma_nested_concat(tail, b);
        assert(ab.subrange(1, ab.len() as int) =~= tail + b);
    }
}

/// A nested run stays nested inside a frame whose offset can be undone.
pub proof fn lemma_nested_framed(offset: Point, inner: Seq<Operation>)
    requires
        offset.invertible(),
        nested(inner),
    ensures
        nested(framed(offset, inner)),
{
    let ops = framed(offset, inner);
    let k = inner.len() as int + 1;
    assert(ops.subrange(1, k) =~= inner);
    assert(ops.subrange(k + 1, ops.len() as int) =~= Seq::<Operation>::empty());
    assert(nested(Seq::<Operation>::empty()));
    assert(closed_at(ops, k));
}

/// A single leaf operation is nested.
pub proof fn lemma_nested_leaf(op: Operation)
    requires
        !(op is SetAnchor),
    ensures
        nested(seq![op]),
{
    let ops = seq![op];
    assert(ops.subrange(1, ops.len() as int) =~= Seq::<Operation>::empty());
    assert(nested(Seq::<Operation>::empty()));
}

/// The anchors of a nested run cancel: after the run the frame of reference
/// is where it was before.
pub proof fn lemma_nested_sums_to_zero(ops: Seq<Operation>)
    requires
        nested(ops),
    ensures
        anchor_sum(ops) == (0int, 0int),
    decreases ops.len(),
{
    if ops.len() == 0 {
    } else if ops[0] is SetAnchor {
        let k = choose|k: int|
            #[trigger] closed_at(ops, k) && nested(ops.subrange(1, k)) && nested(
                ops.subrange(k + 1, ops.len() as int),
            );
        let inner = ops.subrange(1, k);
        let tail = ops.subrange(k + 1, ops.len() as int);
        lemma_nested_sums_to_zero(inner);
        lemma_nested_sums_to_zero(tail);
        let head = seq![ops[0]];
        let close = seq![ops[k]];
        assert(ops =~= head + inner + close + tail);
        lemma_anchor_sum_concat(head + inner + close, tail);
        lemma_anchor_sum_concat(head + inner, close);
        lemma_anchor_sum_concat(head, inner);
        lemma_anchor_sum_one(ops[0]);
        lemma_anchor_sum_one(ops[k]);
    } else {
        let tail = ops.subrange(1, ops.len() as int);
        lemma_nested_sums_to_zero(tail);
        let head = seq![ops[0]];
        assert(ops =~= head + tail);
        lemma_anchor_sum_concat(head, tail);
        lemma_anchor_sum_one(ops[0]);
    }
}

/// In a nested run every offset is set as often as its opposite.
pub proof fn lemma_nested_counts_match(ops: Seq<Operation>, dx: int, dy: int)
    requires
        nested(ops),
    ensures
        anchor_count(ops, dx, dy) == anchor_count(ops, -dx, -dy),
    decreases ops.len(),
{
    if ops.len() == 0 {
    } else if ops[0] is SetAnchor {
        let k = choose|k: int|
            #[trigger] closed_at(ops, k) && nested(ops.subrange(1, k)) && nested(
                ops.subrange(k + 1, ops.len() as int),
            );
        let inner = ops.subrange(1, k);
        let tail = ops.subrange(k + 1, ops.len() as int);
        lemma_nested_counts_match(inner, dx, dy);
        lemma_nested_counts_match(tail, dx, dy);
        let head = seq![ops[0]];
        let close = seq![ops[k]];
        assert(ops =~= head + inner + close + tail);
        lemma_anchor_count_concat(head + inner + close, tail, dx, dy);
        lemma_anchor_count_concat(head + inner, close, dx, dy);
        lemma_anchor_count_concat(head, inner, dx, dy);
        lemma_anchor_count_concat(head + inner + close, tail, -dx, -dy);
        lemma_anchor_count_concat(head + inner, close, -dx, -dy);
        lemma_anchor_count_concat(head, inner, -dx, -dy);
        lemma_anchor_count_one(ops[0], dx, dy);
        lemma_anchor_count_one(ops[k], dx, dy);
        lemma_anchor_count_one(ops[0], -dx, -dy);
        lemma_anchor_count_one(ops[k], -dx, -dy);
    } else {
        let tail = ops.subrange(1, ops.len() as int);
        lemma_nested_counts_match(tail, dx, dy);
        let head = seq![ops[0]];
        assert(ops =~= head + tail);
        lemma_anchor_count_concat(head, tail, dx, dy);
        lemma_anchor_count_concat(head, tail, -dx, -dy);
        lemma_anchor_count_one(ops[0], dx, dy);
        lemma_anchor_count_one(ops[0], -dx, -dy);
    }
}

proof fn lemma_anchor_sum_one(op: Operation)
    ensures
        anchor_sum(seq![op]) == shift(op),
{
    let ops = seq![op];
    assert(anchor_sum(ops.drop_last()) == (0int, 0int));
}

proof fn lemma_anchor_count_one(op: Operation, dx: int, dy: int)
    ensures
        anchor_count(seq![op], dx, dy) == if op is SetAnchor && shift(op) == (dx, dy) {
            1nat
        } else {
            0nat
        },
{
    let ops = seq![op];
    assert(anchor_count(ops.drop_last(), dx, dy) == 0);
}

} // verus!
