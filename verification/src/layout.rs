//! The arithmetic shared by the layout elements: how much room is reserved,
//! how the rest is divided, and where each child is anchored.

use vstd::prelude::*;
use vstd::arithmetic::div_mod::{lemma_basic_div, lemma_div_by_self, lemma_fundamental_div_mod};
use vstd::arithmetic::mul::{lemma_mul_inequality, lemma_mul_nonnegative};
use crate::display_list::{
    framed, lemma_nested_concat, lemma_nested_framed, nested, DisplayList, Operation,
};
use crate::element::{pieces, Element};
use crate::elements::bottom_column_element::BottomColumnElement;
use crate::elements::column_element::ColumnElement;
use crate::elements::left_row_element::LeftRowElement;
use crate::elements::row_element::RowElement;
use crate::geometry::{Point, Size};

verus! {

/// The direction along which children are laid out one after another.
#[derive(Clone, Copy, Debug, PartialEq, Eq, Structural)]
pub enum Axis {
    /// Left to right.
    Horizontal,
    /// Top to bottom.
    Vertical,
}

/// The room set aside for a fixed child: `wanted`, clamped into
/// `[0, total]`; nothing where `total` is negative.
pub open spec fn reserved(wanted: int, total: int) -> int {
    let capped = if wanted < total {
        wanted
    } else {
        total
    };
    if capped < 0 {
        0
    } else {
        capped
    }
}

/// The room each of `count` children gets out of `extent`: the quotient,
/// rounded towards zero.
pub open spec fn per_child(extent: int, count: int) -> int {
    if count <= 0 {
        0
    } else if extent >= 0 {
        extent / count
    } else {
        -((-extent) / count)
    }
}

/// The offset of a child placed `main` cells along the axis.
pub open spec fn place(axis: Axis, main: int) -> Point {
    match axis {
        Axis::Horizontal => Point { x: main as isize, y: 0 },
        Axis::Vertical => Point { x: 0, y: main as isize },
    }
}

/// The room of a child that gets `main` cells along the axis and `cross`
/// cells across it.
pub open spec fn room(axis: Axis, main: int, cross: int) -> Size {
    match axis {
        Axis::Horizontal => Size { x: main as isize, y: cross as isize },
        Axis::Vertical => Size { x: cross as isize, y: main as isize },
    }
}

/// What the children `first..upto` draw when they are laid out one after
/// another along the axis: child `i`, which draws `pieces[i]`, is anchored
/// at `start + (i - first) * step`.
pub open spec fn stacked(
    pieces: Seq<Seq<Operation>>,
    first: int,
    upto: int,
    axis: Axis,
    start: int,
    step: int,
) -> Seq<Operation>
    decreases upto - first,
{
    if upto <= first {
        Seq::empty()
    } else {
        stacked(pieces, first, upto - 1, axis, start, step) + framed(
            place(axis, start + (upto - 1 - first) * step),
            pieces[upto - 1],
        )
    }
}

/// How a list of child elements is arranged into one element.
#[derive(Clone, Copy, Debug, PartialEq, Eq, Structural)]
pub enum Layout {
    /// Stacked from the top, in equal shares of the height.
    Column,
    /// Placed from the left, in equal shares of the width.
    Row,
    /// The first child is a footer of fixed height below the others, which
    /// share the remaining height from the top.
    BottomColumn { footer_height: isize },
    /// The first child is a sidebar of fixed width left of the others, which
    /// share the remaining width to its right.
    LeftRow { sidebar_width: isize },
}

impl Layout {
    /// The direction along which the children follow one another.
    pub open spec fn axis(self) -> Axis {
        match self {
            Layout::Column => Axis::Vertical,
            Layout::Row => Axis::Horizontal,
            Layout::BottomColumn { .. } => Axis::Vertical,
            Layout::LeftRow { .. } => Axis::Horizontal,
        }
    }

    /// The extent that is divided, and the extent across it.
    pub open spec fn extents(self, constraint: Size) -> (int, int) {
        match self.axis() {
            Axis::Horizontal => (constraint.x as int, constraint.y as int),
            Axis::Vertical => (constraint.y as int, constraint.x as int),
        }
    }

    /// The room set aside for the fixed first child: what the layout asks
    /// for, clamped into the extent; zero where the layout has no such child.
    pub open spec fn fixed(self, constraint: Size) -> int {
        match self {
            Layout::Column => 0,
            Layout::Row => 0,
            Layout::BottomColumn { footer_height } => reserved(
                footer_height as int,
                constraint.y as int,
            ),
            Layout::LeftRow { sidebar_width } => reserved(
                sidebar_width as int,
                constraint.x as int,
            ),
        }
    }

    /// The index of the first child that shares the remaining room.
    pub open spec fn first_shared(self) -> int {
        match self {
            Layout::Column => 0,
            Layout::Row => 0,
            Layout::BottomColumn { .. } => 1,
            Layout::LeftRow { .. } => 1,
        }
    }

    /// The room that each sharing child gets along the axis, out of `count`
    /// children in all: an equal share, rounded towards zero, of what the
    /// fixed child leaves.
    pub open spec fn step(self, count: int, constraint: Size) -> int {
        per_child(
            self.extents(constraint).0 - self.fixed(constraint),
            count - self.first_shared(),
        )
    }

    /// The room that child `i` of `count` is given.
    pub open spec fn room_of(self, i: int, count: int, constraint: Size) -> Size {
        if i < self.first_shared() {
            room(self.axis(), self.fixed(constraint), self.extents(constraint).1)
        } else {
            room(self.axis(), self.step(count, constraint), self.extents(constraint).1)
        }
    }

    /// What the arrangement draws, where child `i` draws `pieces[i]` in the
    /// room it is given.
    pub open spec fn arrange(self, pieces: Seq<Seq<Operation>>, constraint: Size) -> Seq<
        Operation,
    > {
        let n = pieces.len() as int;
        let step = self.step(n, constraint);
        match self {
            Layout::Column => stacked(pieces, 0, n, Axis::Vertical, 0, step),
            Layout::Row => stacked(pieces, 0, n, Axis::Horizontal, 0, step),
            Layout::BottomColumn { .. } => if n == 0 {
                Seq::empty()
            } else {
                stacked(pieces, 1, n, Axis::Vertical, 0, step) + framed(
                    place(Axis::Vertical, constraint.y - self.fixed(constraint)),
                    pieces[0],
                )
            },
            Layout::LeftRow { .. } => if n == 0 {
                Seq::empty()
            } else {
                framed(place(Axis::Horizontal, 0), pieces[0]) + stacked(
                    pieces,
                    1,
                    n,
                    Axis::Horizontal,
                    self.fixed(constraint),
                    step,
                )
            },
        }
    }

    /// Wraps the children into the layout element of this arrangement.
    pub fn assemble(&self, children: Vec<Element>) -> (element: Element)
        ensures
            forall|c: Size| #[trigger]
                element.ops(c) == self.arrange(pieces(children@, *self, c), c),
    {
        match self {
            Layout::Column => Element::Column(ColumnElement { children }),
            Layout::Row => Element::Row(RowElement { children }),
            Layout::BottomColumn { footer_height } => Element::BottomColumn(
                BottomColumnElement { children, footer_height: *footer_height },
            ),
            Layout::LeftRow { sidebar_width } => Element::LeftRow(
                LeftRowElement { children, sidebar_width: *sidebar_width },
            ),
        }
    }
}

/// The children of a stack never reach past the extent that was divided
/// among them, in whichever direction it points.
pub proof fn lemma_share_within(extent: int, count: int, k: int)
    requires
        count > 0,
        0 <= k <= count,
    ensures
        extent >= 0 ==> 0 <= k * per_child(extent, count) <= extent,
        extent < 0 ==> extent <= k * per_child(extent, count) <= 0,
        extent >= 0 ==> 0 <= per_child(extent, count) <= extent,
        extent < 0 ==> extent <= per_child(extent, count) <= 0,
{
    let size = if extent >= 0 {
        extent
    } else {
        -extent
    };
    let q = size / count;
    lemma_fundamental_div_mod(size, count);
    assert(0 <= q) by (nonlinear_arith)
        requires
            size >= 0,
            count > 0,
            q == size / count,
    ;
    lemma_mul_inequality(k, count, q);
    lemma_mul_nonnegative(k, q);
    assert(q <= size) by (nonlinear_arith)
        requires
            count * q <= size,
            count >= 1,
            q >= 0,
    ;
    if extent < 0 {
        assert(k * (-q) == -(k * q)) by (nonlinear_arith);
    }
}

/// Clamps the room wanted for a fixed child into `[0, total]`.
pub fn reserve(wanted: isize, total: isize) -> (r: isize)
    ensures
        r == reserved(wanted as int, total as int),
        0 <= r,
        total >= 0 ==> r <= total,
        total < 0 ==> r == 0,
{
    let capped = if wanted < total {
        wanted
    } else {
        total
    };
    if capped < 0 {
        0
    } else {
        capped
    }
}

/// Divides an extent evenly among `count` children, rounding towards zero.
pub fn share(extent: isize, count: usize) -> (r: isize)
    requires
        count > 0,
    ensures
        r == per_child(extent as int, count as int),
{
    let limit: usize = isize::MAX as usize;
    if count <= limit {
        extent / (count as isize)
    } else if extent == isize::MIN && count - 1 == limit {
        proof {
            lemma_div_by_self(count as int);
        }
        -1
    } else {
        proof {
            if extent >= 0 {
                lemma_basic_div(extent as int, count as int);
            } else {
                lemma_basic_div(-(extent as int), count as int);
            }
        }
        0
    }
}

/// Draws the children from `first` on, one after another along the axis,
/// each in the same room.
pub(crate) fn draw_stacked(
    children: &Vec<Element>,
    first: usize,
    axis: Axis,
    start: isize,
    step: isize,
    cross: isize,
    display_list: &mut DisplayList,
    Ghost(pieces): Ghost<Seq<Seq<Operation>>>,
)
    requires
        first <= children@.len(),
        pieces.len() == children@.len(),
        step > isize::MIN,
        cross > isize::MIN,
        forall|i: int|
            first <= i < children@.len() ==> #[trigger] pieces[i] == children@[i].ops(
                room(axis, step as int, cross as int),
            ),
        forall|k: int|
            0 <= k <= children@.len() - first ==> isize::MIN < start + #[trigger] (k * step)
                <= isize::MAX,
    ensures
        final(display_list)@ == old(display_list)@ + stacked(
            pieces,
            first as int,
            children@.len() as int,
            axis,
            start as int,
            step as int,
        ),
        nested(
            stacked(pieces, first as int, children@.len() as int, axis, start as int, step as int),
        ),
    decreases children,
{
    let n = children.len();
    let mut i: usize = first;
    let mut offset: isize = start;
    while i < n
        invariant
            first <= i <= n,
            n == children@.len(),
            pieces.len() == n,
            step > isize::MIN,
            cross > isize::MIN,
            forall|i: int|
                first <= i < n ==> #[trigger] pieces[i] == children@[i].ops(
                    room(axis, step as int, cross as int),
                ),
            forall|k: int|
                0 <= k <= n - first ==> isize::MIN < start + #[trigger] (k * step) <= isize::MAX,
            offset == start + (i - first) * step,
            display_list@ == old(display_list)@ + stacked(
                pieces,
                first as int,
                i as int,
                axis,
                start as int,
                step as int,
            ),
            nested(stacked(pieces, first as int, i as int, axis, start as int, step as int)),
        decreases n - i,
    {
        let ghost before = stacked(pieces, first as int, i as int, axis, start as int, step as int);
        proof {
            let here = i - first;
            let next = i - first + 1;
            assert(next * step == here * step + step) by (nonlinear_arith)
                requires
                    next == here + 1,
            ;
        }
        let (at, size) = match axis {
            Axis::Horizontal => (Point { x: offset, y: 0 }, Size { x: step, y: cross }),
            Axis::Vertical => (Point { x: 0, y: offset }, Size { x: cross, y: step }),
        };
        display_list.0.push(Operation::SetAnchor(at));
        children[i].draw(size, display_list);
        display_list.0.push(Operation::SetAnchor(at.negated()));
        proof {
            let inner = pieces[i as int];
            lemma_nested_framed(at, inner);
            lemma_nested_concat(before, framed(at, inner));
        }
        offset = offset + step;
        i += 1;
    }
}

} // verus!
