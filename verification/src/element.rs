//! Elements: the drawable counterpart of a widget, alive for one frame.

use vstd::prelude::*;
use crate::display_list::{nested, DisplayList, Operation};
use crate::elements::bottom_column_element::BottomColumnElement;
use crate::elements::char_element::CharElement;
use crate::elements::column_element::ColumnElement;
use crate::elements::left_row_element::LeftRowElement;
use crate::elements::row_element::RowElement;
use crate::elements::string_element::StringElement;
use crate::geometry::Size;
use crate::layout::Layout;

verus! {

/// A drawable, owned tree produced for one frame. An element knows only how
/// to draw itself into a display list, given the room it may use.
pub enum Element {
    Char(CharElement),
    String(StringElement),
    Column(ColumnElement),
    Row(RowElement),
    BottomColumn(BottomColumnElement),
    LeftRow(LeftRowElement),
}

/// What each element of a list draws in the room that the layout gives it.
pub open spec fn pieces(children: Seq<Element>, layout: Layout, constraint: Size) -> Seq<
    Seq<Operation>,
>
    decreases children,
{
    Seq::new(
        children.len(),
        |i: int|
            if 0 <= i < children.len() {
                children[i].ops(layout.room_of(i, children.len() as int, constraint))
            } else {
                Seq::empty()
            },
    )
}

impl Element {
    /// The operations this element draws in the given room.
    pub open spec fn ops(&self, constraint: Size) -> Seq<Operation>
        decreases self,
    {
        match self {
            Element::Char(e) => e.ops(constraint),
            Element::String(e) => e.ops(constraint),
            Element::Column(e) => e.ops(constraint),
            Element::Row(e) => e.ops(constraint),
            Element::BottomColumn(e) => e.ops(constraint),
            Element::LeftRow(e) => e.ops(constraint),
        }
    }

    /// Appends this element's operations to the display list. Whatever was
    /// in the list stays; what is appended leaves the frame of reference
    /// where it found it.
    pub fn draw(&self, constraint: Size, display_list: &mut DisplayList)
        requires
            constraint.invertible(),
        ensures
            final(display_list)@ == old(display_list)@ + self.ops(constraint),
            nested(self.ops(constraint)),
        decreases self,
    {
        match self {
            Element::Char(e) => e.draw(constraint, display_list),
            Element::String(e) => e.draw(constraint, display_list),
            Element::Column(e) => e.draw(constraint, display_list),
            Element::Row(e) => e.draw(constraint, display_list),
            Element::BottomColumn(e) => e.draw(constraint, display_list),
            Element::LeftRow(e) => e.draw(constraint, display_list),
        }
    }
}

} // verus!
