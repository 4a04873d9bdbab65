use vstd::prelude::*;
use crate::display_list::{lemma_nested_leaf, nested, DisplayList, Operation};
use crate::geometry::Size;

verus! {

/// A single character.
pub struct CharElement {
    pub c: char,
}

impl CharElement {
    /// The operations this element draws, whatever the room.
    pub open spec fn ops(&self, constraint: Size) -> Seq<Operation> {
        seq![Operation::PutChar(self.c)]
    }

    /// Appends this element's operations to the display list.
    pub fn draw(&self, constraint: Size, display_list: &mut DisplayList)
        requires
            constraint.invertible(),
        ensures
            final(display_list)@ == old(display_list)@ + self.ops(constraint),
            nested(self.ops(constraint)),
    {
        proof {
            lemma_nested_leaf(Operation::PutChar(self.c));
        }
        display_list.0.push(Operation::PutChar(self.c));
    }
}

} // verus!
