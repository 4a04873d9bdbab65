use vstd::prelude::*;
use crate::display_list::{lemma_nested_leaf, nested, DisplayList, Operation};
use crate::geometry::Size;

verus! {

/// One line of text.
pub struct StringElement {
    pub s: String,
}

impl StringElement {
    /// The operations this element draws, whatever the room.
    pub open spec fn ops(&self, constraint: Size) -> Seq<Operation> {
        seq![Operation::PutString(self.s)]
    }

    /// Appends this element's operations to the display list.
    pub fn draw(&self, constraint: Size, display_list: &mut DisplayList)
        requires
            constraint.invertible(),
        ensures
            final(display_list)@ == old(display_list)@ + self.ops(constraint),
            nested(self.ops(constraint)),
    {
        proof {
            lemma_nested_leaf(Operation::PutString(self.s));
        }
        display_list.0.push(Operation::PutString(self.s.clone()));
    }
}

} // verus!
