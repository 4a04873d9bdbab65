use vstd::prelude::*;
use crate::display_list::{nested, DisplayList, Operation};
use crate::element::{pieces, Element};
use crate::geometry::Size;
use crate::layout::{draw_stacked, lemma_share_within, share, Axis, Layout};

verus! {

/// Children placed from the left, each with an equal share of the width.
pub struct RowElement {
    pub children: Vec<Element>,
}

impl RowElement {
    /// The operations this element draws in the given room.
    pub open spec fn ops(&self, constraint: Size) -> Seq<Operation>
        decreases self,
    {
        Layout::Row.arrange(pieces(self.children@, Layout::Row, constraint), constraint)
    }

    /// Appends this element's operations to the display list.
    pub fn draw(&self, constraint: Size, display_list: &mut DisplayList)
        requires
            constraint.invertible(),
        ensures
            final(display_list)@ == old(display_list)@ + self.ops(constraint),
            nested(self.ops(constraint)),
        decreases self,
    {
        let count = self.children.len();
        let ghost parts = pieces(self.children@, Layout::Row, constraint);
        if count > 0 {
            let child_width = share(constraint.x, count);
            proof {
                lemma_share_within(constraint.x as int, count as int, 1);
                assert forall|k: int| 0 <= k <= count implies isize::MIN < 0 + #[trigger] (k
                    * child_width) <= isize::MAX by {
                    lemma_share_within(constraint.x as int, count as int, k);
                }
            }
            draw_stacked(
                &self.children,
                0,
                Axis::Horizontal,
                0,
                child_width,
                constraint.y,
                display_list,
                Ghost(parts),
            );
        }
    }
}

} // verus!
