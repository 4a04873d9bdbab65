use vstd::prelude::*;
use crate::display_list::{nested, DisplayList, Operation};
use crate::element::{pieces, Element};
use crate::geometry::Size;
use crate::layout::{draw_stacked, lemma_share_within, share, Axis, Layout};

verus! {

/// Children stacked from the top, each with an equal share of the height.
pub struct ColumnElement {
    pub children: Vec<Element>,
}

impl ColumnElement {
    /// The operations this element draws in the given room.
    pub open spec fn ops(&self, constraint: Size) -> Seq<Operation>
        decreases self,
    {
        Layout::Column.arrange(pieces(self.children@, Layout::Column, constraint), constraint)
    }

    /// Appends this element's operations to the display list.
    pub fn draw(&self, constraint: Size, display_list: &mut DisplayList)
        requires
            constraint.invertible(),
        ensures
            final(display_list)@ == old(display_list)@ + self.ops(constraint),
            nested(self.ops(constraint)),
        decreases self,
    {
        let count = self.children.len();
        let ghost parts = pieces(self.children@, Layout::Column, constraint);
        if count > 0 {
            let child_height = share(constraint.y, count);
            proof {
                lemma_share_within(constraint.y as int, count as int, 1);
                assert forall|k: int| 0 <= k <= count implies isize::MIN < 0 + #[trigger] (k
                    * child_height) <= isize::MAX by {
                    lemma_share_within(constraint.y as int, count as int, k);
                }
            }
            draw_stacked(
                &self.children,
                0,
                Axis::Vertical,
                0,
                child_height,
                constraint.x,
                display_list,
                Ghost(parts),
            );
        }
    }
}

} // verus!
