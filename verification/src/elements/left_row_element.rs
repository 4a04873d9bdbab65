use vstd::prelude::*;
use crate::display_list::{
    framed, lemma_nested_concat, lemma_nested_framed, nested, DisplayList, Operation,
};
use crate::element::{pieces, Element};
use crate::geometry::{Point, Size};
use crate::layout::{draw_stacked, lemma_share_within, reserve, share, stacked, Axis, Layout};

verus! {

/// A row whose first child is a sidebar of fixed width at the left; the other
/// children share what is left to its right.
pub struct LeftRowElement {
    pub children: Vec<Element>,
    pub sidebar_width: isize,
}

impl LeftRowElement {
    /// The arrangement of this element's children.
    pub open spec fn layout(&self) -> Layout {
        Layout::LeftRow { sidebar_width: self.sidebar_width }
    }

    /// The operations this element draws in the given room.
    pub open spec fn ops(&self, constraint: Size) -> Seq<Operation>
        decreases self,
    {
        self.layout().arrange(pieces(self.children@, self.layout(), constraint), constraint)
    }

    /// Appends this element's operations to the display list: the sidebar
    /// at the left, then the other children to its right.
    pub fn draw(&self, constraint: Size, display_list: &mut DisplayList)
        requires
            constraint.invertible(),
        ensures
            final(display_list)@ == old(display_list)@ + self.ops(constraint),
            nested(self.ops(constraint)),
        decreases self,
    {
        let total_width = constraint.x;
        let sidebar_width = reserve(self.sidebar_width, total_width);
        let remaining_width = total_width - sidebar_width;
        let num_other_children = self.children.len().saturating_sub(1);
        let ghost parts = pieces(self.children@, self.layout(), constraint);
        let ghost others = stacked(
            parts,
            1,
            self.children@.len() as int,
            Axis::Horizontal,
            sidebar_width as int,
            self.layout().step(self.children@.len() as int, constraint),
        );
        let ghost sidebar = Seq::<Operation>::empty();

        // The sidebar, at the left.
        if self.children.len() > 0 {
            let offset = Point { x: 0, y: 0 };
            let room = Size { x: sidebar_width, y: constraint.y };
            display_list.0.push(Operation::SetAnchor(offset));
            self.children[0].draw(room, display_list);
            display_list.0.push(Operation::SetAnchor(offset.negated()));
            proof {
                let inner = parts[0];
                lemma_nested_framed(offset, inner);
                sidebar = framed(offset, inner);
            }
        }

        // The other children, from the left, after the sidebar.
        if num_other_children > 0 {
            let other_child_width = share(remaining_width, num_other_children);
            proof {
                lemma_share_within(remaining_width as int, num_other_children as int, 1);
                assert forall|k: int| 0 <= k <= num_other_children implies isize::MIN
                    < sidebar_width + #[trigger] (k * other_child_width) <= isize::MAX by {
                    lemma_share_within(remaining_width as int, num_other_children as int, k);
                }
            }
            draw_stacked(
                &self.children,
                1,
                Axis::Horizontal,
                sidebar_width,
                other_child_width,
                constraint.y,
                display_list,
                Ghost(parts),
            );
            proof {
                lemma_nested_concat(sidebar, others);
            }
        }
    }
}

} // verus!
