use vstd::prelude::*;
use crate::display_list::{
    framed, lemma_nested_concat, lemma_nested_framed, nested, DisplayList, Operation,
};
use crate::element::{pieces, Element};
use crate::geometry::{Point, Size};
use crate::layout::{draw_stacked, lemma_share_within, reserve, share, stacked, Axis, Layout};

verus! {

/// A column whose first child is a footer of fixed height at the bottom; the
/// other children share what is left above it.
pub struct BottomColumnElement {
    pub children: Vec<Element>,
    pub footer_height: isize,
}

impl BottomColumnElement {
    /// The arrangement of this element's children.
    pub open spec fn layout(&self) -> Layout {
        Layout::BottomColumn { footer_height: self.footer_height }
    }

    /// The operations this element draws in the given room.
    pub open spec fn ops(&self, constraint: Size) -> Seq<Operation>
        decreases self,
    {
        self.layout().arrange(pieces(self.children@, self.layout(), constraint), constraint)
    }

    /// Appends this element's operations to the display list: the other
    /// children from the top down, then the footer below them.
    pub fn draw(&self, constraint: Size, display_list: &mut DisplayList)
        requires
            constraint.invertible(),
        ensures
            final(display_list)@ == old(display_list)@ + self.ops(constraint),
            nested(self.ops(constraint)),
        decreases self,
    {
        let total_height = constraint.y;
        let footer_height = reserve(self.footer_height, total_height);
        let remaining_height = total_height - footer_height;
        let num_other_children = self.children.len().saturating_sub(1);
        let ghost parts = pieces(self.children@, self.layout(), constraint);
        let ghost others = stacked(
            parts,
            1,
            self.children@.len() as int,
            Axis::Vertical,
            0,
            self.layout().step(self.children@.len() as int, constraint),
        );

        // The other children, from the top down.
        if num_other_children > 0 {
            let other_child_height = share(remaining_height, num_other_children);
            proof {
                lemma_share_within(remaining_height as int, num_other_children as int, 1);
                assert forall|k: int| 0 <= k <= num_other_children implies isize::MIN < 0
                    + #[trigger] (k * other_child_height) <= isize::MAX by {
                    lemma_share_within(remaining_height as int, num_other_children as int, k);
                }
            }
            draw_stacked(
                &self.children,
                1,
                Axis::Vertical,
                0,
                other_child_height,
                constraint.x,
                display_list,
                Ghost(parts),
            );
        }

        // The footer, at the bottom.
        if self.children.len() > 0 {
            let offset = Point { x: 0, y: remaining_height };
            let room = Size { x: constraint.x, y: footer_height };
            display_list.0.push(Operation::SetAnchor(offset));
            self.children[0].draw(room, display_list);
            display_list.0.push(Operation::SetAnchor(offset.negated()));
            proof {
                let inner = parts[0];
                lemma_nested_framed(offset, inner);
                lemma_nested_concat(others, framed(offset, inner));
            }
        }
    }
}

} // verus!
