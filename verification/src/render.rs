//! What the host loop calls: deliver a message, produce a frame, draw it.

use vstd::prelude::*;
use crate::display_list::{anchor_sum, lemma_nested_sums_to_zero, nested, DisplayList};
use crate::element::Element;
use crate::geometry::Size;
use crate::identity::IdSource;
use crate::message::Message;
use crate::widget::{Component, Stateful, WidgetView};

verus! {

/// Feeds a message into the tree at its root.
pub fn deliver<State: Stateful>(root: &mut Component<State>, msg: &Message, ids: &mut IdSource)
    requires
        old(root).wf(),
        old(ids).has_room(old(root).wants(*msg)),
    ensures
        final(ids).issued() <= old(ids).issued() + old(root).wants(*msg),
        old(root).reacts(*msg, final(root)),
        !(old(root)@.on_message is Poll) ==> {
            ||| final(root)@.state == old(root)@.state
            ||| final(root)@.needs_rebuild
        },
        final(root)@.id == old(root)@.id,
        final(root)@.heard == old(root)@.heard.push(*msg),
        final(root).wf(),
        old(ids).precedes(final(ids)),
{
    root.on_message(msg, ids);
}

/// Asks the tree for the element of the next frame and for whether anything
/// was rebuilt. A second frame asked for right away reports no rebuild and
/// draws the same.
pub fn frame<State: Stateful>(root: &mut Component<State>, ids: &mut IdSource) -> (r: (
    bool,
    Element,
))
    requires
        old(root).wf(),
        old(ids).has_room(old(root).appetite()),
    ensures
        final(ids).issued() <= old(ids).issued() + old(root).appetite(),
        !old(root).dirty() ==> old(root).same(final(root)),
        !old(root).dirty() ==> final(ids).issued() == old(ids).issued(),
        forall|i: int|
            0 <= i < old(root)@.children.len() ==> (#[trigger] final(root)@.children[i])@.id
                == old(root)@.children[i]@.id,
        !(old(root)@.create_element is Rebuild) ==> final(root)@.prev == old(root)@.prev,
        old(root)@.create_element is Rebuild && !old(root)@.rebuilds() ==> {
            &&& final(root)@.prev is Some
            &&& final(root)@.prev->0@.id == old(root)@.prev->0@.id
        },
        r.0 == old(root).dirty(),
        forall|c: Size| #[trigger] r.1.ops(c) == old(root).paints(c),
        !final(root).dirty(),
        forall|c: Size| #[trigger] final(root).paints(c) == old(root).paints(c),
        final(root)@ == (WidgetView {
            children: final(root)@.children,
            prev: final(root)@.prev,
            needs_rebuild: old(root)@.needs_rebuild && !(old(root)@.create_element is Rebuild),
            ..old(root)@
        }),
        final(root)@.children.len() == old(root)@.children.len(),
        final(root).wf(),
        old(ids).precedes(final(ids)),
{
    root.create_element(ids)
}

/// Draws an element into a display list of its own, for a screen of the
/// given size. The anchors of the list are nested and cancel.
pub fn draw(element: &Element, screen_size: Size) -> (display_list: DisplayList)
    requires
        screen_size.invertible(),
    ensures
        display_list@ == element.ops(screen_size),
        nested(display_list@),
        anchor_sum(display_list@) == (0int, 0int),
{
    let mut display_list = DisplayList::new();
    element.draw(screen_size, &mut display_list);
    proof {
        lemma_nested_sums_to_zero(display_list@);
    }
    display_list
}

} // verus!
