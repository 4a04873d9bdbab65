use vstd::prelude::*;
use crate::identity::IdSource;
use crate::layout::Layout;
use crate::widget::{
    statelessly_childfully_create_element_functional, Children, Component, Producer, Reaction,
    Widget, WidgetView,
};

verus! {

/// A widget that stacks its children from the top, in equal shares of the
/// height, and hands every message to each of them.
pub fn column<State: Default>(ids: &mut IdSource, children: Children<State>) -> (r: Component<
    State,
>)
    requires
        !old(ids).exhausted(),
        forall|i: int| 0 <= i < children@.len() ==> (#[trigger] children@[i]).wf(),
    ensures
        old(ids).issues(r@.id, final(ids)),
        call_ensures(State::default, (), r@.state),
        r@ == (WidgetView {
            id: r@.id,
            state: r@.state,
            children: children@,
            prev: None,
            needs_rebuild: true,
            focus: 0,
            on_message: Reaction::Propagate,
            create_element: Producer::Gather(Layout::Column),
            heard: Seq::empty(),
        }),
        r.wf(),
{
    let widgets = children;
    Widget::elemental(
        ids,
        State::default(),
        widgets,
        Reaction::Propagate,
        statelessly_childfully_create_element_functional(Layout::Column),
    )
}

} // verus!
