use vstd::prelude::*;
use crate::identity::IdSource;
use crate::widget::{Component, Producer, Reaction, Widget, WidgetView};

verus! {

/// A widget that shows one line of text, has no children and ignores
/// messages.
pub fn single_line<State: Default>(ids: &mut IdSource, s: String) -> (r: Component<State>)
    requires
        !old(ids).exhausted(),
    ensures
        old(ids).issues(r@.id, final(ids)),
        call_ensures(State::default, (), r@.state),
        r@ == (WidgetView {
            id: r@.id,
            state: r@.state,
            children: Seq::empty(),
            prev: None,
            needs_rebuild: true,
            focus: 0,
            on_message: Reaction::Ignore,
            create_element: Producer::Line(s),
            heard: Seq::empty(),
        }),
        r.wf(),
{
    Widget::elemental(ids, State::default(), Vec::new(), Reaction::Ignore, Producer::Line(s))
}

} // verus!
