use vstd::prelude::*;
use crate::identity::IdSource;
use crate::widget::{Component, Producer, Reaction, Widget, WidgetView};

verus! {

/// A widget that shows one character, has no children and ignores messages.
pub fn single_char<State: Default>(ids: &mut IdSource, c: char) -> (r: Component<State>)
    requires
        !old(ids).exhausted(),
    ensures
        old(ids).issues(r@.id, final(ids)),
        call_ensures(State::default, (), r@.state),
        r@ == (WidgetView {
            id: r@.id,
            state: r@.state,
            children: Seq::empty(),
            prev: None,
            needs_rebuild: true,
            focus: 0,
            on_message: Reaction::Ignore,
            create_element: Producer::Char(c),
            heard: Seq::empty(),
        }),
        r.wf(),
{
    Widget::elemental(ids, State::default(), Vec::new(), Reaction::Ignore, Producer::Char(c))
}

} // verus!
