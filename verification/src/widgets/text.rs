use vstd::prelude::*;
use crate::display_list::Operation;
use crate::geometry::Size;
use crate::identity::IdSource;
use crate::message::{Message, MessageFlow};
use crate::widget::{Component, Producer, Reaction, Replace, Stateful, Widget, WidgetView};
use crate::widgets::single_line::single_line;

verus! {

/// A text as the state of a widget: the widget builds one line that shows
/// the text, and a signal puts the signal's body in its place.
impl Stateful for String {
    open spec fn blueprint(&self, constraint: Size) -> Seq<Operation> {
        seq![Operation::PutString(*self)]
    }

    open spec fn rank(&self) -> nat {
        1
    }

    open spec fn flow(&self, msg: Message) -> MessageFlow {
        match msg {
            Message::Signal(_) => MessageFlow::Intercept,
            _ => MessageFlow::Propagate,
        }
    }

    open spec fn next(&self, msg: Message) -> String {
        match msg {
            Message::Signal(signal) => signal.body,
            _ => *self,
        }
    }

    open spec fn touches(&self, msg: Message) -> bool {
        msg is Signal
    }

    fn build(&self, ids: &mut IdSource) -> (built: Widget<String>) {
        let built = single_line(ids, self.clone());
        proof {
            assert(built.child_depths_with(|s: String| s.rank()) =~= Seq::<nat>::empty());
        }
        built
    }

    fn handle(this: &mut Widget<String>, msg: &Message) -> (flow: MessageFlow) {
        match msg {
            Message::Signal(signal) => {
                this.set_state(Replace(signal.body.clone()));
                MessageFlow::Intercept
            },
            _ => MessageFlow::Propagate,
        }
    }

    fn check(&mut self) -> (changed: bool) {
        false
    }
}

/// A widget that shows a text and lets a signal replace it.
pub fn text(ids: &mut IdSource, s: String) -> (r: Component<String>)
    requires
        !old(ids).exhausted(),
    ensures
        old(ids).issues(r@.id, final(ids)),
        r@ == (WidgetView {
            id: r@.id,
            state: s,
            children: Seq::empty(),
            prev: None,
            needs_rebuild: true,
            focus: 0,
            on_message: Reaction::Route,
            create_element: Producer::Rebuild,
            heard: Seq::empty(),
        }),
        r.wf(),
        forall|c: Size| #[trigger] r.paints(c) == seq![Operation::PutString(s)],
{
    Widget::stateful(ids, s)
}

} // verus!
