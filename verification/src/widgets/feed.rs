use vstd::prelude::*;
use std::future::Future;
use tokio::runtime::Handle;
use tokio::sync::mpsc::UnboundedSender;
use crate::display_list::Operation;
use crate::geometry::Size;
use crate::identity::IdSource;
use crate::message::{Message, MessageFlow};
use crate::runtime::{Completion, Stream};
use crate::widget::{Component, Producer, Reaction, Stateful, Widget, WidgetView};
use crate::widgets::single_char::single_char;
use crate::widgets::single_line::single_line;

verus! {

/// What a feed shows before its first line has come.
pub const FEED_WAITING: char = '.';

/// The state of a feed: a stream of lines, of which the widget shows the
/// one that came last. The widgets below a feed hold no stream.
pub enum Feed {
    /// Holds nothing.
    Idle,
    /// Holds the stream.
    Live(Stream<String, ()>),
}

impl Feed {
    /// Whether the feed holds a stream that holds the handle of the work
    /// that produces its lines.
    pub open spec fn attached(&self) -> bool {
        match self {
            Feed::Idle => false,
            Feed::Live(stream) => stream.attached(),
        }
    }

    /// The line that came last, if the feed holds a stream and one has come.
    pub open spec fn shown(&self) -> Option<String> {
        match self {
            Feed::Idle => None,
            Feed::Live(stream) => stream@.current,
        }
    }
}

impl Default for Feed {
    fn default() -> (r: Feed)
        ensures
            r is Idle,
    {
        Feed::Idle
    }
}

impl From<Stream<String, ()>> for Feed {
    fn from(stream: Stream<String, ()>) -> (r: Feed) {
        Feed::Live(stream)
    }
}

impl vstd::std_specs::convert::FromSpecImpl<Stream<String, ()>> for Feed {
    open spec fn obeys_from_spec() -> bool {
        true
    }

    open spec fn from_spec(stream: Stream<String, ()>) -> Feed {
        Feed::Live(stream)
    }
}

impl Stateful for Feed {
    open spec fn blueprint(&self, constraint: Size) -> Seq<Operation> {
        match self.shown() {
            Some(line) => seq![Operation::PutString(line)],
            None => seq![Operation::PutChar(FEED_WAITING)],
        }
    }

    /// A look at a feed that holds a stream is a check of the stream: some
    /// batch of lines was taken from the queue and absorbed, with what was
    /// found of the producer, and news is reported exactly when that
    /// changed the stream; a stream whose producer is still running holds
    /// what it held. A feed that holds nothing has no news.
    open spec fn finds(&self, after: Feed, changed: bool) -> bool {
        match (*self, after) {
            (Feed::Idle, Feed::Idle) => !changed,
            (Feed::Live(before), Feed::Live(now)) => exists|
                batch: Seq<String>,
                outcome: Completion<()>,
            |
                {
                    &&& now@ == #[trigger] before@.absorbed(batch, outcome)
                    &&& changed == before@.changes(batch, outcome)
                    &&& now@.task is Running ==> now.attached() == before.attached()
                },
            _ => false,
        }
    }

    fn build(&self, ids: &mut IdSource) -> (built: Widget<Feed>) {
        let built = match self {
            Feed::Idle => single_char(ids, FEED_WAITING),
            Feed::Live(stream) => match stream.current() {
                Some(line) => single_line(ids, line.clone()),
                None => single_char(ids, FEED_WAITING),
            },
        };
        proof {
            assert(built.child_depths_with(|s: Feed| s.rank()) =~= Seq::<nat>::empty());
        }
        built
    }

    fn handle(this: &mut Widget<Feed>, msg: &Message) -> (flow: MessageFlow) {
        MessageFlow::Propagate
    }

    fn check(&mut self) -> (changed: bool) {
        match self {
            Feed::Idle => false,
            Feed::Live(stream) => stream.check(),
        }
    }
}

/// A widget that shows the last line of a stream of lines. The stream is
/// started here: the generator gets the sending end of the channel, and
/// the future it returns is run on the runtime. Every tick makes the widget
/// check its stream, and news marks it for a rebuild.
pub fn feed<F, G>(ids: &mut IdSource, rt: &Handle, generator: G) -> (r: Component<Feed>) where
    G: FnOnce(UnboundedSender<String>) -> F,
    F: Future<Output = ()> + Send + 'static,

    requires
        !old(ids).exhausted(),
        forall|sender: UnboundedSender<String>| call_requires(generator, (sender,)),
    ensures
        old(ids).issues(r@.id, final(ids)),
        r@.state is Live,
        r@.state.attached(),
        r@.state.shown() is None,
        exists|sender: UnboundedSender<String>, work: F| #[trigger]
            call_ensures(generator, (sender,), work),
        r@ == (WidgetView {
            id: r@.id,
            state: r@.state,
            children: Seq::empty(),
            prev: None,
            needs_rebuild: true,
            focus: 0,
            on_message: Reaction::Poll,
            create_element: Producer::Rebuild,
            heard: Seq::empty(),
        }),
        r.wf(),
        forall|c: Size| #[trigger] r.paints(c) == seq![Operation::PutChar(FEED_WAITING)],
{
    Widget::stream(ids, rt, generator)
}

} // verus!
