//! The widget runtime: the stateful node of the tree, how it memoizes the
//! subtree it builds, and how messages travel through it.

use vstd::prelude::*;
use vstd::arithmetic::div_mod::{lemma_mod_multiples_vanish, lemma_mod_self_0, lemma_small_mod};
use crate::display_list::Operation;
use crate::element::{pieces, Element};
use crate::elements::char_element::CharElement;
use crate::elements::left_row_element::LeftRowElement;
use crate::elements::string_element::StringElement;
use crate::geometry::Size;
use crate::identity::IdSource;
use crate::layout::Layout;
use crate::message::{switch, Control, Key, Message, MessageFlow, Tick};
use crate::runtime::{Stream, StreamView, Task, TaskState};
use std::future::Future;
use tokio::runtime::Handle;
use tokio::sync::mpsc::UnboundedSender;

verus! {

/// Issues the identity of the next widget. A source that is exhausted has
/// none: the widget cannot be made.
pub fn uid(ids: &mut IdSource) -> (id: usize)
    requires
        !old(ids).exhausted(),
    ensures
        old(ids).issues(id, final(ids)),
{
    ids.issue()
}

/// A node of the component tree. Every node is a widget; the nodes of one
/// tree share the type of their state.
pub type Component<State> = Widget<State>;

/// The children handed to a widget at construction.
pub type Children<State> = Vec<Component<State>>;

/// A change to a widget's state.
pub trait Mutator<State>: Sized {
    /// The state after the change.
    spec fn apply(&self, state: State) -> State;

    /// Changes the state in place.
    fn mutate(self, state: &mut State)
        ensures
            *final(state) == self.apply(*old(state)),
    ;
}

/// The change that changes nothing.
pub struct Keep;

impl<State> Mutator<State> for Keep {
    open spec fn apply(&self, state: State) -> State {
        state
    }

    fn mutate(self, state: &mut State) {
    }
}

/// The change that puts a new state in place of the old one.
pub struct Replace<State>(pub State);

impl<State> Mutator<State> for Replace<State> {
    open spec fn apply(&self, state: State) -> State {
        self.0
    }

    fn mutate(self, state: &mut State) {
        *state = self.0;
    }
}

/// What a widget does with a message.
#[derive(Clone, Copy, Debug, PartialEq, Eq, Structural)]
pub enum Reaction {
    /// Nothing.
    Ignore,
    /// Hands the message to every child.
    Propagate,
    /// Runs the state's handler and hands the message to nobody.
    Handle,
    /// Runs the state's handler, then hands the message to every child,
    /// whatever the handler decided.
    HandleThenPropagate,
    /// Runs the state's handler, then hands the message to the cached
    /// subtree if the handler says to propagate.
    Route,
    /// On a tick, first looks for news from the background work held in the
    /// state; then as `Route`.
    Poll,
    /// Keeps a focus among the children: moves it on the focus keys, appends
    /// a child on request, and hands anything else to the focused child only.
    Focus,
}

/// How a widget turns itself into the element of a frame.
#[derive(Clone, Debug, PartialEq, Eq)]
pub enum Producer {
    /// A single character.
    Char(char),
    /// One line of text.
    Line(String),
    /// The children's elements, arranged by a layout.
    Gather(Layout),
    /// The element of the subtree built from the state, rebuilt when stale.
    Rebuild,
    /// As `Gather`, with the focused child marked.
    Focus(Layout),
}

/// The character drawn beside the child that has the focus.
pub const FOCUS_MARK: char = '>';

/// How a focused child is framed: as a row with a sidebar one cell wide.
pub open spec fn focus_frame() -> Layout {
    Layout::LeftRow { sidebar_width: 1 }
}

/// The room left to a focused child beside its focus mark.
pub open spec fn marked_room(constraint: Size) -> Size {
    focus_frame().room_of(1, 2, constraint)
}

/// What a focused child draws: the focus mark in the sidebar and, beside
/// it, what the child itself draws in the room that is left.
pub open spec fn marked(inner: Seq<Operation>, constraint: Size) -> Seq<Operation> {
    focus_frame().arrange(seq![seq![Operation::PutChar(FOCUS_MARK)], inner], constraint)
}

/// The index of the focused child, if any, as a mathematical integer.
pub open spec fn as_index(focus: Option<usize>) -> Option<int> {
    match focus {
        Some(f) => Some(f as int),
        None => None,
    }
}

/// The largest number of a list, or zero.
pub open spec fn highest(s: Seq<nat>) -> nat
    decreases s.len(),
{
    if s.len() == 0 {
        0
    } else {
        let rest = highest(s.drop_last());
        if rest < s.last() {
            s.last()
        } else {
            rest
        }
    }
}

/// No number of a list is above the highest.
pub proof fn lemma_highest_bounds(s: Seq<nat>, i: int)
    requires
        0 <= i < s.len(),
    ensures
        s[i] <= highest(s),
    decreases s.len(),
{
    if i < s.len() - 1 {
        lemma_highest_bounds(s.drop_last(), i);
    }
}

/// The sum of a list of numbers.
pub open spec fn total(s: Seq<nat>) -> nat
    decreases s.len(),
{
    if s.len() == 0 {
        0
    } else {
        s[0] + total(s.skip(1))
    }
}

/// The sum from some place on is the number there plus the sum of the rest.
pub proof fn lemma_total_step(s: Seq<nat>, i: int)
    requires
        0 <= i < s.len(),
    ensures
        total(s.skip(i)) == s[i] + total(s.skip(i + 1)),
{
    assert(s.skip(i).skip(1) =~= s.skip(i + 1));
}

/// A list of zeros sums to zero.
pub proof fn lemma_total_zero(s: Seq<nat>)
    requires
        forall|i: int| 0 <= i < s.len() ==> s[i] == 0,
    ensures
        total(s) == 0,
    decreases s.len(),
{
    if s.len() > 0 {
        lemma_total_zero(s.skip(1));
    }
}

/// A widget as the contracts see it.
pub struct WidgetView<State> {
    pub id: usize,
    pub state: State,
    pub children: Seq<Widget<State>>,
    pub prev: Option<Widget<State>>,
    pub needs_rebuild: bool,
    pub focus: usize,
    pub on_message: Reaction,
    pub create_element: Producer,
    pub heard: Seq<Message>,
}

impl<State> WidgetView<State> {
    /// Whether the focus is on a child, or at zero where there is none.
    pub open spec fn focus_ok(self) -> bool {
        self.focus < self.children.len() || (self.focus == 0 && self.children.len() == 0)
    }

    /// Whether the widget is of one kind only: one that builds its subtree has
    /// no children of its own, and one that holds children caches no subtree
    /// and is the only kind that keeps a focus among them.
    pub open spec fn one_kind(self) -> bool {
        if self.create_element is Rebuild {
            self.children.len() == 0 && !(self.on_message is Focus)
        } else {
            self.prev is None
        }
    }

    /// Whether the next frame calls the builder: the state was set since the
    /// last build, or nothing has been built yet.
    pub open spec fn rebuilds(self) -> bool {
        self.needs_rebuild || self.prev is None
    }

    /// The widget after its state was set through `f`.
    pub open spec fn with_state_set<M: Mutator<State>>(self, f: M) -> WidgetView<State> {
        WidgetView { state: f.apply(self.state), needs_rebuild: true, ..self }
    }

    /// The widget after it has noted that a message was delivered to it.
    pub open spec fn having_heard(self, msg: Message) -> WidgetView<State> {
        WidgetView { heard: self.heard.push(msg), ..self }
    }

    /// Whether `after` is this widget with, at most, another state, and
    /// marked for a rebuild if it was before or if the state is another.
    pub open spec fn restated(self, after: WidgetView<State>) -> bool {
        &&& after == (WidgetView {
            state: after.state,
            needs_rebuild: after.needs_rebuild,
            ..self
        })
        &&& self.needs_rebuild ==> after.needs_rebuild
    }

    /// Where the focus goes on the key that moves it forward: to the next
    /// child, and from the last child to the first.
    pub open spec fn focus_forward(self) -> int {
        if self.children.len() == 0 {
            0
        } else {
            (self.focus + 1) % (self.children.len() as int)
        }
    }

    /// Where the focus goes on the key that moves it backward: to the child
    /// before, and from the first child to the last.
    pub open spec fn focus_backward(self) -> int {
        if self.children.len() == 0 {
            0
        } else {
            (self.focus + self.children.len() - 1) % (self.children.len() as int)
        }
    }
}

/// The stateful node of the tree. It either builds its subtree from its
/// state on demand and caches it, or holds a list of children.
pub struct Widget<State> {
    id: usize,
    pub state: State,
    children: Vec<Widget<State>>,
    prev: Option<Box<Widget<State>>>,
    needs_rebuild: bool,
    focus: usize,
    on_message: Reaction,
    create_element: Producer,
    heard: Ghost<Seq<Message>>,
}

impl<State> View for Widget<State> {
    type V = WidgetView<State>;

    closed spec fn view(&self) -> WidgetView<State> {
        WidgetView {
            id: self.id,
            state: self.state,
            children: self.children@,
            prev: match self.prev {
                Some(p) => Some(*p),
                None => None,
            },
            needs_rebuild: self.needs_rebuild,
            focus: self.focus,
            on_message: self.on_message,
            create_element: self.create_element,
            heard: self.heard@,
        }
    }
}

impl<State> Widget<State> {
    /// Whether the widget and everything below it is well formed.
    pub open spec fn wf(&self) -> bool
        decreases self,
    {
        &&& self@.focus_ok()
        &&& self@.one_kind()
        &&& forall|i: int| 0 <= i < self@.children.len() ==> (#[trigger] self@.children[i]).wf()
        &&& self@.prev matches Some(p) ==> p.wf()
    }

    /// Whether the next frame of this widget reports a rebuild.
    pub open spec fn dirty(&self) -> bool
        decreases self,
    {
        match self@.create_element {
            Producer::Char(_) => false,
            Producer::Line(_) => false,
            Producer::Gather(_) => exists|i: int|
                0 <= i < self@.children.len() && (#[trigger] self@.children[i]).dirty(),
            Producer::Focus(_) => exists|i: int|
                0 <= i < self@.children.len() && (#[trigger] self@.children[i]).dirty(),
            Producer::Rebuild => self@.needs_rebuild || self@.prev is None || self@.prev->0.dirty(),
        }
    }

    /// What each child draws in the room that the layout gives it, where
    /// `blueprint` says what a state builds and the child at `focus`, if
    /// any, is drawn as the focused one.
    pub open spec fn child_pieces_with(
        &self,
        blueprint: spec_fn(State, Size) -> Seq<Operation>,
        layout: Layout,
        focus: Option<int>,
        constraint: Size,
    ) -> Seq<Seq<Operation>>
        decreases self, 0int,
    {
        Seq::new(
            self@.children.len(),
            |i: int|
                if 0 <= i < self@.children.len() {
                    let room = layout.room_of(i, self@.children.len() as int, constraint);
                    if focus == Some(i) {
                        marked(self@.children[i].paints_with(blueprint, marked_room(room)), room)
                    } else {
                        self@.children[i].paints_with(blueprint, room)
                    }
                } else {
                    Seq::empty()
                },
        )
    }

    /// What the element of the next frame draws, where `blueprint` says what
    /// a state builds.
    pub open spec fn paints_with(
        &self,
        blueprint: spec_fn(State, Size) -> Seq<Operation>,
        constraint: Size,
    ) -> Seq<Operation>
        decreases self, 1int,
    {
        match self@.create_element {
            Producer::Char(c) => seq![Operation::PutChar(c)],
            Producer::Line(s) => seq![Operation::PutString(s)],
            Producer::Gather(layout) => layout.arrange(
                self.child_pieces_with(blueprint, layout, None, constraint),
                constraint,
            ),
            Producer::Focus(layout) => layout.arrange(
                self.child_pieces_with(blueprint, layout, Some(self@.focus as int), constraint),
                constraint,
            ),
            Producer::Rebuild => if self@.rebuilds() {
                blueprint(self@.state, constraint)
            } else {
                self@.prev->0.paints_with(blueprint, constraint)
            },
        }
    }

    /// What each child's next frame takes, where `cost` says what building
    /// from a state takes.
    pub open spec fn child_appetites_with(&self, cost: spec_fn(State) -> nat) -> Seq<nat>
        decreases self, 0int,
    {
        Seq::new(
            self@.children.len(),
            |i: int|
                if 0 <= i < self@.children.len() {
                    self@.children[i].appetite_with(cost)
                } else {
                    0nat
                },
        )
    }

    /// How many identities the next frame of this widget takes at most,
    /// where `cost` says what building from a state takes: nothing for a
    /// leaf, the sum over the children for a widget that holds children,
    /// and for a widget that builds its subtree the cost of its state if it
    /// rebuilds, else what the cached subtree takes.
    pub open spec fn appetite_with(&self, cost: spec_fn(State) -> nat) -> nat
        decreases self, 1int,
    {
        match self@.create_element {
            Producer::Char(_) => 0,
            Producer::Line(_) => 0,
            Producer::Gather(_) => total(self.child_appetites_with(cost)),
            Producer::Focus(_) => total(self.child_appetites_with(cost)),
            Producer::Rebuild => if self@.rebuilds() {
                cost(self@.state)
            } else {
                self@.prev->0.appetite_with(cost)
            },
        }
    }

    /// What a request to append takes below each child.
    pub open spec fn child_needs_with(&self, cost: spec_fn(State) -> nat) -> Seq<nat>
        decreases self, 0int,
    {
        Seq::new(
            self@.children.len(),
            |i: int|
                if 0 <= i < self@.children.len() {
                    self@.children[i].need_with(cost)
                } else {
                    0nat
                },
        )
    }

    /// How many identities a request to append takes at most when it is
    /// delivered to this widget, where `cost` says what building from a
    /// state takes: a focus-aware container builds one child from its state;
    /// other widgets take what the widgets take that they hand the request
    /// to.
    pub open spec fn need_with(&self, cost: spec_fn(State) -> nat) -> nat
        decreases self, 1int,
    {
        match self@.on_message {
            Reaction::Ignore => 0,
            Reaction::Handle => 0,
            Reaction::Propagate => total(self.child_needs_with(cost)),
            Reaction::HandleThenPropagate => total(self.child_needs_with(cost)),
            Reaction::Route => match self@.prev {
                Some(p) => p.need_with(cost),
                None => 0,
            },
            Reaction::Poll => match self@.prev {
                Some(p) => p.need_with(cost),
                None => 0,
            },
            Reaction::Focus => cost(self@.state),
        }
    }

    /// Whether `other` is this widget, unchanged all the way down.
    pub open spec fn same(&self, other: &Widget<State>) -> bool
        decreases self,
    {
        &&& other@ == (WidgetView { children: other@.children, prev: other@.prev, ..self@ })
        &&& other@.children.len() == self@.children.len()
        &&& forall|i: int|
            0 <= i < self@.children.len() ==> self@.children[i].same(#[trigger] &other@.children[i])
        &&& match self@.prev {
            Some(p) => other@.prev is Some && p.same(&other@.prev->0),
            None => other@.prev is None,
        }
    }

    /// A widget is the same as itself.
    pub proof fn lemma_same_reflexive(&self)
        ensures
            self.same(self),
        decreases self,
    {
        assert forall|i: int| 0 <= i < self@.children.len() implies self@.children[i].same(
            #[trigger] &self@.children[i],
        ) by {
            self@.children[i].lemma_same_reflexive();
        }
        if self@.prev is Some {
            self@.prev->0.lemma_same_reflexive();
        }
    }

    /// One more than the depth of each child, where `rank` bounds the depth of
    /// what a state builds.
    pub open spec fn child_depths_with(&self, rank: spec_fn(State) -> nat) -> Seq<nat>
        decreases self, 0int,
    {
        Seq::new(
            self@.children.len(),
            |i: int|
                if 0 <= i < self@.children.len() {
                    self@.children[i].depth_with(rank) + 1
                } else {
                    0nat
                },
        )
    }

    /// How deep the frames of this widget can nest, where `rank` bounds the
    /// depth of what a state builds: one more than the deepest of its
    /// children, of its cached subtree, and of what its state can build.
    pub open spec fn depth_with(&self, rank: spec_fn(State) -> nat) -> nat
        decreases self, 1int,
    {
        let own: nat = if self@.create_element is Rebuild {
            rank(self@.state) + 1
        } else {
            0
        };
        let cached: nat = match self@.prev {
            Some(p) => p.depth_with(rank) + 1,
            None => 0,
        };
        let below = highest(self.child_depths_with(rank));
        if own >= cached && own >= below {
            own
        } else if cached >= below {
            cached
        } else {
            below
        }
    }
}

/// The behaviour that a type of state gives to the widgets that hold it:
/// what they build from it, and what they do with a message.
pub trait Stateful: Sized {
    /// What the subtree built from this state draws. Nothing, unless the
    /// state says otherwise.
    open spec fn blueprint(&self, constraint: Size) -> Seq<Operation> {
        Seq::empty()
    }

    /// A bound on how deep the frames of the subtree built from this state
    /// nest. What a state builds must stay below the state's own rank, so
    /// that producing a frame comes to an end. One, unless the state says
    /// otherwise: enough for a state that builds widgets without a builder.
    open spec fn rank(&self) -> nat {
        1
    }

    /// What the handler decides about a message. To propagate, unless the
    /// state says otherwise.
    open spec fn flow(&self, msg: Message) -> MessageFlow {
        MessageFlow::Propagate
    }

    /// The state that the handler leaves when it is handed a message. The
    /// state as it was, unless the state says otherwise.
    open spec fn next(&self, msg: Message) -> Self {
        *self
    }

    /// Whether the handler sets the state when it is handed a message, and
    /// so marks the widget for a rebuild. It does not, unless the state says
    /// otherwise.
    open spec fn touches(&self, msg: Message) -> bool {
        false
    }

    /// How many identities it takes at most to build the subtree from this
    /// state and to produce the first frame of what was built. One, unless
    /// the state says otherwise: enough for a state that builds one leaf.
    open spec fn cost(&self) -> nat {
        1
    }

    /// Builds a fresh subtree from the state. The source of identities must
    /// have room for what the state says it costs.
    fn build(&self, ids: &mut IdSource) -> (built: Widget<Self>)
        requires
            old(ids).has_room(self.cost()),
        ensures
            built.wf(),
            final(ids).issued() + built.appetite_with(|s: Self| s.cost()) <= old(ids).issued()
                + self.cost(),
            built.depth_with(|s: Self| s.rank()) <= self.rank(),
            forall|c: Size|
                built.paints_with(|s: Self, c2: Size| s.blueprint(c2), c)
                    == #[trigger] self.blueprint(c),
            old(ids).precedes(final(ids)),
    ;

    /// Handles a message for the widget that holds this state. The handler
    /// may set the state, through `set_state`; nothing else of the widget
    /// changes, and the state changes in no other way.
    fn handle(this: &mut Widget<Self>, msg: &Message) -> (flow: MessageFlow)
        requires
            old(this).wf(),
        ensures
            flow == old(this)@.state.flow(*msg),
            final(this)@ == (WidgetView {
                state: old(this)@.state.next(*msg),
                needs_rebuild: old(this)@.needs_rebuild || old(this)@.state.touches(*msg),
                ..old(this)@
            }),
            final(this)@.state == old(this)@.state || final(this)@.needs_rebuild,
    ;

    /// Whether a look for news can leave the state as `after` and report
    /// `changed`. Here a state says what the background work that it holds
    /// can do to it between two looks. Unless the state says otherwise, it
    /// holds no such work: a look leaves it as it is and reports nothing.
    open spec fn finds(&self, after: Self, changed: bool) -> bool {
        after == *self && !changed
    }

    /// Looks, without blocking, for news from background work that the state
    /// holds, and says whether there was any.
    fn check(&mut self) -> (changed: bool)
        ensures
            old(self).finds(*final(self), changed),
    ;
}

impl<State> Widget<State> {
    /// The widget's state.
    pub fn state(&self) -> (state: &State)
        ensures
            *state == self@.state,
    {
        &self.state
    }

    /// The widget's identity.
    #[inline]
    pub fn id(&self) -> (id: usize)
        ensures
            id == self@.id,
    {
        self.id
    }

    /// The index of the child that has the focus.
    pub fn focus_index(&self) -> (index: usize)
        ensures
            index == self@.focus,
    {
        self.focus
    }

    /// The number of children.
    pub fn child_count(&self) -> (count: usize)
        ensures
            count == self@.children.len(),
    {
        self.children.len()
    }

    /// Whether the state was set since the subtree was last built.
    pub fn needs_rebuild(&self) -> (stale: bool)
        ensures
            stale == self@.needs_rebuild,
    {
        self.needs_rebuild
    }

    /// A widget that builds its subtree from its state. The subtree is built
    /// at the first frame, and again at the first frame after each
    /// `set_state`. A message goes to the state's handler first and, if the
    /// handler says to propagate, on to the cached subtree.
    pub fn stateful(ids: &mut IdSource, state: State) -> (r: Component<State>)
        requires
            !old(ids).exhausted(),
        ensures
            old(ids).issues(r@.id, final(ids)),
            r@ == (WidgetView {
                id: r@.id,
                state,
                children: Seq::empty(),
                prev: None,
                needs_rebuild: true,
                focus: 0,
                on_message: Reaction::Route,
                create_element: Producer::Rebuild,
                heard: Seq::empty(),
            }),
            r.wf(),
    {
        Widget {
            id: uid(ids),
            state: state,
            children: Vec::new(),
            prev: None,
            needs_rebuild: true,
            focus: 0,
            on_message: Reaction::Route,
            create_element: Producer::Rebuild,
            heard: Ghost(Seq::empty()),
        }
    }

    /// A widget with a fixed list of children, which are never rebuilt, and
    /// with the reaction and the producer that the caller chooses. A
    /// producer that rebuilds goes with no children and no focus.
    pub fn elemental(
        ids: &mut IdSource,
        state: State,
        children: Children<State>,
        on_message: Reaction,
        create_element: Producer,
    ) -> (r: Component<State>)
        requires
            !old(ids).exhausted(),
            forall|i: int| 0 <= i < children@.len() ==> (#[trigger] children@[i]).wf(),
            create_element is Rebuild ==> children@.len() == 0 && !(on_message is Focus),
        ensures
            old(ids).issues(r@.id, final(ids)),
            r@ == (WidgetView {
                id: r@.id,
                state,
                children: children@,
                prev: None,
                needs_rebuild: true,
                focus: 0,
                on_message,
                create_element,
                heard: Seq::empty(),
            }),
            r.wf(),
    {
        Widget {
            id: uid(ids),
            state: state,
            children: children,
            prev: None,
            needs_rebuild: true,
            focus: 0,
            on_message: on_message,
            create_element: create_element,
            heard: Ghost(Seq::empty()),
        }
    }

    /// A focus-aware container: a widget that keeps a focus among its
    /// children, starting at the first. It hands messages to the focused
    /// child only, and draws that child with the focus mark.
    pub fn containerlike(
        ids: &mut IdSource,
        state: State,
        children: Children<State>,
        layout: Layout,
    ) -> (r: Component<State>)
        requires
            !old(ids).exhausted(),
            forall|i: int| 0 <= i < children@.len() ==> (#[trigger] children@[i]).wf(),
        ensures
            old(ids).issues(r@.id, final(ids)),
            r@ == (WidgetView {
                id: r@.id,
                state,
                children: children@,
                prev: None,
                needs_rebuild: true,
                focus: 0,
                on_message: Reaction::Focus,
                create_element: Producer::Focus(layout),
                heard: Seq::empty(),
            }),
            r.wf(),
    {
        Widget::elemental(ids, state, children, Reaction::Focus, Producer::Focus(layout))
    }

    /// A widget whose state holds a unit of background work, started here
    /// on the runtime. It builds its subtree from the state as `stateful`
    /// does; on every tick it first looks whether the work has completed
    /// and, if it just has, marks itself for a rebuild.
    pub fn future<T, F>(ids: &mut IdSource, rt: &Handle, task: F) -> (r: Component<State>) where
        F: Future<Output = T> + Send + 'static,
        T: Send + 'static,
        State: From<Task<T>>,

        requires
            !old(ids).exhausted(),
        ensures
            old(ids).issues(r@.id, final(ids)),
            exists|work: Task<T>|
                {
                    &&& work@ is Running
                    &&& work.attached()
                    &&& #[trigger] call_ensures(State::from, (work,), r@.state)
                },
            r@ == (WidgetView {
                id: r@.id,
                state: r@.state,
                children: Seq::empty(),
                prev: None,
                needs_rebuild: true,
                focus: 0,
                on_message: Reaction::Poll,
                create_element: Producer::Rebuild,
                heard: Seq::empty(),
            }),
            r.wf(),
    {
        Widget {
            id: uid(ids),
            state: State::from(Task::spawn(rt, task)),
            children: Vec::new(),
            prev: None,
            needs_rebuild: true,
            focus: 0,
            on_message: Reaction::Poll,
            create_element: Producer::Rebuild,
            heard: Ghost(Seq::empty()),
        }
    }

    /// A widget whose state holds a stream: a unit of background work,
    /// started here on the runtime, that sends values through the channel
    /// end handed to the generator. It builds its subtree from the state as
    /// `stateful` does; on every tick it first looks for new values and for
    /// the completion of the work and, if there was news, marks itself for a
    /// rebuild.
    pub fn stream<T, TaskRet, F, G>(ids: &mut IdSource, rt: &Handle, generator: G) -> (r: Component<
        State,
    >) where
        G: FnOnce(UnboundedSender<T>) -> F,
        F: Future<Output = TaskRet> + Send + 'static,
        TaskRet: Send + 'static,
        State: From<Stream<T, TaskRet>>,

        requires
            !old(ids).exhausted(),
            forall|sender: UnboundedSender<T>| call_requires(generator, (sender,)),
        ensures
            old(ids).issues(r@.id, final(ids)),
            exists|feed: Stream<T, TaskRet>|
                {
                    &&& feed@ == (StreamView::<T, TaskRet> {
                        task: TaskState::Running,
                        current: None,
                    })
                    &&& feed.attached()
                    &&& #[trigger] call_ensures(State::from, (feed,), r@.state)
                },
            exists|sender: UnboundedSender<T>, work: F| #[trigger]
                call_ensures(generator, (sender,), work),
            r@ == (WidgetView {
                id: r@.id,
                state: r@.state,
                children: Seq::empty(),
                prev: None,
                needs_rebuild: true,
                focus: 0,
                on_message: Reaction::Poll,
                create_element: Producer::Rebuild,
                heard: Seq::empty(),
            }),
            r.wf(),
    {
        Widget {
            id: uid(ids),
            state: State::from(Stream::open(rt, generator)),
            children: Vec::new(),
            prev: None,
            needs_rebuild: true,
            focus: 0,
            on_message: Reaction::Poll,
            create_element: Producer::Rebuild,
            heard: Ghost(Seq::empty()),
        }
    }

    /// Changes the state through `f` and marks the widget as needing a
    /// rebuild, whatever the change was.
    #[inline]
    pub fn set_state<M: Mutator<State>>(&mut self, f: M)
        ensures
            final(self)@ == old(self)@.with_state_set(f),
            old(self).wf() ==> final(self).wf(),
    {
        f.mutate(&mut self.state);
        self.needs_rebuild = true;
    }

    /// Two widgets that took their identities from one source, one after
    /// the other, differ in identity.
    pub proof fn lemma_identities_differ(
        &self,
        later: &Widget<State>,
        before_self: IdSource,
        after_self: IdSource,
        before_later: IdSource,
        after_later: IdSource,
    )
        requires
            before_self.issues(self@.id, &after_self),
            after_self.precedes(&before_later),
            before_later.issues(later@.id, &after_later),
        ensures
            self@.id < later@.id,
            self@.id != later@.id,
    {
    }

    /// A child is less deep than its parent.
    pub proof fn lemma_child_depth(&self, rank: spec_fn(State) -> nat, i: int)
        requires
            0 <= i < self@.children.len(),
        ensures
            self@.children[i].depth_with(rank) < self.depth_with(rank),
    {
        lemma_highest_bounds(self.child_depths_with(rank), i);
    }

    /// The cached subtree is less deep than the widget that caches it, and
    /// so is whatever the state of a rebuilding widget can build.
    pub proof fn lemma_prev_depth(&self, rank: spec_fn(State) -> nat)
        ensures
            self@.prev is Some ==> self@.prev->0.depth_with(rank) < self.depth_with(rank),
            self@.create_element is Rebuild ==> rank(self@.state) < self.depth_with(rank),
    {
    }
}

impl<State> Widget<State> {
    /// How deep the tree below this widget is, whatever its states hold.
    pub open spec fn span(&self) -> nat {
        self.depth_with(|s: State| 0nat)
    }
}

impl<State: Stateful> WidgetView<State> {
    /// Whether `after` is this widget once its state has looked for news and
    /// reported `changed`: the state is what the look left, the widget is
    /// marked for a rebuild if it was before or if there was news, and
    /// nothing else is another.
    pub open spec fn looked(self, after: WidgetView<State>, changed: bool) -> bool {
        &&& self.state.finds(after.state, changed)
        &&& after == (WidgetView {
            state: after.state,
            needs_rebuild: self.needs_rebuild || changed,
            ..self
        })
    }

    /// The widget after the handler of its state was handed the message:
    /// the state is what the handler leaves, and the widget is marked for a
    /// rebuild if it was before or if the handler set the state.
    pub open spec fn handled(self, msg: Message) -> WidgetView<State> {
        WidgetView {
            state: self.state.next(msg),
            needs_rebuild: self.needs_rebuild || self.state.touches(msg),
            ..self
        }
    }
}

impl<State: Stateful> Widget<State> {
    /// What the element of the next frame draws in the given room.
    pub open spec fn paints(&self, constraint: Size) -> Seq<Operation> {
        self.paints_with(|s: State, c: Size| s.blueprint(c), constraint)
    }

    /// What each child draws in the room that the layout gives it, the
    /// child at `focus`, if any, as the focused one.
    pub open spec fn child_pieces(
        &self,
        layout: Layout,
        focus: Option<int>,
        constraint: Size,
    ) -> Seq<Seq<Operation>> {
        self.child_pieces_with(|s: State, c: Size| s.blueprint(c), layout, focus, constraint)
    }

    /// How deep the frames of this widget can nest.
    pub open spec fn depth(&self) -> nat {
        self.depth_with(|s: State| s.rank())
    }

    /// How many identities the next frame of this widget takes at most.
    pub open spec fn appetite(&self) -> nat {
        self.appetite_with(|s: State| s.cost())
    }

    /// What each child's next frame takes at most, in order.
    pub open spec fn child_appetites(&self) -> Seq<nat> {
        self.child_appetites_with(|s: State| s.cost())
    }

    /// How many identities delivering the message to this widget takes at
    /// most: what a request to append takes, and nothing for any other
    /// message.
    pub open spec fn wants(&self, msg: Message) -> nat {
        if msg == Message::Control(Control::Append) {
            self.need_with(|s: State| s.cost())
        } else {
            0
        }
    }

    /// What delivering the message to the cached subtree takes at most;
    /// nothing where none is cached.
    pub open spec fn cached_wants(&self, msg: Message) -> nat {
        match self@.prev {
            Some(p) => p.wants(msg),
            None => 0,
        }
    }

    /// What delivering the message to each child takes at most, in order.
    pub open spec fn child_wants(&self, msg: Message) -> Seq<nat> {
        if msg == Message::Control(Control::Append) {
            self.child_needs_with(|s: State| s.cost())
        } else {
            Seq::new(self@.children.len(), |i: int| 0nat)
        }
    }

    /// A widget that reports no rebuild takes no identity for its frame.
    pub proof fn lemma_clean_takes_nothing(&self)
        requires
            !self.dirty(),
            self.wf(),
        ensures
            self.appetite() == 0,
        decreases self,
    {
        let cost = |s: State| s.cost();
        match self@.create_element {
            Producer::Char(_) => {},
            Producer::Line(_) => {},
            Producer::Rebuild => {
                self@.prev->0.lemma_clean_takes_nothing();
            },
            _ => {
                let apps = self.child_appetites_with(cost);
                assert forall|i: int| 0 <= i < apps.len() implies apps[i] == 0 by {
                    self@.children[i].lemma_clean_takes_nothing();
                }
                lemma_total_zero(apps);
            },
        }
    }

    /// Whether `after` is this widget, as `from` shows it, once every child,
    /// and nothing else, was handed the message and has reacted to it.
    pub open spec fn propagates(
        &self,
        from: WidgetView<State>,
        msg: Message,
        after: &Widget<State>,
    ) -> bool
        decreases self, 0int,
    {
        &&& after@ == (WidgetView { children: after@.children, ..from })
        &&& after@.children.len() == self@.children.len()
        &&& forall|i: int|
            0 <= i < self@.children.len() ==> {
                &&& self@.children[i].reacts(msg, #[trigger] &after@.children[i])
                &&& after@.children[i]@.heard == self@.children[i]@.heard.push(msg)
                &&& after@.children[i]@.id == self@.children[i]@.id
            }
    }

    /// Whether `after` is this widget once the handler of its state, run on
    /// the widget as `from` shows it, has seen the message and the message
    /// was routed as the handler decided: on to the cached subtree, exactly
    /// once, if the handler said to propagate and a subtree is cached;
    /// nowhere if it said to intercept.
    pub open spec fn routes(
        &self,
        from: WidgetView<State>,
        msg: Message,
        after: &Widget<State>,
    ) -> bool
        decreases self, 0int,
    {
        &&& after@ == (WidgetView { prev: after@.prev, ..from.handled(msg) })
        &&& if from.state.flow(msg) is Propagate && self@.prev is Some {
            &&& after@.prev is Some
            &&& self@.prev->0.reacts(msg, &after@.prev->0)
            &&& after@.prev->0@.heard == self@.prev->0@.heard.push(msg)
            &&& after@.prev->0@.id == self@.prev->0@.id
        } else {
            after@.prev == self@.prev
        }
    }

    /// Whether `after` is this focus-aware container, as `heard` shows it,
    /// once it has dealt with the message: it appends a child built from its
    /// state on request, moves the focus on the focus keys, and hands any
    /// other message to the focused child alone.
    pub open spec fn refocuses(
        &self,
        heard: WidgetView<State>,
        msg: Message,
        after: &Widget<State>,
    ) -> bool
        decreases self, 0int,
    {
        match msg {
            Message::Control(Control::Append) => {
                &&& after@ == (WidgetView { children: after@.children, ..heard })
                &&& after@.children.len() == self@.children.len() + 1
                &&& after@.children.subrange(0, self@.children.len() as int) == self@.children
                &&& after@.children.last().wf()
                &&& forall|c: Size|
                    after@.children.last().paints(c) == #[trigger] self@.state.blueprint(c)
            },
            Message::Key(Key::Tab) => after@ == (WidgetView {
                focus: heard.focus_forward() as usize,
                ..heard
            }),
            Message::Key(Key::BackTab) => after@ == (WidgetView {
                focus: heard.focus_backward() as usize,
                ..heard
            }),
            _ => {
                &&& after@ == (WidgetView { children: after@.children, ..heard })
                &&& after@.children.len() == self@.children.len()
                &&& forall|i: int|
                    0 <= i < self@.children.len() && i != self@.focus ==> {
                        #[trigger] after@.children[i] == self@.children[i]
                    }
                &&& self@.focus < self@.children.len() ==> {
                    &&& self@.children[self@.focus as int].reacts(
                        msg,
                        &after@.children[self@.focus as int],
                    )
                    &&& after@.children[self@.focus as int]@.heard
                        == self@.children[self@.focus as int]@.heard.push(msg)
                    &&& after@.children[self@.focus as int]@.id
                        == self@.children[self@.focus as int]@.id
                }
            },
        }
    }

    /// Whether `after` is this widget once the message was delivered to it:
    /// the widget has noted the message and has reacted to it in its way.
    pub open spec fn reacts(&self, msg: Message, after: &Widget<State>) -> bool
        decreases self, 1int,
    {
        let heard = self@.having_heard(msg);
        match self@.on_message {
            Reaction::Ignore => after@ == heard,
            Reaction::Propagate => self.propagates(heard, msg, after),
            Reaction::Handle => after@ == heard.handled(msg),
            Reaction::HandleThenPropagate => self.propagates(heard.handled(msg), msg, after),
            Reaction::Route => self.routes(heard, msg, after),
            Reaction::Poll => exists|polled: WidgetView<State>|
                {
                    &&& #[trigger] heard.restated(polled)
                    &&& if msg is Tick {
                        exists|changed: bool| #[trigger] heard.looked(polled, changed)
                    } else {
                        polled == heard
                    }
                    &&& self.routes(polled, msg, after)
                },
            Reaction::Focus => self.refocuses(heard, msg, after),
        }
    }

    /// Elements that draw what the children draw, the child at `focus` as
    /// the focused one, give the layout the pieces that the children give.
    pub proof fn lemma_pieces_of_elements(
        &self,
        elements: Seq<Element>,
        layout: Layout,
        focus: Option<int>,
        constraint: Size,
    )
        requires
            elements.len() == self@.children.len(),
            forall|i: int, c: Size|
                0 <= i < elements.len() ==> #[trigger] elements[i].ops(c) == if focus == Some(i) {
                    marked(self@.children[i].paints(marked_room(c)), c)
                } else {
                    self@.children[i].paints(c)
                },
        ensures
            pieces(elements, layout, constraint) == self.child_pieces(layout, focus, constraint),
    {
        let a = pieces(elements, layout, constraint);
        let b = self.child_pieces(layout, focus, constraint);
        let n = elements.len() as int;
        assert forall|i: int| 0 <= i < n implies a[i] == b[i] by {
            let room = layout.room_of(i, n, constraint);
            assert(a[i] == elements[i].ops(room));
        }
    }

    /// Two widgets whose children draw the same give a layout the same
    /// pieces.
    pub proof fn lemma_pieces_of_children(
        &self,
        other: &Widget<State>,
        layout: Layout,
        focus: Option<int>,
        constraint: Size,
    )
        requires
            other@.children.len() == self@.children.len(),
            forall|i: int, c: Size|
                0 <= i < self@.children.len() ==> #[trigger] self@.children[i].paints(c)
                    == other@.children[i].paints(c),
        ensures
            self.child_pieces(layout, focus, constraint) == other.child_pieces(
                layout,
                focus,
                constraint,
            ),
    {
        let a = self.child_pieces(layout, focus, constraint);
        let b = other.child_pieces(layout, focus, constraint);
        let n = self@.children.len() as int;
        assert forall|i: int| 0 <= i < n implies a[i] == b[i] by {
            let room = layout.room_of(i, n, constraint);
            assert(self@.children[i].paints(room) == other@.children[i].paints(room));
            assert(self@.children[i].paints(marked_room(room)) == other@.children[i].paints(
                marked_room(room),
            ));
        }
    }

    /// A message whose handler says to propagate reaches the cached subtree
    /// exactly once: the subtree has heard that one message more. A message
    /// whose handler says to intercept reaches nobody: the subtree, if there
    /// is one, is what it was.
    pub proof fn lemma_routed_once_or_never(
        &self,
        from: WidgetView<State>,
        msg: Message,
        after: &Widget<State>,
    )
        requires
            self.routes(from, msg, after),
        ensures
            from.state.flow(msg) is Propagate && self@.prev is Some ==> {
                &&& after@.prev is Some
                &&& after@.prev->0@.heard == self@.prev->0@.heard.push(msg)
                &&& after@.prev->0@.heard.len() == self@.prev->0@.heard.len() + 1
            },
            from.state.flow(msg) is Intercept ==> after@.prev == self@.prev,
            self@.prev is None ==> after@.prev is None,
    {
    }

    /// Setting the state makes the next frame of a widget that builds its
    /// subtree report a rebuild, whatever the change was and whatever the
    /// widget held before.
    pub proof fn lemma_set_state_forces_rebuild<M: Mutator<State>>(
        &self,
        after: &Widget<State>,
        f: M,
    )
        requires
            self@.create_element is Rebuild,
            after@ == self@.with_state_set(f),
        ensures
            after.dirty(),
            forall|c: Size| #[trigger] after.paints(c) == after@.state.blueprint(c),
    {
    }

    /// Makes sure the cached subtree is the one built from the current
    /// state, and returns whether it had to be built. It is built when the
    /// state was set since the last build, or when none is cached; the
    /// subtree that was cached before is dropped. Only a widget that
    /// produces its element by rebuilding has a subtree to build, and the
    /// source of identities must have room for what the frame takes.
    pub fn _build(&mut self, ids: &mut IdSource) -> (did_rebuild: bool)
        requires
            old(self).wf(),
            old(self)@.create_element is Rebuild,
            old(ids).has_room(old(self).appetite()),
        ensures
            final(ids).issued() + final(self)@.prev->0.appetite() <= old(ids).issued() + old(
                self,
            ).appetite(),
            !did_rebuild ==> final(ids).issued() == old(ids).issued(),
            did_rebuild == old(self)@.rebuilds(),
            !did_rebuild ==> final(self)@ == old(self)@,
            did_rebuild ==> forall|c: Size| #[trigger]
                final(self)@.prev->0.paints(c) == old(self)@.state.blueprint(c),
            did_rebuild ==> final(self)@.prev->0.depth() <= old(self)@.state.rank(),
            final(self)@ == (WidgetView {
                prev: final(self)@.prev,
                needs_rebuild: false,
                ..old(self)@
            }),
            final(self)@.prev is Some,
            final(self).wf(),
            old(ids).precedes(final(ids)),
    {
        if !self.needs_rebuild && self.prev.is_some() {
            false
        } else {
            let new_widget = self.state.build(ids);
            self.prev = Some(Box::new(new_widget));
            self.needs_rebuild = false;
            true
        }
    }

    /// Produces the element of the next frame, rebuilding below what needs
    /// it, and reports whether anything was rebuilt. Right after a frame
    /// nothing needs a rebuild, and the next frame would draw the same. The
    /// children and a cached subtree that is not rebuilt keep their
    /// identities; a widget that reports no rebuild is left as it was, all
    /// the way down. The source of identities must have room for what the
    /// frame takes.
    #[inline]
    pub fn create_element(&mut self, ids: &mut IdSource) -> (r: (bool, Element))
        requires
            old(self).wf(),
            old(ids).has_room(old(self).appetite()),
        ensures
            final(ids).issued() <= old(ids).issued() + old(self).appetite(),
            !old(self).dirty() ==> old(self).same(final(self)),
            !old(self).dirty() ==> final(ids).issued() == old(ids).issued(),
            forall|i: int|
                0 <= i < old(self)@.children.len() ==> (#[trigger] final(self)@.children[i])@.id
                    == old(self)@.children[i]@.id,
            !(old(self)@.create_element is Rebuild) ==> final(self)@.prev == old(self)@.prev,
            old(self)@.create_element is Rebuild && !old(self)@.rebuilds() ==> {
                &&& final(self)@.prev is Some
                &&& final(self)@.prev->0@.id == old(self)@.prev->0@.id
            },
            r.0 == old(self).dirty(),
            forall|c: Size| #[trigger] r.1.ops(c) == old(self).paints(c),
            !final(self).dirty(),
            forall|c: Size| #[trigger] final(self).paints(c) == old(self).paints(c),
            final(self)@ == (WidgetView {
                children: final(self)@.children,
                prev: final(self)@.prev,
                needs_rebuild: old(self)@.needs_rebuild && !(old(self)@.create_element is Rebuild),
                ..old(self)@
            }),
            final(self)@.children.len() == old(self)@.children.len(),
            final(self).wf(),
            old(ids).precedes(final(ids)),
        decreases old(self).depth(), 2nat,
    {
        proof {
            self.lemma_same_reflexive();
            if !self.dirty() {
                self.lemma_clean_takes_nothing();
            }
        }
        match &self.create_element {
            Producer::Char(c) => (false, Element::Char(CharElement { c: *c })),
            Producer::Line(s) => (false, Element::String(StringElement { s: s.clone() })),
            Producer::Gather(layout) => {
                let layout = *layout;
                let r = statelessly_childfully_create_element(self, layout, ids);
                proof {
                    assert forall|c: Size| #[trigger] self.paints(c) == old(self).paints(c) by {
                        assert(self.child_pieces(layout, None, c) == old(self).child_pieces(
                            layout,
                            None,
                            c,
                        ));
                    }
                }
                r
            },
            Producer::Focus(layout) => {
                let layout = *layout;
                let focus = self.focus;
                let (did_rebuild, elements) = gather(self, Some(focus), ids);
                let element = layout.assemble(elements);
                proof {
                    let mark = Some(focus as int);
                    assert forall|c: Size| #[trigger] element.ops(c) == old(self).paints(c) by {
                        old(self).lemma_pieces_of_elements(elements@, layout, mark, c);
                    }
                    assert forall|c: Size| #[trigger] self.paints(c) == old(self).paints(c) by {
                        self.lemma_pieces_of_children(old(self), layout, mark, c);
                    }
                }
                (did_rebuild, element)
            },
            Producer::Rebuild => statefully_childlessly_create_element(self, ids),
        }
    }

    /// Produces the element of the next frame as the child that has the
    /// focus: the widget's own element, with the focus mark beside it.
    pub fn create_focused_element(&mut self, ids: &mut IdSource) -> (r: (bool, Element))
        requires
            old(self).wf(),
            old(ids).has_room(old(self).appetite()),
        ensures
            final(ids).issued() <= old(ids).issued() + old(self).appetite(),
            !old(self).dirty() ==> old(self).same(final(self)),
            !old(self).dirty() ==> final(ids).issued() == old(ids).issued(),
            forall|i: int|
                0 <= i < old(self)@.children.len() ==> (#[trigger] final(self)@.children[i])@.id
                    == old(self)@.children[i]@.id,
            !(old(self)@.create_element is Rebuild) ==> final(self)@.prev == old(self)@.prev,
            old(self)@.create_element is Rebuild && !old(self)@.rebuilds() ==> {
                &&& final(self)@.prev is Some
                &&& final(self)@.prev->0@.id == old(self)@.prev->0@.id
            },
            r.0 == old(self).dirty(),
            forall|c: Size| #[trigger]
                r.1.ops(c) == marked(old(self).paints(marked_room(c)), c),
            !final(self).dirty(),
            forall|c: Size| #[trigger] final(self).paints(c) == old(self).paints(c),
            final(self)@ == (WidgetView {
                children: final(self)@.children,
                prev: final(self)@.prev,
                needs_rebuild: old(self)@.needs_rebuild && !(old(self)@.create_element is Rebuild),
                ..old(self)@
            }),
            final(self)@.children.len() == old(self)@.children.len(),
            final(self).wf(),
            old(ids).precedes(final(ids)),
        decreases old(self).depth(), 3nat,
    {
        let (did_rebuild, element) = self.create_element(ids);
        let mut children: Vec<Element> = Vec::new();
        children.push(Element::Char(CharElement { c: FOCUS_MARK }));
        children.push(element);
        let framed = Element::LeftRow(LeftRowElement { children, sidebar_width: 1 });
        proof {
            assert forall|c: Size| #[trigger] framed.ops(c) == marked(
                old(self).paints(marked_room(c)),
                c,
            ) by {
                let a = pieces(children@, focus_frame(), c);
                let mark = seq![Operation::PutChar(FOCUS_MARK)];
                let b = seq![mark, old(self).paints(marked_room(c))];
                assert(a[1] == children@[1].ops(focus_frame().room_of(1, 2, c)));
                assert(a =~= b);
            }
        }
        (did_rebuild, framed)
    }
}

/// Produces the element of a widget that builds its subtree: the element of
/// the subtree, which is first rebuilt from the state if the state was set
/// since the last build or nothing was built yet. A rebuild is always
/// reported; without one, the report of the cached subtree is passed on.
pub fn statefully_childlessly_create_element<State: Stateful>(
    this: &mut Widget<State>,
    ids: &mut IdSource,
) -> (r: (bool, Element))
    requires
        old(this).wf(),
        old(this)@.create_element is Rebuild,
        old(ids).has_room(old(this).appetite()),
    ensures
        final(ids).issued() <= old(ids).issued() + old(this).appetite(),
        !old(this).dirty() ==> old(this).same(final(this)),
        !old(this)@.rebuilds() ==> final(this)@.prev->0@.id == old(this)@.prev->0@.id,
        r.0 == (old(this)@.rebuilds() || old(this)@.prev->0.dirty()),
        forall|c: Size| #[trigger] r.1.ops(c) == old(this).paints(c),
        !final(this).dirty(),
        forall|c: Size| #[trigger] final(this).paints(c) == old(this).paints(c),
        final(this)@ == (WidgetView {
            prev: final(this)@.prev,
            needs_rebuild: false,
            ..old(this)@
        }),
        final(this)@.prev is Some,
        final(this).wf(),
        old(ids).precedes(final(ids)),
    decreases old(this).depth(), 0nat,
{
    let did_rebuild = this._build(ids);
    proof {
        old(this).lemma_prev_depth(|s: State| s.rank());
    }
    let (did_elem_rebuild, element) = this.prev.as_mut().unwrap().create_element(ids);
    proof {
        assert forall|c: Size| #[trigger] this.paints(c) == old(this).paints(c) by {
            assert(this.paints(c) == this@.prev->0.paints(c));
        }
    }
    (did_rebuild || did_elem_rebuild, element)
}

/// Asks every child for its element, the child at `focus` as the one that
/// has the focus, and reports whether any of them was rebuilt.
pub fn gather<State: Stateful>(
    this: &mut Widget<State>,
    focus: Option<usize>,
    ids: &mut IdSource,
) -> (r: (bool, Vec<Element>))
    requires
        old(this).wf(),
        old(ids).has_room(total(old(this).child_appetites())),
    ensures
        final(ids).issued() <= old(ids).issued() + total(old(this).child_appetites()),
        forall|i: int|
            0 <= i < old(this)@.children.len() ==> {
                &&& (#[trigger] final(this)@.children[i])@.id == old(this)@.children[i]@.id
                &&& !old(this)@.children[i].dirty() ==> old(this)@.children[i].same(
                    &final(this)@.children[i],
                )
            },
        r.0 == (exists|i: int|
            0 <= i < old(this)@.children.len() && (#[trigger] old(this)@.children[i]).dirty()),
        r.1@.len() == old(this)@.children.len(),
        forall|i: int, c: Size|
            0 <= i < r.1@.len() ==> #[trigger] r.1@[i].ops(c) == if as_index(focus) == Some(i) {
                marked(old(this)@.children[i].paints(marked_room(c)), c)
            } else {
                old(this)@.children[i].paints(c)
            },
        final(this)@ == (WidgetView { children: final(this)@.children, ..old(this)@ }),
        final(this)@.children.len() == old(this)@.children.len(),
        forall|i: int|
            0 <= i < final(this)@.children.len() ==> !(#[trigger] final(this)@.children[i]).dirty(),
        forall|i: int, c: Size|
            0 <= i < final(this)@.children.len() ==> #[trigger] final(this)@.children[i].paints(c)
                == old(this)@.children[i].paints(c),
        final(this).wf(),
        old(ids).precedes(final(ids)),
    decreases old(this).depth(), 0nat,
{
    let n = this.children.len();
    let mut any = false;
    let mut elements: Vec<Element> = Vec::new();
    let mut i: usize = 0;
    proof {
        assert(old(this).child_appetites().skip(0) =~= old(this).child_appetites());
    }
    while i < n
        invariant
            i <= n,
            n == old(this)@.children.len(),
            this@ == (WidgetView { children: this@.children, ..old(this)@ }),
            this@.children.len() == n,
            old(this).wf(),
            forall|j: int| 0 <= j < n ==> (#[trigger] this@.children[j]).wf(),
            forall|j: int| i <= j < n ==> #[trigger] this@.children[j] == old(this)@.children[j],
            forall|j: int| 0 <= j < i ==> !(#[trigger] this@.children[j]).dirty(),
            forall|j: int, c: Size|
                0 <= j < i ==> #[trigger] this@.children[j].paints(c) == old(
                    this,
                )@.children[j].paints(c),
            elements@.len() == i,
            forall|j: int, c: Size|
                0 <= j < i ==> #[trigger] elements@[j].ops(c) == if as_index(focus) == Some(j) {
                    marked(old(this)@.children[j].paints(marked_room(c)), c)
                } else {
                    old(this)@.children[j].paints(c)
                },
            any == (exists|j: int| 0 <= j < i && (#[trigger] old(this)@.children[j]).dirty()),
            old(ids).precedes(ids),
            old(ids).has_room(total(old(this).child_appetites())),
            ids.issued() + total(old(this).child_appetites().skip(i as int)) <= old(ids).issued()
                + total(old(this).child_appetites()),
            forall|j: int|
                0 <= j < i ==> {
                    &&& (#[trigger] this@.children[j])@.id == old(this)@.children[j]@.id
                    &&& !old(this)@.children[j].dirty() ==> old(this)@.children[j].same(
                        &this@.children[j],
                    )
                },
        decreases n - i,
    {
        proof {
            old(this).lemma_child_depth(|s: State| s.rank(), i as int);
            lemma_total_step(old(this).child_appetites(), i as int);
            assert(old(this).child_appetites()[i as int] == this@.children[i as int].appetite());
        }
        let ghost child = old(this)@.children[i as int];
        let has_focus = match focus {
            Some(f) => f == i,
            None => false,
        };
        let (did_rebuild, element) = if has_focus {
            this.children[i].create_focused_element(ids)
        } else {
            this.children[i].create_element(ids)
        };
        any = any || did_rebuild;
        elements.push(element);
        i += 1;
    }
    (any, elements)
}

/// Produces the element of a widget with children: the children's elements,
/// arranged by the layout. A rebuild is reported if any child reports one.
pub fn statelessly_childfully_create_element<State: Stateful>(
    this: &mut Widget<State>,
    element_creator: Layout,
    ids: &mut IdSource,
) -> (r: (bool, Element))
    requires
        old(this).wf(),
        old(ids).has_room(total(old(this).child_appetites())),
    ensures
        final(ids).issued() <= old(ids).issued() + total(old(this).child_appetites()),
        forall|i: int|
            0 <= i < old(this)@.children.len() ==> {
                &&& (#[trigger] final(this)@.children[i])@.id == old(this)@.children[i]@.id
                &&& !old(this)@.children[i].dirty() ==> old(this)@.children[i].same(
                    &final(this)@.children[i],
                )
            },
        r.0 == (exists|i: int|
            0 <= i < old(this)@.children.len() && (#[trigger] old(this)@.children[i]).dirty()),
        forall|c: Size| #[trigger]
            r.1.ops(c) == element_creator.arrange(
                old(this).child_pieces(element_creator, None, c),
                c,
            ),
        final(this)@ == (WidgetView { children: final(this)@.children, ..old(this)@ }),
        final(this)@.children.len() == old(this)@.children.len(),
        forall|i: int|
            0 <= i < final(this)@.children.len() ==> !(#[trigger] final(this)@.children[i]).dirty(),
        forall|layout: Layout, c: Size| #[trigger]
            final(this).child_pieces(layout, None, c) == old(this).child_pieces(layout, None, c),
        final(this).wf(),
        old(ids).precedes(final(ids)),
    decreases old(this).depth(), 1nat,
{
    let (did_rebuild, elements) = gather(this, None, ids);
    let element = element_creator.assemble(elements);
    proof {
        assert forall|c: Size| #[trigger]
            element.ops(c) == element_creator.arrange(
                old(this).child_pieces(element_creator, None, c),
                c,
            ) by {
            old(this).lemma_pieces_of_elements(elements@, element_creator, None, c);
        }
        assert forall|layout: Layout, c: Size| #[trigger]
            this.child_pieces(layout, None, c) == old(this).child_pieces(layout, None, c) by {
            this.lemma_pieces_of_children(old(this), layout, None, c);
        }
    }
    (did_rebuild, element)
}

/// The producer that gathers the children's elements into the given layout.
pub fn statelessly_childfully_create_element_functional(
    element_creator: Layout,
) -> (producer: Producer)
    ensures
        producer == Producer::Gather(element_creator),
{
    Producer::Gather(element_creator)
}

impl<State> Widget<State> {
    /// The span of a widget depends on what it holds and how it produces its
    /// element, and on nothing else.
    pub proof fn lemma_span_frame(&self, other: &Widget<State>)
        requires
            self@.children == other@.children,
            self@.prev == other@.prev,
            self@.create_element == other@.create_element,
        ensures
            self.span() == other.span(),
    {
        let rank = |s: State| 0nat;
        assert(self.child_depths_with(rank) =~= other.child_depths_with(rank));
    }
}

impl<State: Stateful> Widget<State> {
    /// Delivers a message to the widget, which notes it and reacts to it in
    /// its own way. Unless the widget polls background work, its state is
    /// another afterwards only if it is marked for a rebuild. The source of
    /// identities must have room for what the message takes: only a request
    /// to append takes any.
    #[inline]
    pub fn on_message(&mut self, event: &Message, ids: &mut IdSource)
        requires
            old(self).wf(),
            old(ids).has_room(old(self).wants(*event)),
        ensures
            final(ids).issued() <= old(ids).issued() + old(self).wants(*event),
            old(self).reacts(*event, final(self)),
            !(old(self)@.on_message is Poll) ==> {
                ||| final(self)@.state == old(self)@.state
                ||| final(self)@.needs_rebuild
            },
            final(self)@.id == old(self)@.id,
            final(self)@.heard == old(self)@.heard.push(*event),
            final(self)@.on_message == old(self)@.on_message,
            final(self)@.create_element == old(self)@.create_element,
            final(self).wf(),
            old(ids).precedes(final(ids)),
        decreases old(self).span(), 2nat,
    {
        let ghost mut polled = self@;
        proof {
            if *event != Message::Control(Control::Append) {
                lemma_total_zero(self.child_wants(*event));
            }
        }
        match self.on_message {
            Reaction::Ignore => {},
            Reaction::Propagate => {
                propagate_msg(self, event, ids);
            },
            Reaction::Handle => {
                State::handle(self, event);
            },
            Reaction::HandleThenPropagate => {
                State::handle(self, event);
                proof {
                    self.lemma_span_frame(old(self));
                    assert(self.child_wants(*event) =~= old(self).child_wants(*event));
                }
                propagate_msg(self, event, ids);
            },
            Reaction::Route => {
                route_msg(self, event, ids);
            },
            Reaction::Poll => {
                poll(self, event);
                proof {
                    polled = self@;
                    self.lemma_span_frame(old(self));
                }
                route_msg(self, event, ids);
            },
            Reaction::Focus => {
                focus_msg(self, event, ids);
            },
        }
        proof {
            self.heard@ = self.heard@.push(*event);
            let heard = old(self)@.having_heard(*event);
            let noted = polled.having_heard(*event);
            assert(heard.restated(noted));
            if old(self)@.on_message is Poll && *event is Tick {
                let changed = choose|changed: bool| #[trigger] old(self)@.looked(polled, changed);
                assert(heard.looked(noted, changed));
            }
        }
    }
}

/// Hands a message to every child of a widget, in order.
pub fn propagate_msg<State: Stateful>(this: &mut Widget<State>, msg: &Message, ids: &mut IdSource)
    requires
        old(this).wf(),
        old(ids).has_room(total(old(this).child_wants(*msg))),
    ensures
        final(ids).issued() <= old(ids).issued() + total(old(this).child_wants(*msg)),
        old(this).propagates(old(this)@, *msg, final(this)),
        final(this).wf(),
        old(ids).precedes(final(ids)),
    decreases old(this).span(), 1nat,
{
    let n = this.children.len();
    let mut i: usize = 0;
    proof {
        assert(old(this).child_wants(*msg).skip(0) =~= old(this).child_wants(*msg));
    }
    while i < n
        invariant
            i <= n,
            n == old(this)@.children.len(),
            this@ == (WidgetView { children: this@.children, ..old(this)@ }),
            this@.children.len() == n,
            old(this).wf(),
            forall|j: int| 0 <= j < n ==> (#[trigger] this@.children[j]).wf(),
            forall|j: int| i <= j < n ==> #[trigger] this@.children[j] == old(this)@.children[j],
            forall|j: int|
                0 <= j < i ==> {
                    &&& old(this)@.children[j].reacts(*msg, #[trigger] &this@.children[j])
                    &&& this@.children[j]@.heard == old(this)@.children[j]@.heard.push(*msg)
                    &&& this@.children[j]@.id == old(this)@.children[j]@.id
                },
            old(ids).precedes(ids),
            old(ids).has_room(total(old(this).child_wants(*msg))),
            ids.issued() + total(old(this).child_wants(*msg).skip(i as int)) <= old(ids).issued()
                + total(old(this).child_wants(*msg)),
        decreases n - i,
    {
        proof {
            old(this).lemma_child_depth(|s: State| 0nat, i as int);
            lemma_total_step(old(this).child_wants(*msg), i as int);
            assert(old(this).child_wants(*msg)[i as int] == this@.children[i as int].wants(*msg));
        }
        this.children[i].on_message(msg, ids);
        i += 1;
    }
}

/// Runs the handler of the widget's state on a message and then routes the
/// message as the handler decided: on to the cached subtree if there is one
/// and the handler said to propagate, nowhere if it said to intercept.
pub fn route_msg<State: Stateful>(
    this: &mut Widget<State>,
    msg: &Message,
    ids: &mut IdSource,
) -> (flow: MessageFlow)
    requires
        old(this).wf(),
        old(ids).has_room(old(this).cached_wants(*msg)),
    ensures
        final(ids).issued() <= old(ids).issued() + old(this).cached_wants(*msg),
        final(this)@.state == old(this)@.state || final(this)@.needs_rebuild,
        flow == old(this)@.state.flow(*msg),
        old(this).routes(old(this)@, *msg, final(this)),
        final(this).wf(),
        old(ids).precedes(final(ids)),
    decreases old(this).span(), 1nat,
{
    let flow = State::handle(this, msg);
    match flow {
        MessageFlow::Propagate => {
            if this.prev.is_some() {
                proof {
                    old(this).lemma_prev_depth(|s: State| 0nat);
                }
                this.prev.as_mut().unwrap().on_message(msg, ids);
            }
        },
        MessageFlow::Intercept => {},
    }
    flow
}

/// On a tick, looks for news from the background work that the state holds
/// and, if there is any, marks the widget for a rebuild. Other messages
/// change nothing.
pub fn poll<State: Stateful>(this: &mut Widget<State>, msg: &Message)
    ensures
        old(this)@.restated(final(this)@),
        !(*msg is Tick) ==> final(this)@ == old(this)@,
        *msg is Tick ==> exists|changed: bool| #[trigger] old(this)@.looked(final(this)@, changed),
{
    let on_tick = |seen: bool, tick: &Tick| -> (r: bool) ensures r { true };
    let ticked = switch(msg, false).case(on_tick).finish();
    if ticked {
        let changed = this.state.check();
        if changed {
            this.set_state(Keep);
        }
        assert(old(this)@.looked(this@, changed));
    }
}

/// Deals with a message as a focus-aware container does: a request to
/// append makes the state build one more child; the focus keys move the
/// focus, wrapping at either end; any other message goes to the focused
/// child and to no other. The message never travels further by itself.
/// Only a widget that holds children can be such a container.
pub fn focus_msg<State: Stateful>(
    this: &mut Widget<State>,
    msg: &Message,
    ids: &mut IdSource,
) -> (flow: MessageFlow)
    requires
        old(this).wf(),
        !(old(this)@.create_element is Rebuild),
        *msg == Message::Control(Control::Append) ==> old(ids).has_room(old(this)@.state.cost()),
    ensures
        *msg == Message::Control(Control::Append) ==> final(ids).issued() <= old(ids).issued()
            + old(this)@.state.cost(),
        *msg != Message::Control(Control::Append) ==> final(ids).issued() == old(ids).issued(),
        flow is Intercept,
        old(this).refocuses(old(this)@, *msg, final(this)),
        final(this).wf(),
        old(ids).precedes(final(ids)),
    decreases old(this).span(), 1nat,
{
    let n = this.children.len();
    match msg {
        Message::Control(Control::Append) => {
            let child = this.state.build(ids);
            this.children.push(child);
            assert(this@.children.subrange(0, n as int) =~= old(this)@.children);
        },
        Message::Key(Key::Tab) => {
            if n > 0 {
                proof {
                    if this.focus == n - 1 {
                        lemma_mod_self_0(n as int);
                    } else {
                        lemma_small_mod((this.focus + 1) as nat, n as nat);
                    }
                }
                this.focus = if this.focus == n - 1 {
                    0
                } else {
                    this.focus + 1
                };
            }
        },
        Message::Key(Key::BackTab) => {
            if n > 0 {
                proof {
                    if this.focus == 0 {
                        lemma_small_mod((n - 1) as nat, n as nat);
                    } else {
                        lemma_mod_multiples_vanish(1, this.focus - 1, n as int);
                        lemma_small_mod((this.focus - 1) as nat, n as nat);
                    }
                }
                this.focus = if this.focus == 0 {
                    n - 1
                } else {
                    this.focus - 1
                };
            }
        },
        _ => {
            if n > 0 {
                proof {
                    old(this).lemma_child_depth(|s: State| 0nat, this.focus as int);
                    ids.lemma_has_room_for_none();
                }
                let focus = this.focus;
                this.children[focus].on_message(msg, ids);
            }
        },
    }
    MessageFlow::Intercept
}

} // verus!
