//! Messages, the flow a handler decides on, and the dispatcher that runs the
//! cases registered for a message's payload.

use vstd::prelude::*;
use crate::geometry::Size;

verus! {

/// A periodic tick from the host, with the host's tick count.
#[derive(Clone, Copy, Debug, PartialEq, Eq, Structural)]
pub struct Tick(pub u64);

/// A key press.
#[derive(Clone, Copy, Debug, PartialEq, Eq, Structural)]
pub enum Key {
    Char(char),
    Enter,
    Backspace,
    Escape,
    /// Moves the focus forward.
    Tab,
    /// Moves the focus backward.
    BackTab,
    Left,
    Right,
    Up,
    Down,
}

/// An event that a focus-aware container handles itself.
#[derive(Clone, Copy, Debug, PartialEq, Eq, Structural)]
pub enum Control {
    /// Asks the container to append one more child.
    Append,
}

/// An event defined by a widget, told apart by its tag.
#[derive(Clone, Debug, PartialEq, Eq)]
pub struct Signal {
    pub tag: u64,
    pub body: String,
}

/// An event delivered to the component tree.
#[derive(Clone, Debug, PartialEq, Eq)]
pub enum Message {
    Tick(Tick),
    Key(Key),
    Resize(Size),
    Control(Control),
    Signal(Signal),
}

/// What a handler decides about the message it was given.
#[derive(Clone, Copy, Debug, PartialEq, Eq, Structural)]
pub enum MessageFlow {
    /// Keep routing the message further down the tree.
    Propagate,
    /// Stop here.
    Intercept,
}

/// A type that a message can carry.
pub trait Payload: Sized {
    /// The payload of this type that the message carries, if it carries one.
    spec fn carried(msg: Message) -> Option<Self>;

    /// Returns the payload of this type, or nothing if the message carries
    /// another type.
    fn extract(msg: &Message) -> (r: Option<&Self>)
        ensures
            r matches Some(p) ==> Self::carried(*msg) == Some(*p),
            r is None ==> Self::carried(*msg) is None,
    ;
}

impl Payload for Tick {
    open spec fn carried(msg: Message) -> Option<Tick> {
        match msg {
            Message::Tick(t) => Some(t),
            _ => None,
        }
    }

    fn extract(msg: &Message) -> (r: Option<&Tick>) {
        match msg {
            Message::Tick(t) => Some(t),
            _ => None,
        }
    }
}

impl Payload for Key {
    open spec fn carried(msg: Message) -> Option<Key> {
        match msg {
            Message::Key(k) => Some(k),
            _ => None,
        }
    }

    fn extract(msg: &Message) -> (r: Option<&Key>) {
        match msg {
            Message::Key(k) => Some(k),
            _ => None,
        }
    }
}

impl Payload for Size {
    open spec fn carried(msg: Message) -> Option<Size> {
        match msg {
            Message::Resize(s) => Some(s),
            _ => None,
        }
    }

    fn extract(msg: &Message) -> (r: Option<&Size>) {
        match msg {
            Message::Resize(s) => Some(s),
            _ => None,
        }
    }
}

impl Payload for Control {
    open spec fn carried(msg: Message) -> Option<Control> {
        match msg {
            Message::Control(c) => Some(c),
            _ => None,
        }
    }

    fn extract(msg: &Message) -> (r: Option<&Control>) {
        match msg {
            Message::Control(c) => Some(c),
            _ => None,
        }
    }
}

impl Payload for Signal {
    open spec fn carried(msg: Message) -> Option<Signal> {
        match msg {
            Message::Signal(s) => Some(s),
            _ => None,
        }
    }

    fn extract(msg: &Message) -> (r: Option<&Signal>) {
        match msg {
            Message::Signal(s) => Some(s),
            _ => None,
        }
    }
}

/// A dispatch session: one message, and the state that the cases which match
/// it have produced so far.
pub struct Switch<'a, S> {
    pub msg: &'a Message,
    pub state: S,
}

/// Opens a dispatch session on a message, starting from `state`.
pub fn switch<'a, S>(msg: &'a Message, state: S) -> (session: Switch<'a, S>)
    ensures
        session.msg == msg,
        session.state == state,
{
    Switch { msg, state }
}

impl<'a, S> Switch<'a, S> {
    /// Registers a case for payloads of type `P`. The handler runs, on the
    /// state as the earlier cases left it, exactly when the message carries a
    /// `P`; otherwise the case is skipped and the state stays as it is. A
    /// case that ran does not keep later cases from running.
    pub fn case<P: Payload, F: FnOnce(S, &P) -> S>(self, handler: F) -> (next: Switch<'a, S>)
        requires
            P::carried(*self.msg) matches Some(p) ==> call_requires(handler, (self.state, &p)),
        ensures
            next.msg == self.msg,
            P::carried(*self.msg) matches Some(p) ==> call_ensures(
                handler,
                (self.state, &p),
                next.state,
            ),
            P::carried(*self.msg) is None ==> next.state == self.state,
    {
        match P::extract(self.msg) {
            Some(payload) => {
                let state = handler(self.state, payload);
                Switch { msg: self.msg, state }
            },
            None => self,
        }
    }

    /// Ends the session and hands back the state.
    pub fn finish(self) -> (state: S)
        ensures
            state == self.state,
    {
        self.state
    }
}

} // verus!
