//! The bridge between the tree and background work: one-shot tasks and
//! streams of values, checked without blocking.

use vstd::prelude::*;
use std::future::Future;
use std::pin::Pin;
use std::task::{Context, Poll, Waker};
use tokio::runtime::Handle;
use tokio::sync::mpsc::{UnboundedReceiver, UnboundedSender};
use tokio::task::{JoinError, JoinHandle};

verus! {

/// `tokio::task::JoinHandle`: the right to join a spawned task. Opaque.
#[verifier::external_type_specification]
#[verifier::external_body]
#[verifier::reject_recursive_types(T)]
pub struct ExJoinHandle<T>(JoinHandle<T>);

/// `tokio::task::JoinError`: why a spawned task did not yield a value.
/// Opaque; it is named because a join handle, as a future, yields it.
#[verifier::external_type_specification]
#[verifier::external_body]
pub struct ExJoinError(JoinError);

/// `tokio::runtime::Handle`: a reference to a running runtime. Opaque.
#[verifier::external_type_specification]
#[verifier::external_body]
pub struct ExHandle(Handle);

/// `tokio::sync::mpsc::UnboundedReceiver`: the receiving end of a channel
/// without a bound. Opaque: what is queued depends on the senders.
#[verifier::external_type_specification]
#[verifier::external_body]
#[verifier::reject_recursive_types(T)]
pub struct ExUnboundedReceiver<T>(UnboundedReceiver<T>);

/// `tokio::sync::mpsc::UnboundedSender`: a sending end of such a channel.
/// Opaque; the tree only hands it to the producer.
#[verifier::external_type_specification]
#[verifier::external_body]
#[verifier::reject_recursive_types(T)]
pub struct ExUnboundedSender<T>(UnboundedSender<T>);

/// What one look at a unit of background work finds.
pub enum Completion<T> {
    /// It has not finished.
    Pending,
    /// It has finished, with this value.
    Done(T),
    /// It ended abnormally.
    Aborted,
}

/// Calls `tokio::runtime::Handle::spawn`: starts the future on the runtime
/// and returns the handle to join it. Nothing is claimed of the handle.
#[verifier::external_body]
fn go<F>(rt: &Handle, task: F) -> JoinHandle<F::Output> where
    F: Future + Send + 'static,
    F::Output: Send + 'static,
 {
    rt.spawn(task)
}

/// What one poll of a join handle gives: the handle back while the work is
/// pending, else what became of the work. A handle that has yielded is gone.
#[verifier::reject_recursive_types(T)]
pub(crate) enum Polled<T> {
    Pending(JoinHandle<T>),
    Done(T),
    Aborted,
}

/// Polls a `tokio::task::JoinHandle` once, with a waker that does nothing
/// (`Future::poll`). The handle is taken by value and handed back only while
/// the work is pending, so no handle is ever polled after it has yielded.
/// Which of the three comes back depends on how far the work has come, so
/// nothing is claimed of it.
#[verifier::external_body]
fn poll_join<T>(handle: JoinHandle<T>) -> Polled<T> {
    let mut handle = handle;
    let mut cx = Context::from_waker(Waker::noop());
    match Pin::new(&mut handle).poll(&mut cx) {
        Poll::Pending => Polled::Pending(handle),
        Poll::Ready(Ok(value)) => Polled::Done(value),
        Poll::Ready(Err(_)) => Polled::Aborted,
    }
}

/// Calls `tokio::sync::mpsc::unbounded_channel`: a fresh channel without a
/// bound, as its sending and its receiving end.
#[verifier::external_body]
fn channel<T>() -> (UnboundedSender<T>, UnboundedReceiver<T>) {
    tokio::sync::mpsc::unbounded_channel()
}

/// Calls `UnboundedReceiver::len`: the number of values queued at this
/// moment. Senders run elsewhere, so nothing is claimed of the number.
#[verifier::external_body]
fn queued<T>(receiver: &UnboundedReceiver<T>) -> usize {
    receiver.len()
}

/// Calls `UnboundedReceiver::try_recv`: the oldest queued value, or nothing
/// if the queue is empty or the channel is closed. Senders run elsewhere, so
/// nothing is claimed of the result.
#[verifier::external_body]
fn try_next<T>(receiver: &mut UnboundedReceiver<T>) -> Option<T> {
    receiver.try_recv().ok()
}

/// The state of a unit of background work, as the tree has observed it.
pub enum TaskState<T> {
    /// Not yet observed complete.
    Running,
    /// Observed complete, with its value.
    Finished(T),
    /// The work ended abnormally.
    Failed,
}

/// What a task holds. A running task holds the handle to join its work,
/// but for the moment between a look that found the work done, which uses
/// the handle up, and the taking in of what the look found.
#[verifier::reject_recursive_types(T)]
enum Work<T> {
    Running(Option<JoinHandle<T>>),
    Finished(T),
    Failed,
}

/// A handle to a unit of background work.
#[verifier::reject_recursive_types(T)]
pub struct Task<T> {
    work: Work<T>,
}

impl<T> View for Task<T> {
    type V = TaskState<T>;

    closed spec fn view(&self) -> TaskState<T> {
        match self.work {
            Work::Running(_) => TaskState::Running,
            Work::Finished(value) => TaskState::Finished(value),
            Work::Failed => TaskState::Failed,
        }
    }
}

impl<T> TaskState<T> {
    /// The state after a look at the work found `outcome`: a running task
    /// takes the outcome; a task that was observed complete stays as it is.
    pub open spec fn settled(self, outcome: Completion<T>) -> TaskState<T> {
        match (self, outcome) {
            (TaskState::Running, Completion::Done(value)) => TaskState::Finished(value),
            (TaskState::Running, Completion::Aborted) => TaskState::Failed,
            _ => self,
        }
    }

    /// Whether a look that found `outcome` takes the task out of `Running`.
    pub open spec fn transitions(self, outcome: Completion<T>) -> bool {
        self is Running && !(outcome is Pending)
    }
}

impl<T> Task<T> {
    /// Whether the task holds the handle of its work: it was started, and
    /// no look has yet found it done.
    pub closed spec fn attached(&self) -> bool {
        match self.work {
            Work::Running(Some(_)) => true,
            _ => false,
        }
    }

    /// Starts the future on the runtime. The task holds the handle of the
    /// work that was started.
    pub fn spawn<F>(rt: &Handle, task: F) -> (r: Task<T>) where
        F: Future<Output = T> + Send + 'static,
        T: Send + 'static,

        ensures
            r@ is Running,
            r.attached(),
    {
        Task { work: Work::Running(Some(go(rt, task))) }
    }

    /// Whether the work has not been observed complete.
    pub fn is_running(&self) -> (r: bool)
        ensures
            r == (self@ is Running),
    {
        match &self.work {
            Work::Running(_) => true,
            _ => false,
        }
    }

    /// Whether the work ended abnormally.
    pub fn is_failed(&self) -> (r: bool)
        ensures
            r == (self@ is Failed),
    {
        match &self.work {
            Work::Failed => true,
            _ => false,
        }
    }

    /// The value of the work, once it was observed complete.
    pub fn value(&self) -> (r: Option<&T>)
        ensures
            match self@ {
                TaskState::Finished(value) => r == Some(&value),
                _ => r is None,
            },
    {
        match &self.work {
            Work::Finished(value) => Some(value),
            _ => None,
        }
    }

    /// Takes in what a look at the work found, and says whether the task
    /// thereby left `Running`. A task that is running afterwards holds what
    /// it held.
    pub fn settle(&mut self, outcome: Completion<T>) -> (changed: bool)
        ensures
            final(self)@ == old(self)@.settled(outcome),
            changed == old(self)@.transitions(outcome),
            final(self)@ is Running ==> final(self).attached() == old(self).attached(),
    {
        let running = self.is_running();
        match outcome {
            Completion::Pending => false,
            Completion::Done(value) => {
                if running {
                    self.work = Work::Finished(value);
                }
                running
            },
            Completion::Aborted => {
                if running {
                    self.work = Work::Failed;
                }
                running
            },
        }
    }

    /// Looks at the work once, without blocking, and says what it found.
    /// The task itself stays as it is until the outcome is taken in; a task
    /// that is not running is not looked at. While the work is pending the
    /// task keeps the handle; a look that finds the work done uses it up.
    pub(crate) fn look(&mut self) -> (outcome: Completion<T>)
        ensures
            final(self)@ == old(self)@,
            !(old(self)@ is Running) ==> outcome is Pending,
            !old(self).attached() ==> outcome is Pending,
            outcome is Pending ==> final(self).attached() == old(self).attached(),
    {
        let handle = match &mut self.work {
            Work::Running(slot) => slot.take(),
            _ => None,
        };
        match handle {
            Some(handle) => match poll_join(handle) {
                Polled::Pending(handle) => {
                    self.work = Work::Running(Some(handle));
                    Completion::Pending
                },
                Polled::Done(value) => Completion::Done(value),
                Polled::Aborted => Completion::Aborted,
            },
            None => Completion::Pending,
        }
    }

    /// Looks, without blocking, whether the work has completed. Returns
    /// true exactly when the task just left `Running`; a task that was
    /// observed complete before is left alone, and a task that is still
    /// running keeps the handle of its work.
    pub fn check(&mut self) -> (changed: bool)
        ensures
            changed <==> old(self)@ is Running && !(final(self)@ is Running),
            !(old(self)@ is Running) ==> final(self)@ == old(self)@,
            final(self)@ is Running ==> final(self).attached() == old(self).attached(),
            exists|outcome: Completion<T>|
                {
                    &&& final(self)@ == #[trigger] old(self)@.settled(outcome)
                    &&& changed == old(self)@.transitions(outcome)
                },
    {
        let outcome = self.look();
        self.settle(outcome)
    }
}

/// A stream as the contracts see it.
pub struct StreamView<T, R> {
    /// The state of the work that produces the values.
    pub task: TaskState<R>,
    /// The value retrieved last, if any was.
    pub current: Option<T>,
}

impl<T, R> StreamView<T, R> {
    /// The stream after a check that took `batch` out of the queue, oldest
    /// first, and found `outcome` for the producer: of the batch only the
    /// last value is kept.
    pub open spec fn absorbed(self, batch: Seq<T>, outcome: Completion<R>) -> StreamView<T, R> {
        StreamView {
            task: self.task.settled(outcome),
            current: if batch.len() > 0 {
                Some(batch.last())
            } else {
                self.current
            },
        }
    }

    /// Whether such a check reports a change: it does if any value came, or
    /// if the producer left `Running`.
    pub open spec fn changes(self, batch: Seq<T>, outcome: Completion<R>) -> bool {
        batch.len() > 0 || self.task.transitions(outcome)
    }
}

/// Several values that arrive before one check leave only the last of them
/// as the current value, and the check reports them once: the next check,
/// if nothing new came and the producer is where it was, reports nothing and
/// changes nothing.
pub proof fn lemma_batch_reported_once<T, R>(
    stream: StreamView<T, R>,
    batch: Seq<T>,
    outcome: Completion<R>,
)
    requires
        batch.len() > 0,
    ensures
        stream.changes(batch, outcome),
        stream.absorbed(batch, outcome).current == Some(batch.last()),
        !stream.absorbed(batch, outcome).changes(Seq::empty(), Completion::Pending),
        stream.absorbed(batch, outcome).absorbed(Seq::empty(), Completion::Pending)
            == stream.absorbed(batch, outcome),
{
}

/// A unit of background work that sends values while it runs: the task,
/// the queue of values that have arrived, and the value retrieved last.
#[verifier::reject_recursive_types(T)]
#[verifier::reject_recursive_types(R)]
pub struct Stream<T, R> {
    task: Task<R>,
    receiver: UnboundedReceiver<T>,
    current: Option<T>,
}

impl<T, R> View for Stream<T, R> {
    type V = StreamView<T, R>;

    closed spec fn view(&self) -> StreamView<T, R> {
        StreamView { task: self.task@, current: self.current }
    }
}

impl<T, R> Stream<T, R> {
    /// Whether the stream holds the handle of the work that produces its
    /// values: the work was started, and no look has yet found it done.
    pub closed spec fn attached(&self) -> bool {
        self.task.attached()
    }

    /// Opens a channel, hands its sending end to the generator, and starts
    /// the future that the generator returns on the runtime. The generator
    /// has been called, and the stream holds the handle of the work that was
    /// started.
    pub fn open<F, G>(rt: &Handle, generator: G) -> (r: Stream<T, R>) where
        G: FnOnce(UnboundedSender<T>) -> F,
        F: Future<Output = R> + Send + 'static,
        R: Send + 'static,

        requires
            forall|sender: UnboundedSender<T>| call_requires(generator, (sender,)),
        ensures
            r@ == (StreamView::<T, R> { task: TaskState::Running, current: None }),
            r.attached(),
            exists|sender: UnboundedSender<T>, work: F| #[trigger]
                call_ensures(generator, (sender,), work),
    {
        let (sender, receiver) = channel();
        Stream { task: Task::spawn(rt, generator(sender)), receiver, current: None }
    }

    /// The value retrieved last, if any was.
    pub fn current(&self) -> (r: Option<&T>)
        ensures
            match self@.current {
                Some(value) => r == Some(&value),
                None => r is None,
            },
    {
        self.current.as_ref()
    }

    /// The work that produces the values.
    pub fn task(&self) -> (r: &Task<R>)
        ensures
            r@ == self@.task,
            r.attached() == self.attached(),
    {
        &self.task
    }

    /// Takes in the values that a check took out of the queue, oldest
    /// first, and what it found for the producer. Of the values only the
    /// last is kept. Says whether anything changed.
    pub fn absorb(&mut self, batch: Vec<T>, outcome: Completion<R>) -> (changed: bool)
        ensures
            final(self)@ == old(self)@.absorbed(batch@, outcome),
            changed == old(self)@.changes(batch@, outcome),
            final(self)@.task is Running ==> final(self).attached() == old(self).attached(),
    {
        let mut batch = batch;
        let last = batch.pop();
        let arrived = last.is_some();
        if arrived {
            self.current = last;
        }
        let settled = self.task.settle(outcome);
        arrived || settled
    }

    /// Takes out of the queue the values that are in it now, oldest first.
    fn drain(&mut self) -> (batch: Vec<T>)
        ensures
            final(self)@ == old(self)@,
            final(self).attached() == old(self).attached(),
    {
        let mut batch: Vec<T> = Vec::new();
        let waiting = queued(&self.receiver);
        let mut taken: usize = 0;
        while taken < waiting
            invariant
                self@ == old(self)@,
                self.attached() == old(self).attached(),
            decreases waiting - taken,
        {
            match try_next(&mut self.receiver) {
                Some(value) => {
                    batch.push(value);
                },
                None => {},
            }
            taken += 1;
        }
        batch
    }

    /// Looks, without blocking, for news: takes every value that is queued
    /// now, keeps the last as the current value, and looks whether the
    /// producer has completed. Returns true exactly when a value came or
    /// the producer just left `Running`.
    pub fn check(&mut self) -> (changed: bool)
        ensures
            exists|batch: Seq<T>, outcome: Completion<R>|
                {
                    &&& final(self)@ == #[trigger] old(self)@.absorbed(batch, outcome)
                    &&& changed == old(self)@.changes(batch, outcome)
                },
            final(self)@.task is Running ==> final(self).attached() == old(self).attached(),
    {
        let batch = self.drain();
        let outcome = self.task.look();
        self.absorb(batch, outcome)
    }
}

} // verus!
