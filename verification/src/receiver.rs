//! Types shared by all receivers: the rejection handed back by `try_send`, the
//! statistics snapshot, and the vocabulary spoken between a poller and the
//! code that drives it.
use vstd::prelude::*;

verus! {

/// Why a message was turned away. The message travels back inside the error.
#[derive(Debug, PartialEq, Eq)]
pub enum SendError<M> {
    /// The queue holds as many messages as its capacity allows.
    Full(M),
    /// The queue was closed.
    Closed(M),
}

impl<M> SendError<M> {
    /// The message that was turned away.
    pub open spec fn message(self) -> M {
        match self {
            SendError::Full(m) => m,
            SendError::Closed(m) => m,
        }
    }

    /// Takes the rejected message back out of the error.
    pub fn into_inner(self) -> (m: M)
        ensures
            m == self.message(),
    {
        match self {
            SendError::Full(m) => m,
            SendError::Closed(m) => m,
        }
    }
}

/// Answer of the readiness queries of a receiver.
#[derive(Clone, Copy, Debug, PartialEq, Eq)]
pub enum Poll {
    Ready,
    Pending,
}

/// Life cycle of a poller. It only ever moves forward.
#[derive(Clone, Copy, Debug, PartialEq, Eq)]
pub enum Phase {
    /// Messages are taken from the queue and dispatched.
    Draining,
    /// The finalize hook was requested and has not reported back.
    Finalizing,
    /// The poller has stopped for good.
    Terminated,
}

/// How one unit of work (a handler call or the finalize hook) ended.
#[derive(Debug, PartialEq, Eq)]
pub enum Outcome<E> {
    /// It returned without error.
    Succeeded,
    /// It returned this error.
    Failed(E),
    /// It never returned a result: the worker running it was lost.
    Aborted,
}

impl<E> Outcome<E> {
    /// The error to report for this outcome, if any.
    pub open spec fn failure(self) -> Option<E> {
        match self {
            Outcome::Failed(e) => Some(e),
            _ => None,
        }
    }
}

/// What the driver tells the poller.
#[derive(Debug, PartialEq, Eq)]
pub enum Event<E> {
    /// Nothing in particular happened: the poller is started, the previous
    /// action was carried out, or the queue changed.
    Wake,
    /// One dispatched unit has completed.
    Completed(Outcome<E>),
    /// The finalize hook has completed.
    Finalized(Outcome<E>),
}

impl<E> Event<E> {
    /// The error that the event brings with it, if any.
    pub open spec fn failure(self) -> Option<E> {
        match self {
            Event::Wake => None,
            Event::Completed(outcome) => outcome.failure(),
            Event::Finalized(outcome) => outcome.failure(),
        }
    }
}

/// What the poller asks the driver to do next.
#[derive(Debug, PartialEq, Eq)]
pub enum Action<U, E> {
    /// Submit this unit to the worker pool.
    Dispatch(U),
    /// Report this error to the bus; whether the report arrives is not the
    /// poller's concern.
    Forward(E),
    /// Run the finalize hook on the worker pool.
    Finalize,
    /// Nothing to do until a unit completes or the queue changes.
    Wait,
    /// The poller is done.
    Exit,
}

impl<M, E> View for Action<Vec<M>, E> {
    type V = Action<Seq<M>, E>;

    /// An action on a group of messages, with the group as a sequence.
    open spec fn view(&self) -> Action<Seq<M>, E> {
        match *self {
            Action::Dispatch(group) => Action::Dispatch(group@),
            Action::Forward(err) => Action::Forward(err),
            Action::Finalize => Action::Finalize,
            Action::Wait => Action::Wait,
            Action::Exit => Action::Exit,
        }
    }
}

/// Mathematical content of a statistics snapshot.
pub struct ReceiverStatsView {
    pub name: Seq<char>,
    pub fields: Seq<(Seq<char>, nat)>,
}

/// A snapshot of a receiver's counters, in a fixed order.
#[derive(Debug, PartialEq, Eq)]
pub struct ReceiverStats {
    /// Names the message type.
    pub name: &'static str,
    /// Counter names with their values.
    pub fields: Vec<(&'static str, u64)>,
}

impl View for ReceiverStats {
    type V = ReceiverStatsView;

    open spec fn view(&self) -> ReceiverStatsView {
        ReceiverStatsView {
            name: self.name@,
            fields: Seq::new(
                self.fields@.len(),
                |i: int| (self.fields@[i].0@, self.fields@[i].1 as nat),
            ),
        }
    }
}

} // verus!
