//! The operations that can be applied to a receiver, as values, so that
//! theorems can speak of every sequence of them.
use crate::receiver::Event;
use vstd::prelude::*;

verus! {

/// One operation on a receiver.
pub enum Op<M, E> {
    /// A producer offers a message.
    Send(M),
    /// The producing side is closed.
    Close,
    /// The poller takes a step on the given event.
    Poll(Event<E>),
}

/// The operations of producers offering `msgs` one after the other.
pub open spec fn sends<M, E>(msgs: Seq<M>) -> Seq<Op<M, E>> {
    Seq::new(msgs.len(), |i: int| Op::Send(msgs[i]))
}

} // verus!
