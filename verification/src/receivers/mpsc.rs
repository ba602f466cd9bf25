//! A bounded first-in first-out queue with immediate feedback: a producer is
//! never made to wait, it is told at once whether its message was accepted.
use crate::receiver::SendError;
use std::collections::VecDeque;
use vstd::prelude::*;

verus! {

/// Mathematical content of a channel.
pub struct ChannelView<M> {
    /// The queued messages, oldest first.
    pub queue: Seq<M>,
    /// The most messages that may be queued at once.
    pub capacity: nat,
    /// Whether the producing side was closed.
    pub closed: bool,
}

impl<M> ChannelView<M> {
    /// An open channel with nothing queued.
    pub open spec fn empty(capacity: nat) -> Self {
        ChannelView { queue: Seq::empty(), capacity, closed: false }
    }

    /// The queue respects the capacity.
    pub open spec fn wf(self) -> bool {
        self.queue.len() <= self.capacity
    }

    /// There is room for one more message.
    pub open spec fn has_capacity(self) -> bool {
        self.queue.len() < self.capacity
    }

    /// A message offered now is accepted.
    pub open spec fn accepts(self) -> bool {
        !self.closed && self.has_capacity()
    }

    /// Nothing is queued and nothing will be.
    pub open spec fn is_exhausted(self) -> bool {
        self.closed && self.queue.len() == 0
    }

    /// The answer given to a producer offering `m`. A closed channel says so
    /// even when it is also full.
    pub open spec fn send_result(self, m: M) -> Result<(), SendError<M>> {
        if self.closed {
            Err(SendError::Closed(m))
        } else if !self.has_capacity() {
            Err(SendError::Full(m))
        } else {
            Ok(())
        }
    }

    /// The channel after `m` was offered.
    pub open spec fn send(self, m: M) -> Self {
        if self.accepts() {
            ChannelView { queue: self.queue.push(m), ..self }
        } else {
            self
        }
    }

    /// The channel after the producing side was closed. Queued messages stay.
    pub open spec fn close(self) -> Self {
        ChannelView { closed: true, ..self }
    }

    /// The channel after the consumer took the oldest message, if there is one.
    pub open spec fn recv(self) -> Self {
        if self.queue.len() > 0 {
            ChannelView { queue: self.queue.drop_first(), ..self }
        } else {
            self
        }
    }

    /// What the consumer gets when it asks for the oldest message.
    pub open spec fn recv_result(self) -> Option<M> {
        if self.queue.len() > 0 {
            Some(self.queue.first())
        } else {
            None
        }
    }
}

/// A bounded queue of messages. Both ends live in the one value; the receiver
/// that owns it hands the producing side to callers and keeps the consuming
/// side for its poller.
pub struct Channel<M> {
    queue: VecDeque<M>,
    capacity: usize,
    closed: bool,
}

impl<M> View for Channel<M> {
    type V = ChannelView<M>;

    closed spec fn view(&self) -> ChannelView<M> {
        ChannelView { queue: self.queue@, capacity: self.capacity as nat, closed: self.closed }
    }
}

/// Creates an open, empty channel that holds at most `buffer` messages.
pub fn channel<M>(buffer: usize) -> (ch: Channel<M>)
    ensures
        ch@ == ChannelView::<M>::empty(buffer as nat),
{
    Channel { queue: VecDeque::new(), capacity: buffer, closed: false }
}

impl<M> Channel<M> {
    /// The capacity always fits the machine word it was given in.
    pub proof fn lemma_capacity_bounded(&self)
        ensures
            self@.capacity <= usize::MAX,
    {
    }

    /// The capacity the channel was created with.
    pub fn capacity(&self) -> (n: usize)
        ensures
            n == self@.capacity,
    {
        self.capacity
    }

    /// The number of queued messages.
    pub fn len(&self) -> (n: usize)
        ensures
            n == self@.queue.len(),
    {
        self.queue.len()
    }

    /// Whether nothing is queued.
    pub fn is_empty(&self) -> (b: bool)
        ensures
            b == (self@.queue.len() == 0),
    {
        self.queue.len() == 0
    }

    /// Whether the producing side was closed.
    pub fn is_closed(&self) -> (b: bool)
        ensures
            b == self@.closed,
    {
        self.closed
    }

    /// Whether there is room for one more message.
    pub fn has_capacity(&self) -> (b: bool)
        ensures
            b == self@.has_capacity(),
    {
        self.queue.len() < self.capacity
    }

    /// Offers `m` without waiting. It is queued behind the messages already
    /// there if the channel is open and has room; otherwise it comes back in
    /// the error and the channel is unchanged.
    pub fn try_send(&mut self, m: M) -> (r: Result<(), SendError<M>>)
        ensures
            r == old(self)@.send_result(m),
            final(self)@ == old(self)@.send(m),
    {
        if self.closed {
            Err(SendError::Closed(m))
        } else if self.queue.len() >= self.capacity {
            Err(SendError::Full(m))
        } else {
            self.queue.push_back(m);
            Ok(())
        }
    }

    /// Takes the oldest queued message, if there is one. A closed channel
    /// still yields what was queued before it was closed.
    pub fn try_recv(&mut self) -> (r: Option<M>)
        ensures
            r == old(self)@.recv_result(),
            final(self)@ == old(self)@.recv(),
    {
        let r = self.queue.pop_front();
        proof {
            if old(self)@.queue.len() > 0 {
                assert(old(self)@.queue.drop_first() =~= old(self)@.queue.subrange(
                    1,
                    old(self)@.queue.len() as int,
                ));
            }
        }
        r
    }

    /// Closes the producing side: from now on every offer is refused. What is
    /// queued stays queued for the consumer.
    pub fn close(&mut self)
        ensures
            final(self)@ == old(self)@.close(),
    {
        self.closed = true;
    }
}

/// Operations keep the queue within the capacity.
pub proof fn lemma_channel_wf_preserved<M>(c: ChannelView<M>, m: M)
    requires
        c.wf(),
    ensures
        c.send(m).wf(),
        c.recv().wf(),
        c.close().wf(),
        ChannelView::<M>::empty(c.capacity).wf(),
{
}

} // verus!
