//! The executable receiver for handlers that are called with groups of
//! messages.
use super::model::Model;
use super::{BufferUnorderedBatchedConfig, BufferUnorderedBatchedStats};
use crate::receiver::{Action, Event, Outcome, Phase, Poll, ReceiverStats, SendError};
use crate::receivers::mpsc::{channel, Channel, ChannelView};
use std::marker::PhantomData;
use vstd::prelude::*;

verus! {

/// A batching receiver that is configured and not yet running, for messages
/// of type `M` and a handler of type `T`.
pub struct BufferUnorderedBatchedSyncSubscriber<T, M> {
    cfg: BufferUnorderedBatchedConfig,
    _m: PhantomData<(M, T)>,
}

impl<T, M> BufferUnorderedBatchedSyncSubscriber<T, M> {
    /// The bounds and the policy this receiver will run with.
    pub closed spec fn config(self) -> BufferUnorderedBatchedConfig {
        self.cfg
    }

    /// The bounds this receiver will run with.
    pub fn cfg(&self) -> (cfg: BufferUnorderedBatchedConfig)
        ensures
            cfg == self.config(),
    {
        self.cfg
    }

    /// Brings the receiver to life: an open, empty queue of the configured
    /// capacity, nothing gathered, an idle pool, all counters at rest.
    pub fn subscribe(self) -> (receiver: BufferUnorderedBatchedSync<M>)
        ensures
            receiver.wf(),
            receiver@ == Model::<M>::init(self.config()),
    {
        let cfg = self.cfg;
        let tx = channel(cfg.buffer_size);
        let stats = BufferUnorderedBatchedStats {
            buffer: 0,
            buffer_total: cfg.buffer_size as u64,
            parallel: 0,
            parallel_total: cfg.max_parallel as u64,
            batch: 0,
            batch_size: cfg.batch_size as u64,
        };
        BufferUnorderedBatchedSync {
            tx,
            pending: Vec::new(),
            stats,
            max_parallel: cfg.max_parallel,
            batch_size: cfg.batch_size,
            when_ready: cfg.when_ready,
            in_flight: 0,
            phase: Phase::Draining,
        }
    }
}

/// A running batching receiver: the queue, the accumulation stage, the
/// bookkeeping of the worker pool, and the counters that mirror them.
pub struct BufferUnorderedBatchedSync<M> {
    tx: Channel<M>,
    pending: Vec<M>,
    stats: BufferUnorderedBatchedStats,
    max_parallel: usize,
    batch_size: usize,
    when_ready: bool,
    in_flight: usize,
    phase: Phase,
}

impl<M> View for BufferUnorderedBatchedSync<M> {
    type V = Model<M>;

    closed spec fn view(&self) -> Model<M> {
        Model {
            channel: self.tx@,
            pending: self.pending@,
            batch_size: self.batch_size as nat,
            when_ready: self.when_ready,
            max_parallel: self.max_parallel as nat,
            in_flight: self.in_flight as nat,
            phase: self.phase,
        }
    }
}

impl<M> BufferUnorderedBatchedSync<M> {
    /// Every counter shows what it is named after.
    pub closed spec fn counters_agree(&self) -> bool {
        &&& self.stats.buffer == self.tx@.queue.len()
        &&& self.stats.buffer_total == self.tx@.capacity
        &&& self.stats.parallel == self.in_flight
        &&& self.stats.parallel_total == self.max_parallel
        &&& self.stats.batch == self.pending@.len()
        &&& self.stats.batch_size == self.batch_size
    }

    /// The receiver is in a state that its own operations can have produced.
    pub open spec fn wf(&self) -> bool {
        self@.inv() && self.counters_agree()
    }

    /// Starts the description of a receiver with the given bounds and policy.
    pub fn build<T>(cfg: BufferUnorderedBatchedConfig) -> (entry:
        BufferUnorderedBatchedSyncSubscriber<T, M>)
        ensures
            entry.config() == cfg,
    {
        BufferUnorderedBatchedSyncSubscriber { cfg, _m: PhantomData }
    }

    /// Where the poller stands in its life cycle.
    pub fn phase(&self) -> (phase: Phase)
        ensures
            phase == self@.phase,
    {
        self.phase
    }

    /// How many handler calls were dispatched and not yet reported complete.
    pub fn in_flight(&self) -> (n: usize)
        ensures
            n == self@.in_flight,
    {
        self.in_flight
    }

    /// How many messages wait in the queue.
    pub fn len(&self) -> (n: usize)
        ensures
            n == self@.channel.queue.len(),
    {
        self.tx.len()
    }

    /// How many messages are gathered for the next group.
    pub fn pending(&self) -> (n: usize)
        ensures
            n == self@.pending.len(),
    {
        self.pending.len()
    }

    /// Whether the producing side was closed.
    pub fn is_closed(&self) -> (closed: bool)
        ensures
            closed == self@.channel.closed,
    {
        self.tx.is_closed()
    }

    /// Whether `event` can occur now, so that the poller may be given it.
    pub fn admits<E>(&self, event: &Event<E>) -> (ok: bool)
        ensures
            ok == self@.admits(*event),
    {
        self.batch_size > 0 && match event {
            Event::Wake => true,
            Event::Completed(_) => self.in_flight > 0,
            Event::Finalized(_) => match self.phase {
                Phase::Finalizing => true,
                _ => false,
            },
        }
    }

    /// Whether a message offered now would find room in the queue.
    pub fn poll_ready(&self) -> (p: Poll)
        ensures
            p == (if self@.channel.has_capacity() { Poll::Ready } else { Poll::Pending }),
    {
        if self.tx.has_capacity() {
            Poll::Ready
        } else {
            Poll::Pending
        }
    }

    /// Offers `m` without waiting. On success it is queued and counted; on
    /// failure it comes back inside the error and nothing has changed.
    pub fn try_send(&mut self, m: M) -> (r: Result<(), SendError<M>>)
        requires
            old(self).wf(),
        ensures
            final(self).wf(),
            r == old(self)@.try_send_result(m),
            final(self)@ == old(self)@.try_send(m),
    {
        proof {
            self.tx.lemma_capacity_bounded();
        }
        match self.tx.try_send(m) {
            Ok(_) => {
                self.stats.buffer = self.stats.buffer + 1;
                Ok(())
            },
            Err(err) => Err(err),
        }
    }

    /// A snapshot of the counters, in their fixed order, under the name by
    /// which the caller identifies the message type.
    pub fn stats(&self, name: &'static str) -> (snapshot: ReceiverStats)
        requires
            self.wf(),
        ensures
            snapshot.name == name,
            snapshot@.fields == self@.stats(),
    {
        let mut fields: Vec<(&'static str, u64)> = Vec::new();
        fields.push(("buffer", self.stats.buffer));
        fields.push(("buffer_total", self.stats.buffer_total));
        fields.push(("parallel", self.stats.parallel));
        fields.push(("parallel_total", self.stats.parallel_total));
        fields.push(("batch", self.stats.batch));
        fields.push(("batch_size", self.stats.batch_size));
        ReceiverStats { name, fields }
    }

    /// Closes the producing side. Nothing more is accepted; what is queued or
    /// gathered is still dispatched. Does not wait for that.
    pub fn close(&mut self)
        requires
            old(self).wf(),
        ensures
            final(self).wf(),
            final(self)@ == old(self)@.close(),
    {
        self.tx.close();
    }

    /// Makes pending writes visible to the consumer. An accepted message is
    /// visible at once here, so there is nothing to do.
    pub fn sync(&self) {
    }

    /// Whether the receiver has caught up. Draining is the poller's business,
    /// so the handle always says yes.
    pub fn poll_synchronized(&self) -> (p: Poll)
        ensures
            p == Poll::Ready,
    {
        Poll::Ready
    }

    /// Moves messages from the front of the queue into the accumulation
    /// stage until the group is full or the queue is empty.
    fn gather(&mut self)
        requires
            old(self).wf(),
            old(self)@.batch_size > 0,
        ensures
            final(self)@ == old(self)@.gather(),
            final(self).counters_agree(),
    {
        let ghost start = self@;
        let ghost mut taken: int = 0;
        proof {
            self.tx.lemma_capacity_bounded();
            assert(self.pending@ =~= start.pending + start.channel.queue.subrange(0, 0));
            assert(start.channel.queue =~= start.channel.queue.subrange(
                0,
                start.channel.queue.len() as int,
            ));
        }
        loop
            invariant
                start.inv(),
                start.channel.capacity <= usize::MAX,
                0 <= taken <= start.channel.queue.len(),
                self.pending@ == start.pending + start.channel.queue.subrange(0, taken),
                self.pending@.len() <= start.batch_size,
                self@ == (Model {
                    channel: ChannelView {
                        queue: start.channel.queue.subrange(
                            taken,
                            start.channel.queue.len() as int,
                        ),
                        ..start.channel
                    },
                    pending: self.pending@,
                    ..start
                }),
                self.counters_agree(),
            ensures
                self.pending@.len() == start.batch_size || taken == start.channel.queue.len(),
            decreases start.channel.queue.len() - taken,
        {
            if self.pending.len() >= self.batch_size {
                break ;
            }
            match self.tx.try_recv() {
                Some(msg) => {
                    self.stats.buffer = self.stats.buffer - 1;
                    self.stats.batch = self.stats.batch + 1;
                    self.pending.push(msg);
                    proof {
                        let q = start.channel.queue;
                        assert(q.subrange(taken, q.len() as int).drop_first() =~= q.subrange(
                            taken + 1,
                            q.len() as int,
                        ));
                        assert(q.subrange(0, taken).push(q[taken]) =~= q.subrange(0, taken + 1));
                        assert(self.pending@ =~= start.pending + q.subrange(0, taken + 1));
                        taken = taken + 1;
                    }
                },
                None => {
                    break ;
                },
            }
        }
        proof {
            assert(taken == start.gathered());
        }
    }

    /// The poller's move when nothing in particular has happened.
    fn wake<E>(&mut self) -> (action: Action<Vec<M>, E>)
        requires
            old(self).wf(),
            old(self)@.batch_size > 0,
        ensures
            final(self).wf(),
            (final(self)@, action@) == old(self)@.wake::<E>(),
    {
        match self.phase {
            Phase::Terminated => Action::Exit,
            Phase::Finalizing => Action::Wait,
            Phase::Draining => {
                if self.in_flight < self.max_parallel {
                    self.gather();
                    let n: usize = self.pending.len();
                    let closed: bool = self.tx.is_closed();
                    if n >= self.batch_size || (n > 0 && (self.when_ready || closed)) {
                        let mut group: Vec<M> = Vec::new();
                        std::mem::swap(&mut self.pending, &mut group);
                        self.stats.batch = self.stats.batch - (n as u64);
                        self.stats.parallel = self.stats.parallel + 1;
                        self.in_flight = self.in_flight + 1;
                        Action::Dispatch(group)
                    } else if n == 0 && closed && self.in_flight == 0 {
                        self.phase = Phase::Finalizing;
                        Action::Finalize
                    } else {
                        Action::Wait
                    }
                } else {
                    Action::Wait
                }
            },
        }
    }
}

/// One step of the poller: takes what has happened, updates the bookkeeping
/// and says what to do next.
///
/// The caller carries out the action and comes back with the next event:
/// after `Dispatch` with `Wake`, once the unit is submitted to the pool; after
/// `Forward` with `Wake`, once the report is sent or given up; after
/// `Finalize` with `Finalized`, when the hook has ended; after `Wait` with
/// whatever happens first, `Completed` for a unit that has ended or `Wake`
/// when the queue has changed. After `Exit` there is nothing left to do.
pub fn buffer_unordered_poller<M, E>(
    rx: &mut BufferUnorderedBatchedSync<M>,
    event: Event<E>,
) -> (action: Action<Vec<M>, E>)
    requires
        old(rx).wf(),
        old(rx)@.admits(event),
    ensures
        final(rx).wf(),
        (final(rx)@, action@) == old(rx)@.poll(event),
{
    match event {
        Event::Wake => rx.wake(),
        Event::Completed(outcome) => {
            rx.stats.parallel = rx.stats.parallel - 1;
            rx.in_flight = rx.in_flight - 1;
            match outcome {
                Outcome::Failed(err) => Action::Forward(err),
                _ => rx.wake(),
            }
        },
        Event::Finalized(outcome) => {
            rx.phase = Phase::Terminated;
            match outcome {
                Outcome::Failed(err) => Action::Forward(err),
                _ => Action::Exit,
            }
        },
    }
}

} // verus!
