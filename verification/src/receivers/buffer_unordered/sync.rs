//! The executable receiver for handlers that are called one message at a time.
use super::model::Model;
use super::{BufferUnorderedConfig, BufferUnorderedStats};
use crate::receiver::{Action, Event, Outcome, Phase, Poll, ReceiverStats, SendError};
use crate::receivers::mpsc::{channel, Channel};
use std::marker::PhantomData;
use vstd::prelude::*;

verus! {

/// A receiver that is configured and not yet running, for messages of type `M`
/// and a handler of type `T`.
pub struct BufferUnorderedSyncSubscriber<T, M> {
    cfg: BufferUnorderedConfig,
    _m: PhantomData<(M, T)>,
}

impl<T, M> BufferUnorderedSyncSubscriber<T, M> {
    /// The bounds this receiver will run with.
    pub closed spec fn config(self) -> BufferUnorderedConfig {
        self.cfg
    }

    /// The bounds this receiver will run with.
    pub fn cfg(&self) -> (cfg: BufferUnorderedConfig)
        ensures
            cfg == self.config(),
    {
        self.cfg
    }

    /// Brings the receiver to life: an open, empty queue of the configured
    /// capacity, an idle pool, all counters at rest.
    pub fn subscribe(self) -> (receiver: BufferUnorderedSync<M>)
        ensures
            receiver.wf(),
            receiver@ == Model::<M>::init(self.config()),
    {
        let cfg = self.cfg;
        let tx = channel(cfg.buffer_size);
        let stats = BufferUnorderedStats {
            buffer: 0,
            buffer_total: cfg.buffer_size as u64,
            parallel: 0,
            parallel_total: cfg.max_parallel as u64,
        };
        BufferUnorderedSync {
            tx,
            stats,
            max_parallel: cfg.max_parallel,
            in_flight: 0,
            phase: Phase::Draining,
        }
    }
}

/// A running receiver: the queue, the bookkeeping of the worker pool, and the
/// counters that mirror both.
pub struct BufferUnorderedSync<M> {
    tx: Channel<M>,
    stats: BufferUnorderedStats,
    max_parallel: usize,
    in_flight: usize,
    phase: Phase,
}

impl<M> View for BufferUnorderedSync<M> {
    type V = Model<M>;

    closed spec fn view(&self) -> Model<M> {
        Model {
            channel: self.tx@,
            max_parallel: self.max_parallel as nat,
            in_flight: self.in_flight as nat,
            phase: self.phase,
        }
    }
}

impl<M> BufferUnorderedSync<M> {
    /// Every counter shows what it is named after.
    pub closed spec fn counters_agree(&self) -> bool {
        &&& self.stats.buffer == self.tx@.queue.len()
        &&& self.stats.buffer_total == self.tx@.capacity
        &&& self.stats.parallel == self.in_flight
        &&& self.stats.parallel_total == self.max_parallel
    }

    /// The receiver is in a state that its own operations can have produced.
    pub open spec fn wf(&self) -> bool {
        self@.inv() && self.counters_agree()
    }

    /// Starts the description of a receiver with the given bounds.
    pub fn build<T>(cfg: BufferUnorderedConfig) -> (entry: BufferUnorderedSyncSubscriber<T, M>)
        ensures
            entry.config() == cfg,
    {
        BufferUnorderedSyncSubscriber { cfg, _m: PhantomData }
    }

    /// Where the poller stands in its life cycle.
    pub fn phase(&self) -> (phase: Phase)
        ensures
            phase == self@.phase,
    {
        self.phase
    }

    /// How many handler calls were dispatched and not yet reported complete.
    pub fn in_flight(&self) -> (n: usize)
        ensures
            n == self@.in_flight,
    {
        self.in_flight
    }

    /// How many messages wait in the queue.
    pub fn len(&self) -> (n: usize)
        ensures
            n == self@.channel.queue.len(),
    {
        self.tx.len()
    }

    /// Whether the producing side was closed.
    pub fn is_closed(&self) -> (closed: bool)
        ensures
            closed == self@.channel.closed,
    {
        self.tx.is_closed()
    }

    /// Whether `event` can occur now, so that the poller may be given it.
    pub fn admits<E>(&self, event: &Event<E>) -> (ok: bool)
        ensures
            ok == self@.admits(*event),
    {
        match event {
            Event::Wake => true,
            Event::Completed(_) => self.in_flight > 0,
            Event::Finalized(_) => match self.phase {
                Phase::Finalizing => true,
                _ => false,
            },
        }
    }

    /// Whether a message offered now would find room in the queue.
    pub fn poll_ready(&self) -> (p: Poll)
        ensures
            p == (if self@.channel.has_capacity() { Poll::Ready } else { Poll::Pending }),
    {
        if self.tx.has_capacity() {
            Poll::Ready
        } else {
            Poll::Pending
        }
    }

    /// Offers `m` without waiting. On success it is queued and counted; on
    /// failure it comes back inside the error and nothing has changed.
    pub fn try_send(&mut self, m: M) -> (r: Result<(), SendError<M>>)
        requires
            old(self).wf(),
        ensures
            final(self).wf(),
            r == old(self)@.try_send_result(m),
            final(self)@ == old(self)@.try_send(m),
    {
        proof {
            self.tx.lemma_capacity_bounded();
        }
        match self.tx.try_send(m) {
            Ok(_) => {
                self.stats.buffer = self.stats.buffer + 1;
                Ok(())
            },
            Err(err) => Err(err),
        }
    }

    /// A snapshot of the counters, in their fixed order, under the name by
    /// which the caller identifies the message type.
    pub fn stats(&self, name: &'static str) -> (snapshot: ReceiverStats)
        requires
            self.wf(),
        ensures
            snapshot.name == name,
            snapshot@.fields == self@.stats(),
    {
        let mut fields: Vec<(&'static str, u64)> = Vec::new();
        fields.push(("buffer", self.stats.buffer));
        fields.push(("buffer_total", self.stats.buffer_total));
        fields.push(("parallel", self.stats.parallel));
        fields.push(("parallel_total", self.stats.parallel_total));
        ReceiverStats { name, fields }
    }

    /// Closes the producing side. Nothing more is accepted; what is queued is
    /// still dispatched. Does not wait for that.
    pub fn close(&mut self)
        requires
            old(self).wf(),
        ensures
            final(self).wf(),
            final(self)@ == old(self)@.close(),
    {
        self.tx.close();
    }

    /// Makes pending writes visible to the consumer. An accepted message is
    /// visible at once here, so there is nothing to do.
    pub fn sync(&self) {
    }

    /// Whether the receiver has caught up. Draining is the poller's business,
    /// so the handle always says yes.
    pub fn poll_synchronized(&self) -> (p: Poll)
        ensures
            p == Poll::Ready,
    {
        Poll::Ready
    }

    /// The poller's move when nothing in particular has happened.
    fn wake<E>(&mut self) -> (action: Action<M, E>)
        requires
            old(self).wf(),
        ensures
            final(self).wf(),
            (final(self)@, action) == old(self)@.wake::<E>(),
    {
        proof {
            self.tx.lemma_capacity_bounded();
        }
        match self.phase {
            Phase::Terminated => Action::Exit,
            Phase::Finalizing => Action::Wait,
            Phase::Draining => {
                if self.in_flight < self.max_parallel {
                    match self.tx.try_recv() {
                        Some(msg) => {
                            self.stats.buffer = self.stats.buffer - 1;
                            self.stats.parallel = self.stats.parallel + 1;
                            self.in_flight = self.in_flight + 1;
                            Action::Dispatch(msg)
                        },
                        None => {
                            if self.in_flight == 0 && self.tx.is_closed() {
                                self.phase = Phase::Finalizing;
                                Action::Finalize
                            } else {
                                Action::Wait
                            }
                        },
                    }
                } else {
                    Action::Wait
                }
            },
        }
    }
}

/// One step of the poller: takes what has happened, updates the bookkeeping
/// and says what to do next.
///
/// The caller carries out the action and comes back with the next event:
/// after `Dispatch` with `Wake`, once the unit is submitted to the pool; after
/// `Forward` with `Wake`, once the report is sent or given up; after
/// `Finalize` with `Finalized`, when the hook has ended; after `Wait` with
/// whatever happens first, `Completed` for a unit that has ended or `Wake`
/// when the queue has changed. After `Exit` there is nothing left to do.
pub fn buffer_unordered_poller<M, E>(rx: &mut BufferUnorderedSync<M>, event: Event<E>) -> (action:
    Action<M, E>)
    requires
        old(rx).wf(),
        old(rx)@.admits(event),
    ensures
        final(rx).wf(),
        (final(rx)@, action) == old(rx)@.poll(event),
{
    match event {
        Event::Wake => rx.wake(),
        Event::Completed(outcome) => {
            rx.stats.parallel = rx.stats.parallel - 1;
            rx.in_flight = rx.in_flight - 1;
            match outcome {
                Outcome::Failed(err) => Action::Forward(err),
                _ => rx.wake(),
            }
        },
        Event::Finalized(outcome) => {
            rx.phase = Phase::Terminated;
            match outcome {
                Outcome::Failed(err) => Action::Forward(err),
                _ => Action::Exit,
            }
        },
    }
}

} // verus!
