//! What a receiver does over time. A history records, next to the state of
//! the receiver, what its surroundings could observe: which messages were
//! accepted, which were dispatched, how many completions and failures were
//! reported to it, which errors it handed out, how often it asked for the
//! finalize hook. The theorems below hold after every sequence of operations
//! in which the driver reports only what has really happened.
use super::model::Model;
use super::BufferUnorderedConfig;
use crate::receiver::{Action, Event, Outcome, SendError};
use crate::receivers::trace::{sends, Op};
use vstd::prelude::*;

verus! {

/// A receiver together with the record of what it has done so far.
pub struct History<M, E> {
    /// The receiver now.
    pub state: Model<M>,
    /// The messages accepted from producers, in the order of their arrival.
    pub accepted: Seq<M>,
    /// The messages handed to the pool, in the order of their dispatch.
    pub dispatched: Seq<M>,
    /// How many handler calls were reported complete.
    pub completed: nat,
    /// The errors that handler calls and the finalize hook were reported to
    /// have returned, in the order of the reports.
    pub failures: Seq<E>,
    /// The errors handed out to be forwarded to the bus, in that order.
    pub forwarded: Seq<E>,
    /// How often the finalize hook was requested.
    pub finalize_requests: nat,
    /// How often the finalize hook was reported complete.
    pub finalize_reports: nat,
}

impl<M, E> History<M, E> {
    /// The history of a receiver fresh from its builder.
    pub open spec fn start(cfg: BufferUnorderedConfig) -> Self {
        History {
            state: Model::init(cfg),
            accepted: Seq::empty(),
            dispatched: Seq::empty(),
            completed: 0,
            failures: Seq::empty(),
            forwarded: Seq::empty(),
            finalize_requests: 0,
            finalize_reports: 0,
        }
    }

    /// Handler calls that were started and not yet reported complete, counted
    /// from the outside: dispatches minus completions.
    pub open spec fn active(self) -> int {
        self.dispatched.len() - self.completed
    }

    /// What the driver owes the poller: it reports a completion only for a
    /// unit that was dispatched and not yet reported, and the end of the
    /// finalize hook only after the hook was requested, and once.
    pub open spec fn permits(self, op: Op<M, E>) -> bool {
        match op {
            Op::Poll(Event::Completed(_)) => self.completed < self.dispatched.len(),
            Op::Poll(Event::Finalized(_)) => self.finalize_reports < self.finalize_requests,
            _ => true,
        }
    }

    /// The history after one more operation.
    pub open spec fn step(self, op: Op<M, E>) -> Self {
        match op {
            Op::Send(m) => History {
                state: self.state.try_send(m),
                accepted: if self.state.try_send_result(m) is Ok {
                    self.accepted.push(m)
                } else {
                    self.accepted
                },
                ..self
            },
            Op::Close => History { state: self.state.close(), ..self },
            Op::Poll(event) => {
                let (state, action) = self.state.poll(event);
                History {
                    state,
                    accepted: self.accepted,
                    dispatched: match action {
                        Action::Dispatch(m) => self.dispatched.push(m),
                        _ => self.dispatched,
                    },
                    completed: if event is Completed {
                        self.completed + 1
                    } else {
                        self.completed
                    },
                    failures: match event.failure() {
                        Some(err) => self.failures.push(err),
                        None => self.failures,
                    },
                    forwarded: match action {
                        Action::Forward(err) => self.forwarded.push(err),
                        _ => self.forwarded,
                    },
                    finalize_requests: if action is Finalize {
                        self.finalize_requests + 1
                    } else {
                        self.finalize_requests
                    },
                    finalize_reports: if event is Finalized {
                        self.finalize_reports + 1
                    } else {
                        self.finalize_reports
                    },
                }
            },
        }
    }

    /// The history after the operations `ops`, applied in order to a fresh
    /// receiver.
    pub open spec fn run(cfg: BufferUnorderedConfig, ops: Seq<Op<M, E>>) -> Self
        decreases ops.len(),
    {
        if ops.len() == 0 {
            Self::start(cfg)
        } else {
            Self::run(cfg, ops.drop_last()).step(ops.last())
        }
    }

    /// Every operation of `ops` was permitted when its turn came.
    pub open spec fn legal(cfg: BufferUnorderedConfig, ops: Seq<Op<M, E>>) -> bool
        decreases ops.len(),
    {
        ops.len() == 0 || (Self::legal(cfg, ops.drop_last()) && Self::run(
            cfg,
            ops.drop_last(),
        ).permits(ops.last()))
    }

    /// How the record and the state of a receiver hang together.
    pub open spec fn consistent(self, cfg: BufferUnorderedConfig) -> bool {
        &&& self.state.inv()
        &&& self.state.max_parallel == cfg.max_parallel
        &&& self.state.channel.capacity == cfg.buffer_size
        &&& self.state.in_flight == self.active()
        &&& self.accepted == self.dispatched + self.state.channel.queue
        &&& self.forwarded == self.failures
        &&& self.finalize_requests == (if self.state.phase is Draining {
            0nat
        } else {
            1nat
        })
        &&& self.finalize_reports == (if self.state.phase is Terminated {
            1nat
        } else {
            0nat
        })
    }

    /// A permitted operation on a consistent history leaves it consistent.
    pub proof fn lemma_step_consistent(self, cfg: BufferUnorderedConfig, op: Op<M, E>)
        requires
            self.consistent(cfg),
            self.permits(op),
        ensures
            self.step(op).consistent(cfg),
    {
        let next = self.step(op);
        match op {
            Op::Send(m) => {
                assert(next.accepted =~= next.dispatched + next.state.channel.queue);
            },
            Op::Close => {},
            Op::Poll(event) => {
                assert(next.accepted =~= next.dispatched + next.state.channel.queue);
            },
        }
    }

    /// After operations that were all permitted, the history is consistent.
    pub proof fn lemma_run_consistent(cfg: BufferUnorderedConfig, ops: Seq<Op<M, E>>)
        requires
            Self::legal(cfg, ops),
        ensures
            Self::run(cfg, ops).consistent(cfg),
        decreases ops.len(),
    {
        if ops.len() == 0 {
            let h = Self::start(cfg);
            assert(h.accepted =~= h.dispatched + h.state.channel.queue);
        } else {
            Self::lemma_run_consistent(cfg, ops.drop_last());
            Self::run(cfg, ops.drop_last()).lemma_step_consistent(cfg, ops.last());
        }
    }
}

impl<M, E> History<M, E> {
    /// As long as the queue has room, every message offered to a fresh
    /// receiver is accepted and queued in the order of arrival.
    pub proof fn lemma_sends_fill_queue(cfg: BufferUnorderedConfig, msgs: Seq<M>)
        requires
            msgs.len() <= cfg.buffer_size,
        ensures
            Self::legal(cfg, sends(msgs)),
            Self::run(cfg, sends(msgs)).accepted == msgs,
            Self::run(cfg, sends(msgs)).state == (Model {
                channel: crate::receivers::mpsc::ChannelView {
                    queue: msgs,
                    ..Model::<M>::init(cfg).channel
                },
                ..Model::<M>::init(cfg)
            }),
        decreases msgs.len(),
    {
        let ops = sends::<M, E>(msgs);
        if msgs.len() == 0 {
            assert(Self::run(cfg, ops).accepted =~= msgs);
            assert(Self::run(cfg, ops).state.channel.queue =~= msgs);
        } else {
            Self::lemma_sends_fill_queue(cfg, msgs.drop_last());
            assert(ops.drop_last() =~= sends::<M, E>(msgs.drop_last()));
            assert(ops.last() == Op::<M, E>::Send(msgs.last()));
            assert(msgs.drop_last().push(msgs.last()) =~= msgs);
        }
    }

    /// Capacity: after as many messages as the queue has room for were offered
    /// to a fresh receiver, with nothing drained in between, all of them were
    /// accepted, and the next one is refused as the queue is full: it comes
    /// back unchanged and the receiver is as it was.
    pub proof fn lemma_full_queue_refuses(cfg: BufferUnorderedConfig, msgs: Seq<M>, extra: M)
        requires
            msgs.len() == cfg.buffer_size,
        ensures
            Self::run(cfg, sends(msgs)).accepted == msgs,
            Self::run(cfg, sends(msgs)).state.try_send_result(extra) == Err::<(), SendError<M>>(
                SendError::Full(extra),
            ),
            Self::run(cfg, sends(msgs)).state.try_send(extra) == Self::run(
                cfg,
                sends(msgs),
            ).state,
    {
        Self::lemma_sends_fill_queue(cfg, msgs);
    }

    /// The bounds a receiver was built with stay with it for life.
    pub proof fn lemma_config_is_fixed(cfg: BufferUnorderedConfig, ops: Seq<Op<M, E>>)
        requires
            Self::legal(cfg, ops),
        ensures
            Self::run(cfg, ops).state.channel.capacity == cfg.buffer_size,
            Self::run(cfg, ops).state.max_parallel == cfg.max_parallel,
    {
        Self::lemma_run_consistent(cfg, ops);
    }

    /// The counter of queued messages never exceeds the capacity of the
    /// queue, nor the counter of running handler calls the bound of the pool.
    pub proof fn lemma_counters_within_totals(cfg: BufferUnorderedConfig, ops: Seq<Op<M, E>>)
        requires
            Self::legal(cfg, ops),
        ensures
            Self::run(cfg, ops).state.stats()[0].1 <= Self::run(cfg, ops).state.stats()[1].1,
            Self::run(cfg, ops).state.stats()[2].1 <= Self::run(cfg, ops).state.stats()[3].1,
    {
        Self::lemma_run_consistent(cfg, ops);
    }

    /// A closed receiver stays closed, accepts nothing more, and its queue
    /// only ever gets shorter.
    pub proof fn lemma_closed_stays_closed(cfg: BufferUnorderedConfig, ops: Seq<Op<M, E>>, op: Op<M, E>)
        requires
            Self::legal(cfg, ops),
            Self::run(cfg, ops).permits(op),
            Self::run(cfg, ops).state.channel.closed,
        ensures
            Self::run(cfg, ops).step(op).state.channel.closed,
            Self::run(cfg, ops).step(op).accepted == Self::run(cfg, ops).accepted,
            Self::run(cfg, ops).step(op).state.channel.queue.len() <= Self::run(
                cfg,
                ops,
            ).state.channel.queue.len(),
    {
        Self::lemma_run_consistent(cfg, ops);
    }

    /// Parallelism: however messages arrive and whenever handler calls
    /// complete, the calls that were started and not yet reported complete
    /// never number more than `max_parallel`.
    pub proof fn lemma_parallelism_bounded(cfg: BufferUnorderedConfig, ops: Seq<Op<M, E>>)
        requires
            Self::legal(cfg, ops),
        ensures
            0 <= Self::run(cfg, ops).active() <= cfg.max_parallel,
            Self::run(cfg, ops).active() == Self::run(cfg, ops).state.in_flight,
    {
        Self::lemma_run_consistent(cfg, ops);
    }

    /// A driver that keeps its side of the protocol never offers the poller
    /// an event that the poller's state does not admit.
    pub proof fn lemma_permitted_is_admitted(
        cfg: BufferUnorderedConfig,
        ops: Seq<Op<M, E>>,
        event: Event<E>,
    )
        requires
            Self::legal(cfg, ops),
            Self::run(cfg, ops).permits(Op::Poll(event)),
        ensures
            Self::run(cfg, ops).state.inv(),
            Self::run(cfg, ops).state.admits(event),
    {
        Self::lemma_run_consistent(cfg, ops);
    }

    /// Order of arrival: messages are dispatched in the order in which they
    /// were accepted, none is lost and none is dispatched twice. The accepted
    /// messages are the dispatched ones followed by those still queued.
    pub proof fn lemma_dispatch_in_arrival_order(cfg: BufferUnorderedConfig, ops: Seq<Op<M, E>>)
        requires
            Self::legal(cfg, ops),
        ensures
            Self::run(cfg, ops).accepted == Self::run(cfg, ops).dispatched + Self::run(
                cfg,
                ops,
            ).state.channel.queue,
    {
        Self::lemma_run_consistent(cfg, ops);
    }

    /// Finalize after drain: the finalize hook is requested at most once, and
    /// by then the receiver is closed, every message it ever accepted was
    /// dispatched, and every dispatched handler call was reported complete.
    pub proof fn lemma_finalize_once_after_drain(cfg: BufferUnorderedConfig, ops: Seq<Op<M, E>>)
        requires
            Self::legal(cfg, ops),
        ensures
            Self::run(cfg, ops).finalize_requests <= 1,
            Self::run(cfg, ops).finalize_reports <= Self::run(cfg, ops).finalize_requests,
            Self::run(cfg, ops).finalize_requests == 1 ==> {
                &&& Self::run(cfg, ops).state.channel.closed
                &&& Self::run(cfg, ops).dispatched == Self::run(cfg, ops).accepted
                &&& Self::run(cfg, ops).completed == Self::run(cfg, ops).dispatched.len()
            },
    {
        Self::lemma_run_consistent(cfg, ops);
        let h = Self::run(cfg, ops);
        if h.finalize_requests == 1 {
            assert(h.dispatched + h.state.channel.queue =~= h.dispatched);
        }
    }

    /// Once the finalize hook was requested, nothing is accepted, dispatched
    /// or completed any more, and the hook is not requested again.
    pub proof fn lemma_nothing_after_finalize(
        cfg: BufferUnorderedConfig,
        ops: Seq<Op<M, E>>,
        op: Op<M, E>,
    )
        requires
            Self::legal(cfg, ops),
            Self::run(cfg, ops).permits(op),
            Self::run(cfg, ops).finalize_requests == 1,
        ensures
            Self::run(cfg, ops).step(op).accepted == Self::run(cfg, ops).accepted,
            Self::run(cfg, ops).step(op).dispatched == Self::run(cfg, ops).dispatched,
            Self::run(cfg, ops).step(op).completed == Self::run(cfg, ops).completed,
            Self::run(cfg, ops).step(op).finalize_requests == 1,
    {
        Self::lemma_run_consistent(cfg, ops);
    }

    /// Exactly once: a closed receiver whose pool has at least one slot can
    /// always be brought to its end. Whatever has happened so far, if from
    /// now on the driver reports each handler call as complete and wakes the
    /// poller when none is under way, the poller requests the finalize hook,
    /// once, hears of its end and stops. The operations returned are those
    /// given, followed by the ones of such a driver.
    pub proof fn lemma_closed_receiver_finishes(cfg: BufferUnorderedConfig, ops: Seq<Op<M, E>>) -> (all: Seq<
        Op<M, E>,
    >)
        requires
            cfg.max_parallel > 0,
            Self::legal(cfg, ops),
            Self::run(cfg, ops).state.channel.closed,
        ensures
            ops.is_prefix_of(all),
            Self::legal(cfg, all),
            Self::run(cfg, all).state.phase is Terminated,
            Self::run(cfg, all).finalize_requests == 1,
            Self::run(cfg, all).finalize_reports == 1,
        decreases Self::run(cfg, ops).state.work_left(),
    {
        Self::lemma_run_consistent(cfg, ops);
        let h = Self::run(cfg, ops);
        if h.state.phase is Terminated {
            assert(ops =~= ops.subrange(0, ops.len() as int));
            ops
        } else {
            let event: Event<E> = if h.state.phase is Finalizing {
                Event::Finalized(Outcome::Succeeded)
            } else if h.state.in_flight > 0 {
                Event::Completed(Outcome::Succeeded)
            } else {
                Event::Wake
            };
            let next = ops.push(Op::Poll(event));
            assert(next.drop_last() =~= ops);
            assert(Self::run(cfg, next) == h.step(Op::Poll(event)));
            h.state.lemma_closed_receiver_winds_down(event);
            let all = Self::lemma_closed_receiver_finishes(cfg, next);
            assert(ops =~= all.subrange(0, ops.len() as int)) by {
                assert(next =~= all.subrange(0, next.len() as int));
                assert(ops =~= next.subrange(0, ops.len() as int));
            }
            all
        }
    }

    /// Failures: every error that a handler call or the finalize hook was
    /// reported to have returned is handed out to be forwarded, once, in the
    /// order of the reports, and nothing else is.
    pub proof fn lemma_failures_forwarded(cfg: BufferUnorderedConfig, ops: Seq<Op<M, E>>)
        requires
            Self::legal(cfg, ops),
        ensures
            Self::run(cfg, ops).forwarded == Self::run(cfg, ops).failures,
    {
        Self::lemma_run_consistent(cfg, ops);
    }

    /// Counters at rest: whatever went through the receiver before, once
    /// every accepted message has been reported complete the counters of
    /// queued messages and of running handler calls both read zero.
    pub proof fn lemma_counters_at_rest(cfg: BufferUnorderedConfig, ops: Seq<Op<M, E>>)
        requires
            Self::legal(cfg, ops),
            Self::run(cfg, ops).completed == Self::run(cfg, ops).accepted.len(),
        ensures
            Self::run(cfg, ops).state.is_idle(),
            Self::run(cfg, ops).state.stats()[0] == ("buffer"@, 0nat),
            Self::run(cfg, ops).state.stats()[2] == ("parallel"@, 0nat),
    {
        Self::lemma_run_consistent(cfg, ops);
    }
}

} // verus!
