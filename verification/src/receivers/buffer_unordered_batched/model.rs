//! The batching receiver as a transition system over mathematical values.
use super::BufferUnorderedBatchedConfig;
use crate::receiver::{Action, Event, Outcome, Phase, SendError};
use crate::receivers::mpsc::ChannelView;
use vstd::prelude::*;

verus! {

/// Everything that decides how a batching receiver behaves.
pub struct Model<M> {
    /// The queue between producers and poller.
    pub channel: ChannelView<M>,
    /// The messages gathered for the next group, oldest first.
    pub pending: Seq<M>,
    /// The most messages that one group may hold.
    pub batch_size: nat,
    /// Ready mode if set, strict mode if not.
    pub when_ready: bool,
    /// Bound on the handler calls that run at once.
    pub max_parallel: nat,
    /// Handler calls dispatched and not yet reported complete.
    pub in_flight: nat,
    /// Where the poller stands in its life cycle.
    pub phase: Phase,
}

impl<M> Model<M> {
    /// A receiver fresh from its builder: open, empty, idle, draining.
    pub open spec fn init(cfg: BufferUnorderedBatchedConfig) -> Self {
        Model {
            channel: ChannelView::empty(cfg.buffer_size as nat),
            pending: Seq::empty(),
            batch_size: cfg.batch_size as nat,
            when_ready: cfg.when_ready,
            max_parallel: cfg.max_parallel as nat,
            in_flight: 0,
            phase: Phase::Draining,
        }
    }

    /// What holds of every receiver whenever the poller rests: the queue is
    /// within its capacity and the pool within its bound; the accumulation
    /// stage holds less than a full group, and nothing at all in ready mode
    /// or where groups have no size; a poller that has left the draining
    /// phase has left nothing behind.
    pub open spec fn inv(self) -> bool {
        &&& self.channel.wf()
        &&& self.pending.len() <= self.batch_size
        &&& self.batch_size > 0 ==> self.pending.len() < self.batch_size
        &&& self.when_ready ==> self.pending.len() == 0
        &&& self.in_flight <= self.max_parallel
        &&& !(self.phase is Draining) ==> {
            &&& self.in_flight == 0
            &&& self.pending.len() == 0
            &&& self.channel.is_exhausted()
        }
    }

    /// No message is queued or gathered and no handler call is under way.
    pub open spec fn is_idle(self) -> bool {
        self.channel.queue.len() == 0 && self.pending.len() == 0 && self.in_flight == 0
    }

    /// The snapshot of the counters, in the order in which it is reported.
    pub open spec fn stats(self) -> Seq<(Seq<char>, nat)> {
        seq![
            ("buffer"@, self.channel.queue.len()),
            ("buffer_total"@, self.channel.capacity),
            ("parallel"@, self.in_flight),
            ("parallel_total"@, self.max_parallel),
            ("batch"@, self.pending.len()),
            ("batch_size"@, self.batch_size),
        ]
    }

    /// The receiver after a producer offered `m`.
    pub open spec fn try_send(self, m: M) -> Self {
        Model { channel: self.channel.send(m), ..self }
    }

    /// The answer given to a producer offering `m`.
    pub open spec fn try_send_result(self, m: M) -> Result<(), SendError<M>> {
        self.channel.send_result(m)
    }

    /// The receiver after its producing side was closed.
    pub open spec fn close(self) -> Self {
        Model { channel: self.channel.close(), ..self }
    }

    /// How many messages the accumulation stage takes from the queue when the
    /// poller looks: all that are there, as far as the group has room.
    pub open spec fn gathered(self) -> nat {
        let room = (self.batch_size - self.pending.len()) as nat;
        if self.channel.queue.len() <= room {
            self.channel.queue.len()
        } else {
            room
        }
    }

    /// The receiver after the accumulation stage has taken what it can from
    /// the front of the queue.
    pub open spec fn gather(self) -> Self {
        let n = self.gathered() as int;
        Model {
            channel: ChannelView {
                queue: self.channel.queue.subrange(n, self.channel.queue.len() as int),
                ..self.channel
            },
            pending: self.pending + self.channel.queue.subrange(0, n),
            ..self
        }
    }

    /// Whether what has been gathered goes out as a group: always when it is
    /// a full group; when it is less, but something, in ready mode at once,
    /// and in strict mode only if the queue is closed, so that no more can
    /// come.
    pub open spec fn group_ready(self) -> bool {
        ||| self.pending.len() >= self.batch_size
        ||| self.pending.len() > 0 && (self.when_ready || self.channel.closed)
    }

    /// The poller may look at the queue: it is draining and the pool has a
    /// free slot.
    pub open spec fn may_pull(self) -> bool {
        self.phase is Draining && self.in_flight < self.max_parallel
    }

    /// What the poller does when nothing in particular has happened. If it
    /// may look at the queue, it gathers; then it dispatches the gathered
    /// messages as one unit if they go out as a group, else requests the
    /// finalize hook if nothing is gathered, the queue is closed and empty
    /// and every handler call has been seen to complete, else waits. A
    /// terminated poller only ever says that it is done.
    pub open spec fn wake<E>(self) -> (Self, Action<Seq<M>, E>) {
        if self.phase is Terminated {
            (self, Action::Exit)
        } else if self.may_pull() {
            let g = self.gather();
            if g.group_ready() {
                (
                    Model { pending: Seq::empty(), in_flight: g.in_flight + 1, ..g },
                    Action::Dispatch(g.pending),
                )
            } else if g.pending.len() == 0 && g.channel.is_exhausted() && g.in_flight == 0 {
                (Model { phase: Phase::Finalizing, ..g }, Action::Finalize)
            } else {
                (g, Action::Wait)
            }
        } else {
            (self, Action::Wait)
        }
    }

    /// An event that can occur in this state: a completion needs a handler
    /// call under way, the end of the finalize hook needs the hook to have
    /// been requested. A group holds at least one message, so with a
    /// `batch_size` of zero there is nothing a poller could do, and no event
    /// is admitted at all.
    pub open spec fn admits<E>(self, event: Event<E>) -> bool {
        self.batch_size > 0 && match event {
            Event::Wake => true,
            Event::Completed(_) => self.in_flight > 0,
            Event::Finalized(_) => self.phase is Finalizing,
        }
    }

    /// The receiver after one handler call was seen to complete.
    pub open spec fn release(self) -> Self {
        Model { in_flight: (self.in_flight - 1) as nat, ..self }
    }

    /// What is still to be done before the poller of a closed receiver has
    /// stopped: at most two steps for each message not yet dispatched (the
    /// dispatch of its group and the completion), one for each handler call
    /// under way, and the request and the end of the finalize hook.
    pub open spec fn work_left(self) -> nat {
        2 * (self.channel.queue.len() + self.pending.len()) + self.in_flight + match self.phase {
            Phase::Draining => 2nat,
            Phase::Finalizing => 1nat,
            Phase::Terminated => 0nat,
        }
    }

    /// The poller's step: the next state and the action asked of the driver.
    ///
    /// A completion frees its slot whatever its outcome. A failure is handed
    /// out to be reported and nothing else happens in that step; any other
    /// outcome lets the poller go on as after a wake. The end of the finalize
    /// hook terminates the poller, after its failure, if any, was handed out.
    pub open spec fn poll<E>(self, event: Event<E>) -> (Self, Action<Seq<M>, E>) {
        match event {
            Event::Wake => self.wake(),
            Event::Completed(outcome) => match outcome {
                Outcome::Failed(err) => (self.release(), Action::Forward(err)),
                _ => self.release().wake(),
            },
            Event::Finalized(outcome) => {
                let done = Model { phase: Phase::Terminated, ..self };
                match outcome {
                    Outcome::Failed(err) => (done, Action::Forward(err)),
                    _ => (done, Action::Exit),
                }
            },
        }
    }
}

impl<M> Model<M> {
    /// An idle receiver reports no queued message, no gathered message and no
    /// running handler call.
    pub proof fn lemma_idle_counters(self)
        requires
            self.is_idle(),
        ensures
            self.stats()[0] == ("buffer"@, 0nat),
            self.stats()[2] == ("parallel"@, 0nat),
            self.stats()[4] == ("batch"@, 0nat),
    {
    }

    /// The operations of a receiver keep its invariant.
    pub proof fn lemma_inv_preserved<E>(self, m: M, event: Event<E>)
        requires
            self.inv(),
        ensures
            self.try_send(m).inv(),
            self.close().inv(),
            self.admits(event) ==> self.poll(event).0.inv(),
    {
    }

    /// Ready mode: when the poller may look at the queue and finds messages
    /// there, all of them, up to `batch_size`, leave at once as one group,
    /// oldest first; nothing is held back in the accumulation stage.
    pub proof fn lemma_ready_mode_takes_what_is_there<E>(self)
        requires
            self.inv(),
            self.batch_size > 0,
            self.when_ready,
            self.may_pull(),
            self.channel.queue.len() > 0,
        ensures
            self.gathered() == (if self.channel.queue.len() <= self.batch_size {
                self.channel.queue.len()
            } else {
                self.batch_size
            }),
            self.wake::<E>().1 == Action::<Seq<M>, E>::Dispatch(
                self.channel.queue.subrange(0, self.gathered() as int),
            ),
            self.wake::<E>().0.pending.len() == 0,
            self.wake::<E>().0.channel.queue == self.channel.queue.subrange(
                self.gathered() as int,
                self.channel.queue.len() as int,
            ),
            self.wake::<E>().0.in_flight == self.in_flight + 1,
    {
        assert(self.pending + self.channel.queue.subrange(0, self.gathered() as int)
            =~= self.channel.queue.subrange(0, self.gathered() as int));
    }

    /// Strict mode: while the queue is open, the poller dispatches exactly
    /// when the gathered and the queued messages together fill a group, and
    /// then the group is a full one. Otherwise it moves what is queued into
    /// the accumulation stage and waits.
    pub proof fn lemma_strict_mode_waits_for_full_group<E>(self)
        requires
            self.inv(),
            self.batch_size > 0,
            !self.when_ready,
            !self.channel.closed,
            self.may_pull(),
        ensures
            self.wake::<E>().1 is Dispatch <==> self.pending.len() + self.channel.queue.len()
                >= self.batch_size,
            self.wake::<E>().1 matches Action::Dispatch(group) ==> group.len() == self.batch_size
                && group == self.pending + self.channel.queue.subrange(
                0,
                self.batch_size - self.pending.len(),
            ),
            !(self.wake::<E>().1 is Dispatch) ==> {
                &&& self.wake::<E>().1 is Wait
                &&& self.wake::<E>().0.pending == self.pending + self.channel.queue
                &&& self.wake::<E>().0.channel.queue.len() == 0
                &&& self.wake::<E>().0.in_flight == self.in_flight
            },
    {
        let q = self.channel.queue;
        assert(q.subrange(0, q.len() as int) =~= q);
    }

    /// The end is final: a terminated poller answers every wake by saying
    /// that it is done, no other event can reach it, and its receiver stays
    /// closed, empty and idle, refusing whatever is offered.
    pub proof fn lemma_terminated_is_final<E>(self, m: M, event: Event<E>)
        requires
            self.inv(),
            self.phase is Terminated,
        ensures
            self.admits(event) ==> event is Wake && self.poll(event) == (
                self,
                Action::<Seq<M>, E>::Exit,
            ),
            self.try_send_result(m) == Err::<(), SendError<M>>(SendError::Closed(m)),
            self.try_send(m) == self,
            self.close() == self,
            self.is_idle(),
    {
    }

    /// Isolation of failures: a handler call that fails frees its slot like
    /// one that succeeds. Apart from the error being handed out, the poller
    /// goes on exactly as it would have after a success.
    pub proof fn lemma_failure_isolated<E>(self, err: E)
        requires
            self.admits(Event::Completed(Outcome::Failed(err))),
        ensures
            self.poll(Event::Completed(Outcome::Failed(err))) == (
                self.release(),
                Action::<Seq<M>, E>::Forward(err),
            ),
            self.poll(Event::Completed(Outcome::Failed(err))).0.poll(Event::<E>::Wake)
                == self.poll(Event::<E>::Completed(Outcome::Succeeded)),
            self.poll(Event::<E>::Completed(Outcome::Aborted)) == self.poll(
                Event::<E>::Completed(Outcome::Succeeded),
            ),
    {
    }

    /// Winding down: in a closed receiver whose pool has at least one slot,
    /// no step adds work, every step but an idle wake removes some, and the
    /// poller only waits while a handler call or the finalize hook is still
    /// to report back. So the poller requests the finalize hook and stops
    /// after finitely many completions.
    pub proof fn lemma_closed_receiver_winds_down<E>(self, event: Event<E>)
        requires
            self.inv(),
            self.admits(event),
            self.channel.closed,
            self.max_parallel > 0,
        ensures
            self.poll(event).0.channel.closed,
            self.poll(event).0.work_left() <= self.work_left(),
            !(event is Wake) ==> self.poll(event).0.work_left() < self.work_left(),
            self.poll(event).1 is Dispatch || self.poll(event).1 is Finalize ==> self.poll(
                event,
            ).0.work_left() < self.work_left(),
            self.poll(event).1 is Wait ==> self.poll(event).0.in_flight > 0 || self.poll(
                event,
            ).0.phase is Finalizing,
            self.poll(event).1 is Exit ==> self.poll(event).0.phase is Terminated,
            self.poll(event).0.phase is Terminated <==> self.poll(event).0.work_left() == 0,
    {
    }
}

} // verus!
