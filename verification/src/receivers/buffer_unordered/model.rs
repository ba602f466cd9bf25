//! The receiver as a transition system over mathematical values. The
//! executable receiver is specified by these transitions, and the laws of the
//! receiver are proved about them.
use super::BufferUnorderedConfig;
use crate::receiver::{Action, Event, Outcome, Phase, SendError};
use crate::receivers::mpsc::ChannelView;
use vstd::prelude::*;

verus! {

/// Everything that decides how a receiver behaves.
pub struct Model<M> {
    /// The queue between producers and poller.
    pub channel: ChannelView<M>,
    /// Bound on the handler calls that run at once.
    pub max_parallel: nat,
    /// Handler calls dispatched and not yet reported complete.
    pub in_flight: nat,
    /// Where the poller stands in its life cycle.
    pub phase: Phase,
}

impl<M> Model<M> {
    /// A receiver fresh from its builder: open, empty, idle, draining.
    pub open spec fn init(cfg: BufferUnorderedConfig) -> Self {
        Model {
            channel: ChannelView::empty(cfg.buffer_size as nat),
            max_parallel: cfg.max_parallel as nat,
            in_flight: 0,
            phase: Phase::Draining,
        }
    }

    /// What holds of every receiver at all times: the queue is within its
    /// capacity, the pool within its bound, and a poller that has left the
    /// draining phase has left nothing behind.
    pub open spec fn inv(self) -> bool {
        &&& self.channel.wf()
        &&& self.in_flight <= self.max_parallel
        &&& !(self.phase is Draining) ==> self.in_flight == 0 && self.channel.is_exhausted()
    }

    /// No message is queued and no handler call is under way.
    pub open spec fn is_idle(self) -> bool {
        self.channel.queue.len() == 0 && self.in_flight == 0
    }

    /// The snapshot of the counters, in the order in which it is reported.
    pub open spec fn stats(self) -> Seq<(Seq<char>, nat)> {
        seq![
            ("buffer"@, self.channel.queue.len()),
            ("buffer_total"@, self.channel.capacity),
            ("parallel"@, self.in_flight),
            ("parallel_total"@, self.max_parallel),
        ]
    }

    /// The receiver after a producer offered `m`.
    pub open spec fn try_send(self, m: M) -> Self {
        Model { channel: self.channel.send(m), ..self }
    }

    /// The answer given to a producer offering `m`.
    pub open spec fn try_send_result(self, m: M) -> Result<(), SendError<M>> {
        self.channel.send_result(m)
    }

    /// The receiver after its producing side was closed.
    pub open spec fn close(self) -> Self {
        Model { channel: self.channel.close(), ..self }
    }

    /// The poller may start another handler call: it is draining, the pool has
    /// a free slot and a message is waiting.
    pub open spec fn can_dispatch(self) -> bool {
        &&& self.phase is Draining
        &&& self.in_flight < self.max_parallel
        &&& self.channel.queue.len() > 0
    }

    /// The poller may run the finalize hook: it is draining, it is allowed to
    /// look at the queue, the queue is closed and empty, and every handler
    /// call has been seen to complete.
    pub open spec fn can_finalize(self) -> bool {
        &&& self.phase is Draining
        &&& self.in_flight < self.max_parallel
        &&& self.in_flight == 0
        &&& self.channel.is_exhausted()
    }

    /// What the poller does when nothing in particular has happened: start
    /// the next handler call if it may, else request the finalize hook if it
    /// may, else wait. A terminated poller only ever says that it is done.
    pub open spec fn wake<E>(self) -> (Self, Action<M, E>) {
        if self.phase is Terminated {
            (self, Action::Exit)
        } else if self.can_dispatch() {
            (
                Model {
                    channel: self.channel.recv(),
                    in_flight: self.in_flight + 1,
                    ..self
                },
                Action::Dispatch(self.channel.queue.first()),
            )
        } else if self.can_finalize() {
            (Model { phase: Phase::Finalizing, ..self }, Action::Finalize)
        } else {
            (self, Action::Wait)
        }
    }

    /// An event that can occur in this state: a completion needs a handler
    /// call under way, the end of the finalize hook needs the hook to have
    /// been requested.
    pub open spec fn admits<E>(self, event: Event<E>) -> bool {
        match event {
            Event::Wake => true,
            Event::Completed(_) => self.in_flight > 0,
            Event::Finalized(_) => self.phase is Finalizing,
        }
    }

    /// The receiver after one handler call was seen to complete.
    pub open spec fn release(self) -> Self {
        Model { in_flight: (self.in_flight - 1) as nat, ..self }
    }

    /// What is still to be done before the poller of a closed receiver has
    /// stopped: two steps for each queued message (its dispatch and its
    /// completion), one for each handler call under way, and the request and
    /// the end of the finalize hook.
    pub open spec fn work_left(self) -> nat {
        2 * self.channel.queue.len() + self.in_flight + match self.phase {
            Phase::Draining => 2nat,
            Phase::Finalizing => 1nat,
            Phase::Terminated => 0nat,
        }
    }

    /// The poller's step: the next state and the action asked of the driver.
    ///
    /// A completion frees its slot whatever its outcome. A failure is handed
    /// out to be reported and nothing else happens in that step; any other
    /// outcome lets the poller go on as after a wake. The end of the finalize
    /// hook terminates the poller, after its failure, if any, was handed out.
    pub open spec fn poll<E>(self, event: Event<E>) -> (Self, Action<M, E>) {
        match event {
            Event::Wake => self.wake(),
            Event::Completed(outcome) => match outcome {
                Outcome::Failed(err) => (self.release(), Action::Forward(err)),
                _ => self.release().wake(),
            },
            Event::Finalized(outcome) => {
                let done = Model { phase: Phase::Terminated, ..self };
                match outcome {
                    Outcome::Failed(err) => (done, Action::Forward(err)),
                    _ => (done, Action::Exit),
                }
            },
        }
    }
}

impl<M> Model<M> {
    /// An idle receiver reports no queued message and no running handler call.
    pub proof fn lemma_idle_counters(self)
        requires
            self.is_idle(),
        ensures
            self.stats()[0] == ("buffer"@, 0nat),
            self.stats()[2] == ("parallel"@, 0nat),
    {
    }

    /// The operations of a receiver keep its invariant.
    pub proof fn lemma_inv_preserved<E>(self, m: M, event: Event<E>)
        requires
            self.inv(),
        ensures
            self.try_send(m).inv(),
            self.close().inv(),
            self.admits(event) ==> self.poll(event).0.inv(),
    {
    }

    /// The end is final: a terminated poller answers every wake by saying
    /// that it is done, no other event can reach it, and its receiver stays
    /// closed, empty and idle, refusing whatever is offered.
    pub proof fn lemma_terminated_is_final<E>(self, m: M, event: Event<E>)
        requires
            self.inv(),
            self.phase is Terminated,
        ensures
            self.admits(event) ==> event is Wake && self.poll(event) == (
                self,
                Action::<M, E>::Exit,
            ),
            self.try_send_result(m) == Err::<(), SendError<M>>(SendError::Closed(m)),
            self.try_send(m) == self,
            self.close() == self,
            self.is_idle(),
    {
    }

    /// Isolation of failures: a handler call that fails frees its slot like
    /// one that succeeds. Apart from the error being handed out, the poller
    /// goes on exactly as it would have after a success.
    pub proof fn lemma_failure_isolated<E>(self, err: E)
        requires
            self.admits(Event::Completed(Outcome::Failed(err))),
        ensures
            self.poll(Event::Completed(Outcome::Failed(err))) == (
                self.release(),
                Action::<M, E>::Forward(err),
            ),
            self.poll(Event::Completed(Outcome::Failed(err))).0.poll(Event::<E>::Wake)
                == self.poll(Event::<E>::Completed(Outcome::Succeeded)),
            self.poll(Event::<E>::Completed(Outcome::Aborted)) == self.poll(
                Event::<E>::Completed(Outcome::Succeeded),
            ),
    {
    }

    /// Winding down: in a closed receiver whose pool has at least one slot,
    /// no step adds work, every step but an idle wake removes some, and the
    /// poller only waits while a handler call or the finalize hook is still
    /// to report back. So the poller requests the finalize hook and stops
    /// after finitely many completions.
    pub proof fn lemma_closed_receiver_winds_down<E>(self, event: Event<E>)
        requires
            self.inv(),
            self.admits(event),
            self.channel.closed,
            self.max_parallel > 0,
        ensures
            self.poll(event).0.channel.closed,
            self.poll(event).0.work_left() <= self.work_left(),
            !(event is Wake) ==> self.poll(event).0.work_left() < self.work_left(),
            self.poll(event).1 is Dispatch || self.poll(event).1 is Finalize ==> self.poll(
                event,
            ).0.work_left() < self.work_left(),
            self.poll(event).1 is Wait ==> self.poll(event).0.in_flight > 0 || self.poll(
                event,
            ).0.phase is Finalizing,
            self.poll(event).1 is Exit ==> self.poll(event).0.phase is Terminated,
            self.poll(event).0.phase is Terminated <==> self.poll(event).0.work_left() == 0,
    {
    }
}

} // verus!
