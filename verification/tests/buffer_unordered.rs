use dispatch_core::receiver::{Action, Event, Outcome, Phase, Poll, SendError};
use dispatch_core::receivers::buffer_unordered::sync::{
    buffer_unordered_poller, BufferUnorderedSync,
};
use dispatch_core::receivers::buffer_unordered::BufferUnorderedConfig;

struct Handler;

type Error = &'static str;

fn receiver(buffer_size: usize, max_parallel: usize) -> BufferUnorderedSync<u32> {
    let cfg = BufferUnorderedConfig { buffer_size, max_parallel };
    let entry = BufferUnorderedSync::<u32>::build::<Handler>(cfg);
    assert_eq!(entry.cfg(), cfg);
    entry.subscribe()
}

fn wake(rx: &mut BufferUnorderedSync<u32>) -> Action<u32, Error> {
    buffer_unordered_poller(rx, Event::Wake)
}

fn complete(rx: &mut BufferUnorderedSync<u32>, outcome: Outcome<Error>) -> Action<u32, Error> {
    assert!(rx.admits(&Event::Completed(Outcome::<Error>::Succeeded)));
    buffer_unordered_poller(rx, Event::Completed(outcome))
}

fn finalized(rx: &mut BufferUnorderedSync<u32>, outcome: Outcome<Error>) -> Action<u32, Error> {
    assert!(rx.admits(&Event::Finalized(Outcome::<Error>::Succeeded)));
    buffer_unordered_poller(rx, Event::Finalized(outcome))
}

fn counter(rx: &BufferUnorderedSync<u32>, name: &str) -> u64 {
    let stats = rx.stats("u32");
    let mut found = None;
    for (field, value) in stats.fields {
        if field == name {
            assert!(found.is_none());
            found = Some(value);
        }
    }
    found.unwrap()
}

#[test]
fn subscribe_starts_open_empty_and_idle() {
    let rx = receiver(4, 2);
    assert_eq!(rx.phase(), Phase::Draining);
    assert_eq!(rx.len(), 0);
    assert_eq!(rx.in_flight(), 0);
    assert!(!rx.is_closed());
    assert_eq!(rx.poll_ready(), Poll::Ready);
}

#[test]
fn stats_lists_the_four_counters_in_order() {
    let mut rx = receiver(4, 2);
    assert_eq!(rx.try_send(1), Ok(()));
    assert_eq!(rx.try_send(2), Ok(()));
    assert_eq!(rx.try_send(3), Ok(()));
    assert_eq!(wake(&mut rx), Action::Dispatch(1));
    let stats = rx.stats("demo::Msg");
    assert_eq!(stats.name, "demo::Msg");
    assert_eq!(
        stats.fields,
        vec![("buffer", 2), ("buffer_total", 4), ("parallel", 1), ("parallel_total", 2)]
    );
}

#[test]
fn full_queue_refuses_the_next_message_and_hands_it_back() {
    let capacity = 5;
    let mut rx = receiver(capacity, 1);
    for i in 0..capacity {
        assert_eq!(rx.try_send(i as u32), Ok(()));
    }
    assert_eq!(counter(&rx, "buffer"), 5);
    assert_eq!(rx.try_send(99), Err(SendError::Full(99)));
    assert_eq!(counter(&rx, "buffer"), 5);
    assert_eq!(rx.len(), 5);
    assert_eq!(rx.poll_ready(), Poll::Pending);
}

#[test]
fn queue_of_capacity_zero_refuses_every_message() {
    let mut rx = receiver(0, 1);
    assert_eq!(rx.poll_ready(), Poll::Pending);
    assert_eq!(rx.try_send(7), Err(SendError::Full(7)));
    assert_eq!(counter(&rx, "buffer"), 0);
    assert_eq!(counter(&rx, "buffer_total"), 0);
}

#[test]
fn closed_receiver_refuses_with_closed_and_keeps_statistics() {
    let mut rx = receiver(2, 1);
    assert_eq!(rx.try_send(1), Ok(()));
    rx.close();
    assert!(rx.is_closed());
    assert_eq!(rx.try_send(2), Err(SendError::Closed(2)));
    assert_eq!(counter(&rx, "buffer"), 1);
    assert_eq!(rx.len(), 1);
}

#[test]
fn closed_and_full_receiver_reports_closed() {
    let mut rx = receiver(1, 1);
    assert_eq!(rx.try_send(1), Ok(()));
    rx.close();
    assert_eq!(rx.try_send(2), Err(SendError::Closed(2)));
}

#[test]
fn rejected_message_comes_back_out_of_the_error() {
    assert_eq!(SendError::Full(41).into_inner(), 41);
    assert_eq!(SendError::Closed("late").into_inner(), "late");
    let mut rx = receiver(0, 1);
    let err = rx.try_send(13).unwrap_err();
    assert_eq!(err.into_inner(), 13);
}

#[test]
fn poll_ready_follows_the_room_in_the_queue() {
    let mut rx = receiver(1, 1);
    assert_eq!(rx.poll_ready(), Poll::Ready);
    assert_eq!(rx.try_send(1), Ok(()));
    assert_eq!(rx.poll_ready(), Poll::Pending);
    assert_eq!(wake(&mut rx), Action::Dispatch(1));
    assert_eq!(rx.poll_ready(), Poll::Ready);
}

#[test]
fn poll_synchronized_is_always_ready() {
    let mut rx = receiver(1, 1);
    assert_eq!(rx.poll_synchronized(), Poll::Ready);
    assert_eq!(rx.try_send(1), Ok(()));
    rx.sync();
    assert_eq!(rx.poll_synchronized(), Poll::Ready);
    assert_eq!(rx.len(), 1);
    assert!(!rx.is_closed());
}

#[test]
fn messages_are_dispatched_in_arrival_order() {
    let mut rx = receiver(8, 8);
    for m in [30, 10, 20, 40] {
        assert_eq!(rx.try_send(m), Ok(()));
    }
    assert_eq!(wake(&mut rx), Action::Dispatch(30));
    assert_eq!(wake(&mut rx), Action::Dispatch(10));
    assert_eq!(wake(&mut rx), Action::Dispatch(20));
    assert_eq!(wake(&mut rx), Action::Dispatch(40));
    assert_eq!(wake(&mut rx), Action::Wait);
}

#[test]
fn dispatch_moves_one_from_buffer_to_parallel() {
    let mut rx = receiver(4, 4);
    assert_eq!(rx.try_send(1), Ok(()));
    assert_eq!(rx.try_send(2), Ok(()));
    assert_eq!((counter(&rx, "buffer"), counter(&rx, "parallel")), (2, 0));
    assert_eq!(wake(&mut rx), Action::Dispatch(1));
    assert_eq!((counter(&rx, "buffer"), counter(&rx, "parallel")), (1, 1));
    assert_eq!(complete(&mut rx, Outcome::Succeeded), Action::Dispatch(2));
    assert_eq!((counter(&rx, "buffer"), counter(&rx, "parallel")), (0, 1));
    assert_eq!(complete(&mut rx, Outcome::Succeeded), Action::Wait);
    assert_eq!((counter(&rx, "buffer"), counter(&rx, "parallel")), (0, 0));
}

#[test]
fn burst_never_exceeds_max_parallel() {
    let max_parallel = 3;
    let mut rx = receiver(16, max_parallel);
    for m in 0..10 {
        assert_eq!(rx.try_send(m), Ok(()));
    }
    let mut active = 0usize;
    let mut started = Vec::new();
    let mut event = Event::Wake;
    loop {
        if let Event::Completed(_) = event {
            active -= 1;
        }
        match buffer_unordered_poller::<u32, Error>(&mut rx, event) {
            Action::Dispatch(m) => {
                active += 1;
                started.push(m);
                event = Event::Wake;
            }
            Action::Wait => {
                assert!(active == max_parallel || rx.len() == 0);
                if active == 0 {
                    break;
                }
                event = Event::Completed(Outcome::Succeeded);
            }
            other => panic!("unexpected action {:?}", other),
        }
        assert!(active <= max_parallel);
        assert_eq!(rx.in_flight(), active);
        assert_eq!(counter(&rx, "parallel"), active as u64);
    }
    assert_eq!(started, (0..10).collect::<Vec<u32>>());
}

#[test]
fn full_pool_leaves_messages_in_the_queue() {
    let mut rx = receiver(4, 1);
    assert_eq!(rx.try_send(1), Ok(()));
    assert_eq!(rx.try_send(2), Ok(()));
    assert_eq!(wake(&mut rx), Action::Dispatch(1));
    assert_eq!(wake(&mut rx), Action::Wait);
    assert_eq!(rx.len(), 1);
    assert_eq!(rx.in_flight(), 1);
}

#[test]
fn pool_of_zero_slots_never_dispatches_nor_finalizes() {
    let mut rx = receiver(4, 0);
    assert_eq!(rx.try_send(1), Ok(()));
    assert_eq!(wake(&mut rx), Action::Wait);
    rx.close();
    assert_eq!(wake(&mut rx), Action::Wait);
    assert_eq!(rx.len(), 1);

    let mut idle = receiver(4, 0);
    idle.close();
    assert_eq!(wake(&mut idle), Action::Wait);
    assert_eq!(idle.phase(), Phase::Draining);
}

#[test]
fn finalize_runs_once_after_the_last_completion() {
    let mut rx = receiver(8, 2);
    for m in [1, 2, 3] {
        assert_eq!(rx.try_send(m), Ok(()));
    }
    rx.close();
    assert_eq!(wake(&mut rx), Action::Dispatch(1));
    assert_eq!(wake(&mut rx), Action::Dispatch(2));
    assert_eq!(wake(&mut rx), Action::Wait);
    assert_eq!(complete(&mut rx, Outcome::Succeeded), Action::Dispatch(3));
    assert_eq!(wake(&mut rx), Action::Wait);
    assert_eq!(complete(&mut rx, Outcome::Succeeded), Action::Wait);
    assert_eq!(rx.phase(), Phase::Draining);
    assert_eq!(complete(&mut rx, Outcome::Succeeded), Action::Finalize);
    assert_eq!(rx.phase(), Phase::Finalizing);
    assert_eq!(wake(&mut rx), Action::Wait);
    assert_eq!(wake(&mut rx), Action::Wait);
    assert_eq!(finalized(&mut rx, Outcome::Succeeded), Action::Exit);
    assert_eq!(rx.phase(), Phase::Terminated);
    assert_eq!(wake(&mut rx), Action::Exit);
    assert_eq!(wake(&mut rx), Action::Exit);
}

#[test]
fn open_receiver_waits_instead_of_finalizing() {
    let mut rx = receiver(2, 2);
    assert_eq!(wake(&mut rx), Action::Wait);
    assert_eq!(rx.try_send(5), Ok(()));
    assert_eq!(wake(&mut rx), Action::Dispatch(5));
    assert_eq!(complete(&mut rx, Outcome::Succeeded), Action::Wait);
    assert_eq!(rx.phase(), Phase::Draining);
}

#[test]
fn closing_an_empty_idle_receiver_finalizes_at_once() {
    let mut rx = receiver(2, 2);
    rx.close();
    rx.close();
    assert_eq!(wake(&mut rx), Action::Finalize);
    assert_eq!(finalized(&mut rx, Outcome::Succeeded), Action::Exit);
}

#[test]
fn one_failure_among_five_is_reported_once_and_stops_nothing() {
    let mut rx = receiver(8, 5);
    for m in 1..=5 {
        assert_eq!(rx.try_send(m), Ok(()));
    }
    rx.close();
    for m in 1..=5 {
        assert_eq!(wake(&mut rx), Action::Dispatch(m));
    }
    assert_eq!(wake(&mut rx), Action::Wait);
    let mut forwarded = Vec::new();
    let mut completed = 0;
    for m in 1..=5 {
        let outcome = if m == 3 { Outcome::Failed("message 3 failed") } else { Outcome::Succeeded };
        let mut action = complete(&mut rx, outcome);
        completed += 1;
        if let Action::Forward(err) = action {
            forwarded.push(err);
            action = wake(&mut rx);
        }
        if m < 5 {
            assert_eq!(action, Action::Wait);
        } else {
            assert_eq!(action, Action::Finalize);
        }
        assert_eq!(rx.in_flight(), 5 - completed);
    }
    assert_eq!(completed, 5);
    assert_eq!(forwarded, vec!["message 3 failed"]);
}

#[test]
fn failure_is_handed_out_before_the_next_dispatch() {
    let mut rx = receiver(4, 1);
    assert_eq!(rx.try_send(1), Ok(()));
    assert_eq!(rx.try_send(2), Ok(()));
    assert_eq!(wake(&mut rx), Action::Dispatch(1));
    assert_eq!(complete(&mut rx, Outcome::Failed("boom")), Action::Forward("boom"));
    assert_eq!(rx.in_flight(), 0);
    assert_eq!(rx.len(), 1);
    assert_eq!(wake(&mut rx), Action::Dispatch(2));
}

#[test]
fn lost_worker_frees_its_slot_without_a_report() {
    let mut rx = receiver(4, 1);
    assert_eq!(rx.try_send(1), Ok(()));
    assert_eq!(rx.try_send(2), Ok(()));
    assert_eq!(wake(&mut rx), Action::Dispatch(1));
    assert_eq!(complete(&mut rx, Outcome::Aborted), Action::Dispatch(2));
    assert_eq!(rx.in_flight(), 1);
}

#[test]
fn finalize_failure_is_forwarded_once_and_then_the_poller_exits() {
    let mut rx = receiver(1, 1);
    rx.close();
    assert_eq!(wake(&mut rx), Action::Finalize);
    assert_eq!(finalized(&mut rx, Outcome::Failed("sync failed")), Action::Forward("sync failed"));
    assert_eq!(rx.phase(), Phase::Terminated);
    assert_eq!(wake(&mut rx), Action::Exit);
}

#[test]
fn lost_finalize_worker_still_ends_the_poller() {
    let mut rx = receiver(1, 1);
    rx.close();
    assert_eq!(wake(&mut rx), Action::Finalize);
    assert_eq!(finalized(&mut rx, Outcome::Aborted), Action::Exit);
    assert_eq!(rx.phase(), Phase::Terminated);
}

#[test]
fn counters_read_zero_when_idle_after_throughput() {
    let mut rx = receiver(3, 2);
    for round in 0..4 {
        for m in 0..3 {
            assert_eq!(rx.try_send(round * 3 + m), Ok(()));
        }
        let mut active = 0;
        loop {
            match wake(&mut rx) {
                Action::Dispatch(_) => active += 1,
                Action::Wait if active > 0 => {
                    active -= 1;
                    if let Action::Dispatch(_) = complete(&mut rx, Outcome::Succeeded) {
                        active += 1;
                    }
                }
                Action::Wait => break,
                other => panic!("unexpected action {:?}", other),
            }
        }
        assert_eq!(counter(&rx, "buffer"), 0);
        assert_eq!(counter(&rx, "parallel"), 0);
        assert_eq!(counter(&rx, "buffer_total"), 3);
        assert_eq!(counter(&rx, "parallel_total"), 2);
    }
}

#[test]
fn admits_says_which_events_can_occur() {
    let mut rx = receiver(2, 1);
    let done: Event<Error> = Event::Completed(Outcome::Succeeded);
    let hook: Event<Error> = Event::Finalized(Outcome::Succeeded);
    assert!(rx.admits(&Event::<Error>::Wake));
    assert!(!rx.admits(&done));
    assert!(!rx.admits(&hook));
    assert_eq!(rx.try_send(1), Ok(()));
    assert_eq!(wake(&mut rx), Action::Dispatch(1));
    assert!(rx.admits(&done));
    assert!(!rx.admits(&hook));
    rx.close();
    assert_eq!(complete(&mut rx, Outcome::Succeeded), Action::Finalize);
    assert!(!rx.admits(&done));
    assert!(rx.admits(&hook));
    assert_eq!(finalized(&mut rx, Outcome::Succeeded), Action::Exit);
    assert!(!rx.admits(&done));
    assert!(!rx.admits(&hook));
    assert!(rx.admits(&Event::<Error>::Wake));
}
