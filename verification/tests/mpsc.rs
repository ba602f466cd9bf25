use dispatch_core::receiver::SendError;
use dispatch_core::receivers::mpsc::{channel, Channel};

#[test]
fn new_channel_is_open_and_empty() {
    let ch: Channel<u8> = channel(3);
    assert_eq!(ch.capacity(), 3);
    assert_eq!(ch.len(), 0);
    assert!(ch.is_empty());
    assert!(!ch.is_closed());
    assert!(ch.has_capacity());
}

#[test]
fn channel_hands_messages_out_oldest_first() {
    let mut ch = channel(4);
    for m in ["a", "b", "c"] {
        assert_eq!(ch.try_send(m), Ok(()));
    }
    assert_eq!(ch.len(), 3);
    assert_eq!(ch.try_recv(), Some("a"));
    assert_eq!(ch.try_send("d"), Ok(()));
    assert_eq!(ch.try_recv(), Some("b"));
    assert_eq!(ch.try_recv(), Some("c"));
    assert_eq!(ch.try_recv(), Some("d"));
    assert_eq!(ch.try_recv(), None);
    assert!(ch.is_empty());
}

#[test]
fn channel_refuses_when_full_and_accepts_again_after_a_take() {
    let mut ch = channel(2);
    assert_eq!(ch.try_send(1), Ok(()));
    assert_eq!(ch.try_send(2), Ok(()));
    assert!(!ch.has_capacity());
    assert_eq!(ch.try_send(3), Err(SendError::Full(3)));
    assert_eq!(ch.len(), 2);
    assert_eq!(ch.try_recv(), Some(1));
    assert!(ch.has_capacity());
    assert_eq!(ch.try_send(3), Ok(()));
    assert_eq!(ch.try_recv(), Some(2));
    assert_eq!(ch.try_recv(), Some(3));
}

#[test]
fn channel_of_capacity_zero_is_always_full() {
    let mut ch = channel(0);
    assert!(!ch.has_capacity());
    assert_eq!(ch.try_send('x'), Err(SendError::Full('x')));
    assert_eq!(ch.try_recv(), None);
}

#[test]
fn closed_channel_refuses_offers_and_still_yields_what_was_queued() {
    let mut ch = channel(4);
    assert_eq!(ch.try_send(10), Ok(()));
    assert_eq!(ch.try_send(20), Ok(()));
    ch.close();
    assert!(ch.is_closed());
    assert_eq!(ch.try_send(30), Err(SendError::Closed(30)));
    assert_eq!(ch.len(), 2);
    assert_eq!(ch.try_recv(), Some(10));
    assert_eq!(ch.try_recv(), Some(20));
    assert_eq!(ch.try_recv(), None);
    assert!(ch.is_closed());
    assert_eq!(ch.try_send(40), Err(SendError::Closed(40)));
}

#[test]
fn taking_from_an_empty_channel_changes_nothing() {
    let mut ch: Channel<u64> = channel(1);
    assert_eq!(ch.try_recv(), None);
    assert_eq!(ch.len(), 0);
    assert_eq!(ch.capacity(), 1);
    assert!(!ch.is_closed());
    assert_eq!(ch.try_send(5), Ok(()));
    assert_eq!(ch.try_recv(), Some(5));
}
