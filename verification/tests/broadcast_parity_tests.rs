//! The relay server runs on `tokio::sync::broadcast`; the library proves
//! the routing properties on its own hub model. These tests hold the two
//! side by side on the same scenarios.

use buzzer_core::msg::Message;
use buzzer_core::router::{BroadcastHub, RecvOutcome};
use tokio::sync::broadcast;

/// Publishing with zero subscribers goes through and leaves the channel
/// usable; a subscriber attached afterwards sees only later messages.
#[test]
fn late_subscriber_parity_with_tokio() {
    let (tx, _) = broadcast::channel::<Message>(10);
    let mut hub = BroadcastHub::new(10);
    for i in 0..4 {
        tx.send(Message::Ping(i)).ok();
        hub.publish(Message::Ping(i));
    }
    let mut rx = tx.subscribe();
    let id = hub.subscribe();
    assert!(matches!(rx.try_recv(), Err(broadcast::error::TryRecvError::Empty)));
    assert_eq!(hub.recv(id), RecvOutcome::Empty);

    tx.send(Message::InitBoard).unwrap();
    hub.publish(Message::InitBoard);
    assert_eq!(rx.try_recv().unwrap(), Message::InitBoard);
    assert_eq!(hub.recv(id), RecvOutcome::Msg(Message::InitBoard));
    assert!(matches!(rx.try_recv(), Err(broadcast::error::TryRecvError::Empty)));
    assert_eq!(hub.recv(id), RecvOutcome::Empty);
}

/// A subscriber that falls more than the capacity behind misses the
/// overrun messages and resumes at the oldest retained one.
#[test]
fn lagged_subscriber_parity_with_tokio() {
    let (tx, mut rx) = broadcast::channel::<Message>(2);
    let mut hub = BroadcastHub::new(2);
    let id = hub.subscribe();
    for i in 0..5 {
        tx.send(Message::Ping(i)).unwrap();
        hub.publish(Message::Ping(i));
    }
    match rx.try_recv() {
        Err(broadcast::error::TryRecvError::Lagged(missed)) => assert_eq!(missed, 3),
        other => panic!("expected a lag report, got {other:?}"),
    }
    assert_eq!(hub.recv(id), RecvOutcome::Lagged { missed: 3 });
    assert_eq!(rx.try_recv().unwrap(), Message::Ping(3));
    assert_eq!(hub.recv(id), RecvOutcome::Msg(Message::Ping(3)));
    assert_eq!(rx.try_recv().unwrap(), Message::Ping(4));
    assert_eq!(hub.recv(id), RecvOutcome::Msg(Message::Ping(4)));
    assert!(matches!(rx.try_recv(), Err(broadcast::error::TryRecvError::Empty)));
    assert_eq!(hub.recv(id), RecvOutcome::Empty);
}
