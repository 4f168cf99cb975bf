use buzzer_core::codec::encode;
use buzzer_core::msg::{ButtonPress, LedUpdate, Message};
use buzzer_core::session::{LinkState, Session, SessionAction, SessionEvent};

fn connected_session() -> Session {
    let mut s = Session::new();
    let action = s.step(SessionEvent::StartConnect);
    assert!(matches!(action, SessionAction::Connect));
    assert_eq!(s.link_state(), LinkState::Connecting);
    let action = s.step(SessionEvent::ConnectSucceeded);
    assert!(matches!(action, SessionAction::Idle));
    assert_eq!(s.link_state(), LinkState::Connected);
    s
}

#[test]
fn fresh_session_is_disconnected() {
    let s = Session::new();
    assert_eq!(s.link_state(), LinkState::Disconnected);
}

#[test]
fn failed_connect_backs_off_and_stays_down() {
    let mut s = Session::new();
    let action = s.step(SessionEvent::StartConnect);
    assert!(matches!(action, SessionAction::Connect));
    let action = s.step(SessionEvent::ConnectFailed);
    assert!(matches!(action, SessionAction::Backoff));
    assert_eq!(s.link_state(), LinkState::Disconnected);
}

/// Epoch-relative timestamping: a press that predates the epoch computes
/// a relative time of zero and is discarded — never serialized.
#[test]
fn press_before_epoch_is_discarded() {
    let mut s = connected_session();
    let action = s.step(SessionEvent::DataRead { data: encode(&Message::InitBoard), now_millis: 1000 });
    assert!(matches!(action, SessionAction::Idle));
    let action = s.step(SessionEvent::ButtonPressed { button_id: 3, press_time_millis: 900 });
    assert!(matches!(action, SessionAction::Idle));
    // A press exactly at the epoch also computes zero and is discarded.
    let action = s.step(SessionEvent::ButtonPressed { button_id: 3, press_time_millis: 1000 });
    assert!(matches!(action, SessionAction::Idle));
}

/// A press after the epoch goes out as the encoded wire bytes, stamped
/// relative to the epoch.
#[test]
fn press_after_epoch_is_transmitted() {
    let mut s = connected_session();
    let action = s.step(SessionEvent::DataRead {
        data: encode(&Message::InitReactionGame(2)),
        now_millis: 1000,
    });
    assert!(matches!(action, SessionAction::Idle));
    match s.step(SessionEvent::ButtonPressed { button_id: 3, press_time_millis: 2500 }) {
        SessionAction::Transmit(bytes) => {
            let expected =
                encode(&Message::ButtonPress(ButtonPress { button_id: 3, millis_since_init: 1500 }));
            assert_eq!(bytes, expected);
        }
        _ => panic!("press after the epoch must be transmitted"),
    }
}

/// Before any init message the epoch is zero, so the press time itself is
/// the relative stamp.
#[test]
fn press_with_zero_epoch_uses_boot_time() {
    let mut s = connected_session();
    match s.step(SessionEvent::ButtonPressed { button_id: 0, press_time_millis: 42 }) {
        SessionAction::Transmit(bytes) => {
            let expected =
                encode(&Message::ButtonPress(ButtonPress { button_id: 0, millis_since_init: 42 }));
            assert_eq!(bytes, expected);
        }
        _ => panic!("press must be transmitted"),
    }
}

/// Three consecutive zero-byte reads with no decode progress force a
/// reconnect; any progress clears the counter.
#[test]
fn zero_progress_reads_force_reconnect() {
    let mut s = connected_session();
    // Leave one undecodable byte pending: reads make no progress now.
    let action = s.step(SessionEvent::DataRead { data: vec![9], now_millis: 0 });
    assert!(matches!(action, SessionAction::Idle));
    for _ in 0..2 {
        let action = s.step(SessionEvent::DataRead { data: vec![], now_millis: 0 });
        assert!(matches!(action, SessionAction::Idle));
        assert_eq!(s.link_state(), LinkState::Connected);
    }
    let action = s.step(SessionEvent::DataRead { data: vec![], now_millis: 0 });
    assert!(matches!(action, SessionAction::Idle));
    assert_eq!(s.link_state(), LinkState::Disconnected);
}

#[test]
fn fresh_bytes_clear_the_zero_progress_count() {
    let mut s = connected_session();
    let action = s.step(SessionEvent::DataRead { data: vec![9], now_millis: 0 });
    assert!(matches!(action, SessionAction::Idle));
    for _ in 0..2 {
        s.step(SessionEvent::DataRead { data: vec![], now_millis: 0 });
    }
    // New bytes arrive: progress, counter resets, session stays up.
    s.step(SessionEvent::DataRead { data: vec![9], now_millis: 0 });
    for _ in 0..2 {
        let action = s.step(SessionEvent::DataRead { data: vec![], now_millis: 0 });
        assert!(matches!(action, SessionAction::Idle));
        assert_eq!(s.link_state(), LinkState::Connected);
    }
}

#[test]
fn connection_reset_on_read_reconnects() {
    let mut s = connected_session();
    let action = s.step(SessionEvent::ReadFailed { connection_reset: true });
    assert!(matches!(action, SessionAction::Idle));
    assert_eq!(s.link_state(), LinkState::Disconnected);
}

#[test]
fn other_read_errors_are_tolerated() {
    let mut s = connected_session();
    let action = s.step(SessionEvent::ReadFailed { connection_reset: false });
    assert!(matches!(action, SessionAction::Idle));
    assert_eq!(s.link_state(), LinkState::Connected);
}

#[test]
fn connection_reset_on_write_reconnects() {
    let mut s = connected_session();
    let action = s.step(SessionEvent::WriteFailed { connection_reset: true });
    assert!(matches!(action, SessionAction::Idle));
    assert_eq!(s.link_state(), LinkState::Disconnected);
    let mut s = connected_session();
    let action = s.step(SessionEvent::WriteFailed { connection_reset: false });
    assert!(matches!(action, SessionAction::Idle));
    assert_eq!(s.link_state(), LinkState::Connected);
}

/// A received LED command lands in the LED queue; pings and stray button
/// presses change nothing.
#[test]
fn led_update_is_queued_for_the_output_task() {
    let mut s = connected_session();
    let mut data = encode(&Message::Ping(1));
    data.extend_from_slice(&encode(&Message::LedUpdate(LedUpdate { button_id: 4, on: true })));
    data.extend_from_slice(&encode(&Message::ButtonPress(ButtonPress {
        button_id: 1,
        millis_since_init: 5,
    })));
    let action = s.step(SessionEvent::DataRead { data, now_millis: 3 });
    assert!(matches!(action, SessionAction::Idle));
    assert_eq!(s.next_led_command(), Some(LedUpdate { button_id: 4, on: true }));
    assert_eq!(s.next_led_command(), None);
}

/// A message split across reads is dispatched once the rest arrives.
#[test]
fn split_init_message_resets_epoch_when_complete() {
    let mut s = connected_session();
    let bytes = encode(&Message::InitReactionGame(1));
    s.step(SessionEvent::DataRead { data: bytes[..2].to_vec(), now_millis: 500 });
    s.step(SessionEvent::DataRead { data: bytes[2..].to_vec(), now_millis: 800 });
    // The epoch was reset at 800, when the message completed.
    let action = s.step(SessionEvent::ButtonPressed { button_id: 2, press_time_millis: 800 });
    assert!(matches!(action, SessionAction::Idle));
    match s.step(SessionEvent::ButtonPressed { button_id: 2, press_time_millis: 801 }) {
        SessionAction::Transmit(bytes) => {
            let expected =
                encode(&Message::ButtonPress(ButtonPress { button_id: 2, millis_since_init: 1 }));
            assert_eq!(bytes, expected);
        }
        _ => panic!("press one millisecond after the epoch must be transmitted"),
    }
}

/// Reconnecting clears the receive buffer: stale half-messages from the
/// old connection never pollute the new one.
#[test]
fn reconnect_clears_pending_bytes() {
    let mut s = connected_session();
    let bytes = encode(&Message::LedUpdate(LedUpdate { button_id: 2, on: true }));
    s.step(SessionEvent::DataRead { data: bytes[..2].to_vec(), now_millis: 0 });
    s.step(SessionEvent::ReadFailed { connection_reset: true });
    s.step(SessionEvent::StartConnect);
    let action = s.step(SessionEvent::ConnectSucceeded);
    assert!(matches!(action, SessionAction::Idle));
    // Had the two stale bytes survived the reconnect, this tail byte would
    // complete the LED command; it must not.
    let action = s.step(SessionEvent::DataRead { data: bytes[2..].to_vec(), now_millis: 0 });
    assert!(matches!(action, SessionAction::Idle));
    assert_eq!(s.next_led_command(), None);
}
