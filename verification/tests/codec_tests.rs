use buzzer_core::codec::{decode_one, encode, DecodeError};
use buzzer_core::msg::{ButtonPress, LedUpdate, Message};

fn roundtrip(m: Message) {
    let bytes = encode(&m);
    let (decoded, consumed) = decode_one(&bytes).expect("complete encoding must decode");
    assert_eq!(decoded, m);
    assert_eq!(consumed, bytes.len());
}

#[test]
fn encode_init_board_bytes() {
    assert_eq!(encode(&Message::InitBoard), vec![0u8]);
}

#[test]
fn encode_init_reaction_game_bytes() {
    assert_eq!(encode(&Message::InitReactionGame(7)), vec![1u8, 7, 0, 0, 0]);
}

#[test]
fn encode_ping_bytes() {
    assert_eq!(encode(&Message::Ping(7)), vec![2u8, 7, 0, 0, 0]);
}

#[test]
fn encode_button_press_bytes() {
    let m = Message::ButtonPress(ButtonPress { button_id: 3, millis_since_init: 1500 });
    assert_eq!(encode(&m), vec![3u8, 3, 220, 5, 0, 0]);
}

#[test]
fn encode_led_update_bytes() {
    let on = Message::LedUpdate(LedUpdate { button_id: 5, on: true });
    let off = Message::LedUpdate(LedUpdate { button_id: 5, on: false });
    assert_eq!(encode(&on), vec![4u8, 5, 1]);
    assert_eq!(encode(&off), vec![4u8, 5, 0]);
}

#[test]
fn roundtrip_all_variants() {
    roundtrip(Message::InitBoard);
    roundtrip(Message::InitReactionGame(0));
    roundtrip(Message::InitReactionGame(u32::MAX));
    roundtrip(Message::Ping(1));
    roundtrip(Message::Ping(305419896));
    roundtrip(Message::ButtonPress(ButtonPress { button_id: 0, millis_since_init: 0 }));
    roundtrip(Message::ButtonPress(ButtonPress { button_id: 6, millis_since_init: u32::MAX }));
    roundtrip(Message::LedUpdate(LedUpdate { button_id: 0, on: true }));
    roundtrip(Message::LedUpdate(LedUpdate { button_id: 5, on: false }));
}

#[test]
fn decode_empty_needs_more() {
    assert_eq!(decode_one(&[]), Err(DecodeError::NeedMoreData));
}

#[test]
fn decode_truncated_needs_more() {
    assert_eq!(decode_one(&[1]), Err(DecodeError::NeedMoreData));
    assert_eq!(decode_one(&[2, 7, 0, 0]), Err(DecodeError::NeedMoreData));
    assert_eq!(decode_one(&[3, 3, 220, 5, 0]), Err(DecodeError::NeedMoreData));
    assert_eq!(decode_one(&[4, 5]), Err(DecodeError::NeedMoreData));
}

#[test]
fn decode_unknown_tag_corrupt() {
    assert_eq!(decode_one(&[5]), Err(DecodeError::Corrupt));
    assert_eq!(decode_one(&[255, 1, 2, 3]), Err(DecodeError::Corrupt));
}

#[test]
fn decode_bad_level_byte_corrupt() {
    assert_eq!(decode_one(&[4, 1, 2]), Err(DecodeError::Corrupt));
    assert_eq!(decode_one(&[4, 0, 200]), Err(DecodeError::Corrupt));
}

#[test]
fn decode_never_over_consumes() {
    // A complete message followed by arbitrary trailing bytes: exactly one
    // message comes out and exactly its bytes are consumed.
    let mut bytes = encode(&Message::Ping(42));
    let len = bytes.len();
    bytes.extend_from_slice(&[250, 251, 252]);
    let (decoded, consumed) = decode_one(&bytes).unwrap();
    assert_eq!(decoded, Message::Ping(42));
    assert_eq!(consumed, len);
}

#[test]
fn decode_little_endian_field_order() {
    let (decoded, consumed) = decode_one(&[2, 0x78, 0x56, 0x34, 0x12]).unwrap();
    assert_eq!(decoded, Message::Ping(0x12345678));
    assert_eq!(consumed, 5);
}
