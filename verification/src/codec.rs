//! Binary wire codec for [`Message`].
//!
//! Each message is encoded as a one-byte variant tag followed by its fields:
//! `u32` fields as four little-endian bytes, `u8` fields as one byte, and
//! `bool` fields as one byte that must be `0` or `1`. The tag alone
//! determines the total length of the encoding, so a decoder always knows
//! exactly how many bytes one message consumes — the property the frame
//! buffer's compaction step depends on.

use crate::msg::{ButtonPress, LedUpdate, Message};
use vstd::prelude::*;

verus! {

pub const TAG_INIT_BOARD: u8 = 0;

pub const TAG_INIT_REACTION_GAME: u8 = 1;

pub const TAG_PING: u8 = 2;

pub const TAG_BUTTON_PRESS: u8 = 3;

pub const TAG_LED_UPDATE: u8 = 4;

/// Why one decode attempt produced no message.
#[derive(Clone, Copy, Debug, PartialEq, Eq, Structural)]
pub enum DecodeError {
    /// The buffer holds a truncated message: a valid header whose remaining
    /// bytes have not arrived yet.
    NeedMoreData,
    /// No valid message can start at the current position.
    Corrupt,
}

/// The four little-endian bytes of a 32-bit value.
pub open spec fn spec_le32(v: u32) -> Seq<u8> {
    seq![
        (v % 256) as u8,
        ((v / 256) % 256) as u8,
        ((v / 65536) % 256) as u8,
        ((v / 16777216) % 256) as u8,
    ]
}

/// The 32-bit value read back from four little-endian bytes.
pub open spec fn spec_u32_le(b0: u8, b1: u8, b2: u8, b3: u8) -> u32 {
    (b0 + 256 * b1 + 65536 * b2 + 16777216 * b3) as u32
}

/// The wire encoding of one message.
pub open spec fn spec_encode(m: Message) -> Seq<u8> {
    match m {
        Message::InitBoard => seq![TAG_INIT_BOARD],
        Message::InitReactionGame(v) => seq![TAG_INIT_REACTION_GAME] + spec_le32(v),
        Message::Ping(v) => seq![TAG_PING] + spec_le32(v),
        Message::ButtonPress(p) => seq![TAG_BUTTON_PRESS, p.button_id] + spec_le32(
            p.millis_since_init,
        ),
        Message::LedUpdate(u) => seq![
            TAG_LED_UPDATE,
            u.button_id,
            if u.on {
                1u8
            } else {
                0u8
            },
        ],
    }
}

pub open spec fn spec_valid_tag(tag: u8) -> bool {
    tag <= TAG_LED_UPDATE
}

/// Total length of an encoded message, determined by its tag byte alone.
pub open spec fn spec_msg_len(tag: u8) -> int {
    if tag == TAG_INIT_BOARD {
        1
    } else if tag == TAG_INIT_REACTION_GAME {
        5
    } else if tag == TAG_PING {
        5
    } else if tag == TAG_BUTTON_PRESS {
        6
    } else if tag == TAG_LED_UPDATE {
        3
    } else {
        0
    }
}

/// The message found at the start of `s`, with the number of bytes it
/// occupies, or `None` when `s` starts with no complete valid message.
pub open spec fn spec_decode(s: Seq<u8>) -> Option<(Message, int)> {
    if s.len() == 0 {
        None
    } else {
        let tag = s[0];
        if tag == TAG_INIT_BOARD {
            Some((Message::InitBoard, 1))
        } else if tag == TAG_INIT_REACTION_GAME {
            if s.len() >= 5 {
                Some((Message::InitReactionGame(spec_u32_le(s[1], s[2], s[3], s[4])), 5))
            } else {
                None
            }
        } else if tag == TAG_PING {
            if s.len() >= 5 {
                Some((Message::Ping(spec_u32_le(s[1], s[2], s[3], s[4])), 5))
            } else {
                None
            }
        } else if tag == TAG_BUTTON_PRESS {
            if s.len() >= 6 {
                Some(
                    (
                        Message::ButtonPress(
                            ButtonPress {
                                button_id: s[1],
                                millis_since_init: spec_u32_le(s[2], s[3], s[4], s[5]),
                            },
                        ),
                        6,
                    ),
                )
            } else {
                None
            }
        } else if tag == TAG_LED_UPDATE {
            if s.len() < 3 {
                None
            } else if s[2] == 0 || s[2] == 1 {
                Some((Message::LedUpdate(LedUpdate { button_id: s[1], on: s[2] == 1 }), 3))
            } else {
                None
            }
        } else {
            None
        }
    }
}

/// `s` holds a truncated message: empty, or a valid tag with fewer bytes
/// than that tag requires.
pub open spec fn spec_needs_more(s: Seq<u8>) -> bool {
    s.len() == 0 || (spec_valid_tag(s[0]) && s.len() < spec_msg_len(s[0]))
}

/// No valid message can ever start at the front of `s`, however many bytes
/// are appended: an unknown tag, or an LED update whose level byte is
/// neither 0 nor 1.
pub open spec fn spec_corrupt_at(s: Seq<u8>) -> bool {
    s.len() > 0 && (!spec_valid_tag(s[0]) || (s[0] == TAG_LED_UPDATE && s.len() >= 3 && s[2]
        >= 2))
}

/// Reading four little-endian bytes back yields the value they encode.
pub proof fn lemma_le32_roundtrip(v: u32)
    ensures
        spec_u32_le(spec_le32(v)[0], spec_le32(v)[1], spec_le32(v)[2], spec_le32(v)[3]) == v,
{
    assert(v % 256 + 256 * ((v / 256) % 256) + 65536 * ((v / 65536) % 256) + 16777216 * ((v
        / 16777216) % 256) == v) by (bit_vector);
}

/// An encoding is never empty, never longer than six bytes, starts with a
/// valid tag, and its length is the one that tag announces.
pub proof fn lemma_encode_len(m: Message)
    ensures
        1 <= spec_encode(m).len() <= 6,
        spec_valid_tag(spec_encode(m)[0]),
        spec_encode(m).len() == spec_msg_len(spec_encode(m)[0]),
{
}

/// Decoding is self-terminating: a buffer that starts with a complete
/// encoding decodes to exactly that message and consumes exactly its bytes,
/// whatever follows.
pub proof fn lemma_decode_encode(m: Message, rest: Seq<u8>)
    ensures
        spec_decode(spec_encode(m) + rest) == Some((m, spec_encode(m).len() as int)),
{
    let s = spec_encode(m) + rest;
    match m {
        Message::InitBoard => {
            assert(s[0] == TAG_INIT_BOARD);
        },
        Message::InitReactionGame(v) => {
            lemma_le32_roundtrip(v);
            assert(s[0] == TAG_INIT_REACTION_GAME && s[1] == spec_le32(v)[0] && s[2] == spec_le32(
                v,
            )[1] && s[3] == spec_le32(v)[2] && s[4] == spec_le32(v)[3]);
        },
        Message::Ping(v) => {
            lemma_le32_roundtrip(v);
            assert(s[0] == TAG_PING && s[1] == spec_le32(v)[0] && s[2] == spec_le32(v)[1] && s[3]
                == spec_le32(v)[2] && s[4] == spec_le32(v)[3]);
        },
        Message::ButtonPress(p) => {
            lemma_le32_roundtrip(p.millis_since_init);
            assert(s[0] == TAG_BUTTON_PRESS && s[1] == p.button_id && s[2] == spec_le32(
                p.millis_since_init,
            )[0] && s[3] == spec_le32(p.millis_since_init)[1] && s[4] == spec_le32(
                p.millis_since_init,
            )[2] && s[5] == spec_le32(p.millis_since_init)[3]);
        },
        Message::LedUpdate(u) => {
            assert(s[0] == TAG_LED_UPDATE && s[1] == u.button_id && s[2] == (if u.on {
                1u8
            } else {
                0u8
            }));
        },
    }
}

/// A decode that succeeds keeps succeeding, with the same result, after
/// more bytes arrive: the decoder never reads past the message it found.
pub proof fn lemma_decode_prefix(s: Seq<u8>, t: Seq<u8>)
    requires
        spec_decode(s) is Some,
    ensures
        spec_decode(s + t) == spec_decode(s),
{
    assert(forall|i: int| 0 <= i < s.len() ==> (s + t)[i] == s[i]);
}

/// A strict prefix of an encoding never decodes: the decoder reports a
/// truncated message instead of inventing one.
pub proof fn lemma_encode_prefix_needs_more(m: Message, i: int)
    requires
        0 <= i < spec_encode(m).len(),
    ensures
        spec_decode(spec_encode(m).take(i)) is None,
        spec_needs_more(spec_encode(m).take(i)),
{
    lemma_encode_len(m);
    if i > 0 {
        assert(spec_encode(m).take(i)[0] == spec_encode(m)[0]);
    }
}

/// Truncation and corruption classify every failed decode, and never both.
pub proof fn lemma_decode_none_classified(s: Seq<u8>)
    ensures
        spec_decode(s) is None <==> (spec_needs_more(s) || spec_corrupt_at(s)),
        !(spec_needs_more(s) && spec_corrupt_at(s)),
{
}

/// Reads a 32-bit value from four little-endian bytes.
fn u32_from_le(b0: u8, b1: u8, b2: u8, b3: u8) -> (v: u32)
    ensures
        v == spec_u32_le(b0, b1, b2, b3),
{
    b0 as u32 + 256 * (b1 as u32) + 65536 * (b2 as u32) + 16777216 * (b3 as u32)
}

/// Appends the four little-endian bytes of `v`.
fn push_le32(out: &mut Vec<u8>, v: u32)
    ensures
        final (out)@ == old(out)@ + spec_le32(v),
{
    let ghost start = out@;
    out.push((v % 256) as u8);
    out.push(((v / 256) % 256) as u8);
    out.push(((v / 65536) % 256) as u8);
    out.push(((v / 16777216) % 256) as u8);
    assert(out@ =~= start + spec_le32(v));
}

/// Encodes one message into a fresh byte vector. Encoding never fails:
/// every message has an encoding of at most six bytes.
pub fn encode(m: &Message) -> (r: Vec<u8>)
    ensures
        r@ == spec_encode(*m),
        1 <= r@.len() <= 6,
{
    proof {
        lemma_encode_len(*m);
    }
    let mut out: Vec<u8> = Vec::new();
    match m {
        Message::InitBoard => {
            out.push(TAG_INIT_BOARD);
        },
        Message::InitReactionGame(v) => {
            out.push(TAG_INIT_REACTION_GAME);
            push_le32(&mut out, *v);
        },
        Message::Ping(v) => {
            out.push(TAG_PING);
            push_le32(&mut out, *v);
        },
        Message::ButtonPress(p) => {
            out.push(TAG_BUTTON_PRESS);
            out.push(p.button_id);
            push_le32(&mut out, p.millis_since_init);
        },
        Message::LedUpdate(u) => {
            out.push(TAG_LED_UPDATE);
            out.push(u.button_id);
            out.push(if u.on {
                1u8
            } else {
                0u8
            });
        },
    }
    assert(out@ =~= spec_encode(*m));
    out
}

/// Decodes the one message at the start of `bytes`, reporting how many
/// bytes it occupies; trailing bytes are never touched. Fails with
/// [`DecodeError::NeedMoreData`] on a truncated message and with
/// [`DecodeError::Corrupt`] when no valid message can start here.
pub fn decode_one(bytes: &[u8]) -> (r: Result<(Message, usize), DecodeError>)
    ensures
        (match r {
            Ok((m, n)) => spec_decode(bytes@) == Some((m, n as int)) && 1 <= n <= bytes@.len(),
            Err(e) => spec_decode(bytes@) is None && (e == DecodeError::NeedMoreData
                <==> spec_needs_more(bytes@)) && (e == DecodeError::Corrupt <==> spec_corrupt_at(
                bytes@,
            )),
        }),
{
    proof {
        lemma_decode_none_classified(bytes@);
    }
    let len = bytes.len();
    if len == 0 {
        return Err(DecodeError::NeedMoreData);
    }
    let tag = *vstd::slice::slice_index_get(bytes, 0);
    if tag == TAG_INIT_BOARD {
        Ok((Message::InitBoard, 1))
    } else if tag == TAG_INIT_REACTION_GAME || tag == TAG_PING {
        if len < 5 {
            return Err(DecodeError::NeedMoreData);
        }
        let v = u32_from_le(
            *vstd::slice::slice_index_get(bytes, 1),
            *vstd::slice::slice_index_get(bytes, 2),
            *vstd::slice::slice_index_get(bytes, 3),
            *vstd::slice::slice_index_get(bytes, 4),
        );
        if tag == TAG_INIT_REACTION_GAME {
            Ok((Message::InitReactionGame(v), 5))
        } else {
            Ok((Message::Ping(v), 5))
        }
    } else if tag == TAG_BUTTON_PRESS {
        if len < 6 {
            return Err(DecodeError::NeedMoreData);
        }
        let button_id = *vstd::slice::slice_index_get(bytes, 1);
        let millis = u32_from_le(
            *vstd::slice::slice_index_get(bytes, 2),
            *vstd::slice::slice_index_get(bytes, 3),
            *vstd::slice::slice_index_get(bytes, 4),
            *vstd::slice::slice_index_get(bytes, 5),
        );
        Ok((Message::ButtonPress(ButtonPress { button_id, millis_since_init: millis }), 6))
    } else if tag == TAG_LED_UPDATE {
        if len < 3 {
            return Err(DecodeError::NeedMoreData);
        }
        let button_id = *vstd::slice::slice_index_get(bytes, 1);
        let level = *vstd::slice::slice_index_get(bytes, 2);
        if level >= 2 {
            return Err(DecodeError::Corrupt);
        }
        Ok((Message::LedUpdate(LedUpdate { button_id, on: level == 1 }), 3))
    } else {
        Err(DecodeError::Corrupt)
    }
}

} // verus!
