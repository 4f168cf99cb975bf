//! Core logic of a multi-button buzzer device and its relay server.
//!
//! The library covers the parts of the system that are worth proving:
//! the binary wire codec for protocol messages, the fixed-capacity frame
//! buffer that reassembles messages out of raw socket reads, the debounce
//! filter for bouncy GPIO edges, the LED command queue, the device session
//! state machine, and the broadcast hub that routes messages between the
//! device legs and any number of frontend clients.
//!
//! Everything that touches hardware or sockets lives outside this crate and
//! talks to it through plain values: byte vectors in, decoded messages and
//! byte vectors out.

pub mod buffer;
pub mod codec;
pub mod debounce;
pub mod leds;
pub mod msg;
pub mod router;
pub mod session;
