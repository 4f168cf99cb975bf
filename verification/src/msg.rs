//! Protocol messages exchanged between the buzzer device, the relay server
//! and the frontend clients.

use vstd::prelude::*;

verus! {

/// Number of physical buttons on the device.
pub const NUM_BUTTONS: u8 = 7;

/// Number of addressable LEDs on the device.
pub const NUM_LEDS: u8 = 6;

/// A debounced button press, stamped relative to the current session epoch.
#[derive(Clone, Copy, Debug, PartialEq, Eq, Structural)]
pub struct ButtonPress {
    pub button_id: u8,
    pub millis_since_init: u32,
}

/// A commanded LED output state.
#[derive(Clone, Copy, Debug, PartialEq, Eq, Structural)]
pub struct LedUpdate {
    pub button_id: u8,
    pub on: bool,
}

/// One protocol message: the tagged union carried on the wire.
#[derive(Clone, Copy, Debug, PartialEq, Eq, Structural)]
pub enum Message {
    /// Signals a session epoch reset.
    InitBoard,
    /// Starts a reaction game with the given parameter; also resets the epoch.
    InitReactionGame(u32),
    /// Liveness probe with a sequence number.
    Ping(u32),
    /// A debounced press reported by the device.
    ButtonPress(ButtonPress),
    /// An LED state commanded to the device.
    LedUpdate(LedUpdate),
}

} // verus!
