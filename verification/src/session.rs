//! Device-side session manager.
//!
//! One long-lived connection to the relay server, driven as a state
//! machine: `Disconnected -> Connecting -> Connected`, looping forever —
//! every failure path leads back to `Disconnected` and a fresh connect.
//! The caller owns the socket and the clock; it feeds each connect result,
//! read, error and locally queued button press in as a [`SessionEvent`]
//! and performs the [`SessionAction`] handed back. All decisions — framing,
//! dispatch, epoch arithmetic, give-up counting — happen here.

use crate::buffer::{spec_drain, MsgBuffer};
use crate::codec::{encode, spec_encode};
use crate::leds::{LedQueue, LED_QUEUE_CAPACITY};
use crate::msg::{ButtonPress, LedUpdate, Message, NUM_BUTTONS};
use vstd::prelude::*;

verus! {

/// Capacity of the receive frame buffer, in bytes.
pub const NET_BUF_CAPACITY: usize = 1024;

/// How many consecutive zero-progress drains (a read of zero new bytes
/// whose drain still leaves undecoded bytes) are tolerated before the
/// session forces a reconnect.
pub const MAX_ZERO_PROGRESS_FAILS: u32 = 3;

/// Fixed backoff before retrying a failed connect, in milliseconds.
pub const RECONNECT_BACKOFF_MILLIS: u64 = 1000;

/// Where the session stands with its connection.
#[derive(Clone, Copy, Debug, PartialEq, Eq, Structural)]
pub enum LinkState {
    /// No usable connection; the next step is a fresh connect attempt.
    Disconnected,
    /// A connect attempt is in flight.
    Connecting,
    /// A connection is up and carrying traffic.
    Connected,
}

/// One thing that happened at the session's edge.
pub enum SessionEvent {
    /// The loop that owns the socket is about to open a fresh connection.
    StartConnect,
    /// The pending connect attempt completed.
    ConnectSucceeded,
    /// The pending connect attempt failed.
    ConnectFailed,
    /// A socket read completed, delivering these bytes (possibly none) at
    /// this moment, in milliseconds since boot.
    DataRead { data: Vec<u8>, now_millis: u32 },
    /// A socket read failed.
    ReadFailed { connection_reset: bool },
    /// The debounce task delivered a press on this button at this time,
    /// in milliseconds since boot.
    ButtonPressed { button_id: u8, press_time_millis: u64 },
    /// Writing a previously returned transmission failed.
    WriteFailed { connection_reset: bool },
}

/// What the caller must do next.
pub enum SessionAction {
    /// Nothing; keep waiting for the next event.
    Idle,
    /// Open a fresh connection to the relay server now.
    Connect,
    /// Wait [`RECONNECT_BACKOFF_MILLIS`], then open a fresh connection.
    Backoff,
    /// Write these bytes to the socket.
    Transmit(Vec<u8>),
}

/// Saturating subtraction on 32-bit millisecond timestamps.
pub open spec fn spec_sat_sub32(a: u32, b: u32) -> u32 {
    if a >= b {
        (a - b) as u32
    } else {
        0
    }
}

/// What handling one received message does to the session epoch and the
/// LED queue: init messages reset the epoch to now, LED commands are
/// queued best-effort (dropped when full), pings are observability only,
/// and a button press — which the device should never receive — is ignored.
pub open spec fn spec_handle(
    init_time: u32,
    leds: Seq<LedUpdate>,
    m: Message,
    now: u32,
) -> (u32, Seq<LedUpdate>) {
    match m {
        Message::InitBoard => (now, leds),
        Message::InitReactionGame(_) => (now, leds),
        Message::Ping(_) => (init_time, leds),
        Message::ButtonPress(_) => (init_time, leds),
        Message::LedUpdate(u) => (
            init_time,
            if leds.len() < LED_QUEUE_CAPACITY {
                leds.push(u)
            } else {
                leds
            },
        ),
    }
}

/// [`spec_handle`] folded over a whole batch of decoded messages, in order.
pub open spec fn spec_handle_all(
    init_time: u32,
    leds: Seq<LedUpdate>,
    ms: Seq<Message>,
    now: u32,
) -> (u32, Seq<LedUpdate>)
    decreases ms.len(),
{
    if ms.len() == 0 {
        (init_time, leds)
    } else {
        let h = spec_handle(init_time, leds, ms[0], now);
        spec_handle_all(h.0, h.1, ms.skip(1), now)
    }
}

/// The session manager: connection state, session epoch, receive buffer,
/// zero-progress counter, and the LED command queue it feeds.
pub struct Session {
    state: LinkState,
    init_time: u32,
    zero_progress_fails: u32,
    buffer: MsgBuffer<NET_BUF_CAPACITY>,
    led_queue: LedQueue,
}

impl Session {
    /// Connection state.
    pub closed spec fn state(&self) -> LinkState {
        self.state
    }

    /// The session epoch: "time zero" of the current game, in milliseconds
    /// since boot, as set by the last init message.
    pub closed spec fn init_time(&self) -> u32 {
        self.init_time
    }

    /// Consecutive zero-progress drains seen so far.
    pub closed spec fn zero_fails(&self) -> u32 {
        self.zero_progress_fails
    }

    /// Bytes read from the socket but not yet decoded into messages.
    pub closed spec fn pending(&self) -> Seq<u8> {
        self.buffer@
    }

    /// LED commands queued for the output task.
    pub closed spec fn leds(&self) -> Seq<LedUpdate> {
        self.led_queue@
    }

    pub closed spec fn wf(&self) -> bool {
        self.buffer.wf() && self.led_queue.wf() && self.zero_progress_fails
            < MAX_ZERO_PROGRESS_FAILS
    }

    /// A well-formed session never buffers more than the buffer capacity.
    pub proof fn lemma_wf(&self)
        requires
            self.wf(),
        ensures
            self.pending().len() <= NET_BUF_CAPACITY,
    {
        self.buffer.lemma_len_bounded();
    }

    /// The connection state, for the loop that owns the socket.
    pub fn link_state(&self) -> (s: LinkState)
        ensures
            s == self.state(),
    {
        self.state
    }

    /// How many bytes the next read may deliver: the free tail of the
    /// receive buffer. Zero means the buffer is full of undecodable bytes
    /// and no forward progress is possible — a protocol error.
    pub fn read_capacity(&self) -> (free: usize)
        requires
            self.wf(),
        ensures
            free == NET_BUF_CAPACITY - self.pending().len(),
    {
        self.buffer.as_buf()
    }

    /// A fresh session: disconnected, epoch zero, nothing buffered.
    pub fn new() -> (r: Self)
        ensures
            r.wf(),
            r.state() == LinkState::Disconnected,
            r.init_time() == 0,
            r.zero_fails() == 0,
            r.pending() == Seq::<u8>::empty(),
            r.leds() == Seq::<LedUpdate>::empty(),
    {
        Session {
            state: LinkState::Disconnected,
            init_time: 0,
            zero_progress_fails: 0,
            buffer: MsgBuffer::new(),
            led_queue: LedQueue::new(),
        }
    }

    /// Dispatches one received message: init messages reset the session
    /// epoch to `now_millis`, LED commands are queued best-effort, pings
    /// and stray button presses change nothing.
    pub fn handle_message(&mut self, message: &Message, now_millis: u32)
        requires
            old(self).wf(),
        ensures
            final (self).wf(),
            ({
                let h = spec_handle(old(self).init_time(), old(self).leds(), *message, now_millis);
                final (self).init_time() == h.0 && final (self).leds() == h.1
            }),
            final (self).state() == old(self).state(),
            final (self).pending() == old(self).pending(),
            final (self).zero_fails() == old(self).zero_fails(),
    {
        match message {
            Message::InitBoard => {
                self.init_time = now_millis;
            },
            Message::InitReactionGame(_) => {
                self.init_time = now_millis;
            },
            Message::Ping(_) => {},
            Message::ButtonPress(_) => {},
            Message::LedUpdate(u) => {
                let _ = self.led_queue.enqueue(*u);
            },
        }
    }

    /// Hands the oldest queued LED command to the output task.
    pub fn next_led_command(&mut self) -> (r: Option<LedUpdate>)
        requires
            old(self).wf(),
        ensures
            final (self).wf(),
            old(self).leds().len() == 0 ==> r is None && final (self).leds() == old(self).leds(),
            old(self).leds().len() > 0 ==> r == Some(old(self).leds()[0]) && final (self).leds()
                == old(self).leds().skip(1),
            final (self).state() == old(self).state(),
            final (self).init_time() == old(self).init_time(),
            final (self).pending() == old(self).pending(),
            final (self).zero_fails() == old(self).zero_fails(),
    {
        self.led_queue.dequeue()
    }

    /// Advances the state machine by one event and says what to do next.
    ///
    /// - Starting a connect attempt enters `Connecting` and asks the
    ///   caller to open the socket. A successful connect enters `Connected` with a cleared buffer and
    ///   a cleared zero-progress counter; a failed one asks for a backoff
    ///   and retry — the session retries forever.
    /// - Read bytes are appended, drained into messages and dispatched.
    ///   A read of zero new bytes whose drain leaves undecoded bytes counts
    ///   toward [`MAX_ZERO_PROGRESS_FAILS`]; reaching it forces a reconnect.
    ///   Any progress clears the counter.
    /// - A press is stamped relative to the session epoch by saturating
    ///   subtraction; a press whose relative time is zero predates the
    ///   epoch and is discarded, never serialized. Any other press is
    ///   returned as the encoded bytes to transmit.
    /// - A connection reset on read or write forces a reconnect; any other
    ///   read or write error is tolerated and the event skipped.
    pub fn step(&mut self, event: SessionEvent) -> (action: SessionAction)
        requires
            old(self).wf(),
            (event matches SessionEvent::DataRead { data, .. } ==> old(self).state()
                == LinkState::Connected && old(self).pending().len() + data@.len()
                <= NET_BUF_CAPACITY),
            (event matches SessionEvent::ReadFailed { .. } ==> old(self).state()
                == LinkState::Connected),
            (event matches SessionEvent::ButtonPressed { .. } ==> old(self).state()
                == LinkState::Connected),
            (event matches SessionEvent::WriteFailed { .. } ==> old(self).state()
                == LinkState::Connected),
            (event matches SessionEvent::ButtonPressed { button_id, .. } ==> button_id
                < NUM_BUTTONS),
            (event matches SessionEvent::StartConnect ==> old(self).state()
                == LinkState::Disconnected),
            (event matches SessionEvent::ConnectSucceeded ==> old(self).state()
                == LinkState::Connecting),
            (event matches SessionEvent::ConnectFailed ==> old(self).state()
                == LinkState::Connecting),
        ensures
            final (self).wf(),
            (event matches SessionEvent::StartConnect ==> final (self).state()
                == LinkState::Connecting && final (self).pending() == old(self).pending()
                && final (self).zero_fails() == old(self).zero_fails() && final (self).init_time()
                == old(self).init_time() && final (self).leds() == old(self).leds()
                && action is Connect),
            (event matches SessionEvent::ConnectSucceeded ==> final (self).state()
                == LinkState::Connected && final (self).pending() == Seq::<u8>::empty() && final (
            self).zero_fails() == 0 && final (self).init_time() == old(self).init_time() && final (
            self).leds() == old(self).leds() && action is Idle),
            (event matches SessionEvent::ConnectFailed ==> final (self).state()
                == LinkState::Disconnected && final (self).pending() == old(self).pending()
                && final (self).zero_fails() == old(self).zero_fails() && final (self).init_time()
                == old(self).init_time() && final (self).leds() == old(self).leds()
                && action is Backoff),
            (event matches SessionEvent::DataRead { data, now_millis } ==> ({
                let stream = old(self).pending() + data@;
                let d = spec_drain(stream);
                let h = spec_handle_all(old(self).init_time(), old(self).leds(), d.0, now_millis);
                let drained_all = stream.len() > 0 && d.1.len() == 0;
                let progress = data@.len() > 0 || drained_all;
                &&& final (self).pending() == d.1
                &&& final (self).init_time() == h.0
                &&& final (self).leds() == h.1
                &&& (progress ==> final (self).state() == LinkState::Connected && final (
                self).zero_fails() == 0 && action is Idle)
                &&& (!progress && old(self).zero_fails() + 1 < MAX_ZERO_PROGRESS_FAILS ==> final (
                self).state() == LinkState::Connected && final (self).zero_fails() == old(
                self).zero_fails() + 1 && action is Idle)
                &&& (!progress && old(self).zero_fails() + 1 >= MAX_ZERO_PROGRESS_FAILS ==> final (
                self).state() == LinkState::Disconnected && final (self).zero_fails() == 0
                    && action is Idle)
            })),
            (event matches SessionEvent::ReadFailed { connection_reset } ==> final (self).state()
                == (if connection_reset {
                LinkState::Disconnected
            } else {
                LinkState::Connected
            }) && final (self).pending() == old(self).pending() && final (self).init_time() == old(
            self).init_time() && final (self).leds() == old(self).leds() && final (
            self).zero_fails() == old(self).zero_fails() && action is Idle),
            (event matches SessionEvent::WriteFailed { connection_reset } ==> final (self).state()
                == (if connection_reset {
                LinkState::Disconnected
            } else {
                LinkState::Connected
            }) && final (self).pending() == old(self).pending() && final (self).init_time() == old(
            self).init_time() && final (self).leds() == old(self).leds() && final (
            self).zero_fails() == old(self).zero_fails() && action is Idle),
            (event matches SessionEvent::ButtonPressed { button_id, press_time_millis } ==> ({
                let rel = spec_sat_sub32(press_time_millis as u32, old(self).init_time());
                &&& final (self).state() == old(self).state()
                &&& final (self).pending() == old(self).pending()
                &&& final (self).init_time() == old(self).init_time()
                &&& final (self).leds() == old(self).leds()
                &&& final (self).zero_fails() == old(self).zero_fails()
                &&& (rel == 0 ==> action is Idle)
                &&& (rel > 0 ==> (action matches SessionAction::Transmit(bytes) && bytes@
                    == spec_encode(
                    Message::ButtonPress(
                        ButtonPress { button_id, millis_since_init: rel },
                    ),
                )))
            })),
    {
        match event {
            SessionEvent::StartConnect => {
                self.state = LinkState::Connecting;
                SessionAction::Connect
            },
            SessionEvent::ConnectSucceeded => {
                self.state = LinkState::Connected;
                self.buffer = MsgBuffer::new();
                self.zero_progress_fails = 0;
                SessionAction::Idle
            },
            SessionEvent::ConnectFailed => {
                self.state = LinkState::Disconnected;
                SessionAction::Backoff
            },
            SessionEvent::DataRead { data, now_millis } => {
                let had_data = data.len() > 0;
                self.buffer.append(data.as_slice());
                let mut msgs: Vec<Message> = Vec::new();
                let drained_all = self.buffer.process_msgs_ok(&mut msgs);
                let ghost batch = msgs@;
                let ghost init0 = self.init_time();
                let ghost leds0 = self.leds();
                let mut i: usize = 0;
                proof {
                    assert(batch.skip(0) =~= batch);
                }
                while i < msgs.len()
                    invariant
                        self.wf(),
                        i <= msgs@.len(),
                        msgs@ == batch,
                        self.state() == LinkState::Connected,
                        self.pending() == spec_drain(old(self).pending() + data@).1,
                        self.zero_fails() == old(self).zero_fails(),
                        spec_handle_all(init0, leds0, batch, now_millis) == spec_handle_all(
                            self.init_time(),
                            self.leds(),
                            batch.skip(i as int),
                            now_millis,
                        ),
                    decreases msgs@.len() - i,
                {
                    let m = msgs[i];
                    proof {
                        assert(batch.skip(i as int).skip(1) =~= batch.skip(i as int + 1));
                        assert(batch.skip(i as int)[0] == m);
                    }
                    self.handle_message(&m, now_millis);
                    i = i + 1;
                }
                proof {
                    assert(batch.skip(msgs@.len() as int) =~= Seq::<Message>::empty());
                }
                if !had_data && !drained_all {
                    if self.zero_progress_fails + 1 >= MAX_ZERO_PROGRESS_FAILS {
                        self.state = LinkState::Disconnected;
                        self.zero_progress_fails = 0;
                        SessionAction::Idle
                    } else {
                        self.zero_progress_fails = self.zero_progress_fails + 1;
                        SessionAction::Idle
                    }
                } else {
                    self.zero_progress_fails = 0;
                    SessionAction::Idle
                }
            },
            SessionEvent::ReadFailed { connection_reset } => {
                if connection_reset {
                    self.state = LinkState::Disconnected;
                }
                SessionAction::Idle
            },
            SessionEvent::WriteFailed { connection_reset } => {
                if connection_reset {
                    self.state = LinkState::Disconnected;
                }
                SessionAction::Idle
            },
            SessionEvent::ButtonPressed { button_id, press_time_millis } => {
                let now32 = #[verifier::truncate] (press_time_millis as u32);
                let rel = if now32 >= self.init_time {
                    now32 - self.init_time
                } else {
                    0
                };
                if rel == 0 {
                    SessionAction::Idle
                } else {
                    let message = Message::ButtonPress(
                        ButtonPress { button_id, millis_since_init: rel },
                    );
                    SessionAction::Transmit(encode(&message))
                }
            },
        }
    }
}

} // verus!
