//! Debounce filter for bouncy edge-triggered inputs.
//!
//! Each channel remembers when its last edge arrived. An edge counts as a
//! new press only when it comes more than [`MIN_DEBOUNCE_MILLIS`] after the
//! previous edge on the same channel — and every edge, accepted or not,
//! refreshes that timer, so bounce inside the window keeps pushing the
//! window out instead of re-arming the instant it expires.

use vstd::prelude::*;

verus! {

/// Minimum gap in milliseconds between two edges on one channel for the
/// second edge to count as a new press.
pub const MIN_DEBOUNCE_MILLIS: u64 = 100;

/// Saturating subtraction on millisecond timestamps.
pub open spec fn spec_sat_sub(a: u64, b: u64) -> u64 {
    if a >= b {
        (a - b) as u64
    } else {
        0
    }
}

/// Whether an edge at `now` passes the filter on a channel whose timer
/// last saw an edge at `last`.
pub open spec fn spec_emits(last: u64, now: u64) -> bool {
    spec_sat_sub(now, last) > MIN_DEBOUNCE_MILLIS
}

/// Per-channel debounce state: the time of the last edge seen on each of
/// `N` independent input lines, in milliseconds since boot.
pub struct Debouncer {
    last_pressed: Vec<u64>,
}

impl View for Debouncer {
    type V = Seq<u64>;

    /// The last-edge timestamp of each channel.
    closed spec fn view(&self) -> Seq<u64> {
        self.last_pressed@
    }
}

impl Debouncer {
    /// A debouncer for `channels` lines, all timers at zero.
    pub fn new(channels: usize) -> (r: Self)
        ensures
            r@.len() == channels,
            forall|i: int| 0 <= i < channels ==> r@[i] == 0,
    {
        Debouncer { last_pressed: vec![0u64; channels] }
    }

    /// The number of channels watched.
    pub fn channels(&self) -> (n: usize)
        ensures
            n == self@.len(),
    {
        self.last_pressed.len()
    }

    /// Handles one rising edge on `channel` at time `now`: reports whether
    /// the edge passes the debounce filter, and unconditionally refreshes
    /// the channel's timer — a bounce inside the window extends the window.
    pub fn on_edge(&mut self, channel: usize, now: u64) -> (emit: bool)
        requires
            channel < old(self)@.len(),
        ensures
            emit == spec_emits(old(self)@[channel as int], now),
            final (self)@ == old(self)@.update(channel as int, now),
    {
        let last = self.last_pressed[channel];
        let gap = if now >= last {
            now - last
        } else {
            0
        };
        self.last_pressed[channel] = now;
        gap > MIN_DEBOUNCE_MILLIS
    }
}

/// The deterministic tie-break of the multi-way wait that feeds the
/// debouncer: when the edges of several channels complete in the same
/// scheduling tick, the lowest channel index wins — exactly one winner
/// per iteration, and none when no channel fired.
pub fn first_ready_channel(ready: &[bool]) -> (r: Option<usize>)
    ensures
        r is None <==> (forall|i: int| 0 <= i < ready@.len() ==> !ready@[i]),
        r matches Some(winner) ==> winner < ready@.len() && ready@[winner as int] && (forall|j: int|
            0 <= j < winner ==> !ready@[j]),
{
    let len = ready.len();
    let mut i: usize = 0;
    while i < len
        invariant
            i <= len,
            len == ready@.len(),
            forall|j: int| 0 <= j < i ==> !ready@[j],
        decreases len - i,
    {
        if *vstd::slice::slice_index_get(ready, i) {
            return Some(i);
        }
        i = i + 1;
    }
    None
}

/// Debounce suppression: once an edge at `t1` has been accepted on a
/// channel, a later edge at `t2` on the same channel is emitted exactly
/// when the gap exceeds the window. Two edges at most
/// [`MIN_DEBOUNCE_MILLIS`] apart therefore yield exactly one press, and
/// two edges farther apart yield two.
pub proof fn lemma_debounce_suppression(s: Seq<u64>, channel: int, t1: u64, t2: u64)
    requires
        0 <= channel < s.len(),
        spec_emits(s[channel], t1),
        t1 <= t2,
    ensures
        t2 - t1 <= MIN_DEBOUNCE_MILLIS ==> !spec_emits(s.update(channel, t1)[channel], t2),
        t2 - t1 > MIN_DEBOUNCE_MILLIS ==> spec_emits(s.update(channel, t1)[channel], t2),
{
}

} // verus!
