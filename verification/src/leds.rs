//! LED command queue and output application.
//!
//! LED commands travel through a bounded FIFO from the message handler to
//! the single consumer that drives the output lines. A full queue drops
//! the newest command — a stale LED state is not safety-critical, and the
//! producer must never block.

use crate::msg::LedUpdate;
use vstd::prelude::*;

verus! {

/// Capacity of the LED command queue.
pub const LED_QUEUE_CAPACITY: usize = 16;

/// Bounded multi-producer/single-consumer FIFO of LED commands.
pub struct LedQueue {
    items: Vec<LedUpdate>,
}

impl View for LedQueue {
    type V = Seq<LedUpdate>;

    /// The queued commands, oldest first.
    closed spec fn view(&self) -> Seq<LedUpdate> {
        self.items@
    }
}

impl LedQueue {
    /// The queue never holds more than its capacity.
    pub closed spec fn wf(&self) -> bool {
        self.items@.len() <= LED_QUEUE_CAPACITY
    }

    /// An empty queue.
    pub fn new() -> (r: Self)
        ensures
            r.wf(),
            r@ == Seq::<LedUpdate>::empty(),
    {
        LedQueue { items: Vec::new() }
    }

    /// Appends a command if there is room; a full queue drops it and
    /// reports so, without blocking the producer.
    pub fn enqueue(&mut self, update: LedUpdate) -> (accepted: bool)
        requires
            old(self).wf(),
        ensures
            final (self).wf(),
            accepted == (old(self)@.len() < LED_QUEUE_CAPACITY),
            accepted ==> final (self)@ == old(self)@.push(update),
            !accepted ==> final (self)@ == old(self)@,
    {
        if self.items.len() < LED_QUEUE_CAPACITY {
            self.items.push(update);
            true
        } else {
            false
        }
    }

    /// Removes and returns the oldest command, or nothing when empty.
    pub fn dequeue(&mut self) -> (r: Option<LedUpdate>)
        requires
            old(self).wf(),
        ensures
            final (self).wf(),
            old(self)@.len() == 0 ==> r is None && final (self)@ == old(self)@,
            old(self)@.len() > 0 ==> r == Some(old(self)@[0]) && final (self)@ == old(self)@.skip(
                1,
            ),
    {
        if self.items.len() == 0 {
            None
        } else {
            let u = self.items.remove(0);
            proof {
                assert(self.items@ =~= old(self)@.skip(1));
            }
            Some(u)
        }
    }
}

/// Applies one LED command to the logical output levels, one `bool` per
/// LED; a command whose id addresses no output is silently ignored.
pub fn apply_led_update(leds: &mut Vec<bool>, update: &LedUpdate)
    ensures
        update.button_id < old(leds)@.len() ==> final (leds)@ == old(leds)@.update(
            update.button_id as int,
            update.on,
        ),
        update.button_id >= old(leds)@.len() ==> final (leds)@ == old(leds)@,
{
    let id = update.button_id as usize;
    if id < leds.len() {
        leds[id] = update.on;
    }
}

/// One iteration of the LED output task: take the oldest queued command
/// and apply it; with an empty queue, report that the caller should yield
/// for its throttle interval instead of spinning.
pub fn led_step(queue: &mut LedQueue, leds: &mut Vec<bool>) -> (throttle: bool)
    requires
        old(queue).wf(),
    ensures
        final (queue).wf(),
        throttle == (old(queue)@.len() == 0),
        throttle ==> final (queue)@ == old(queue)@ && final (leds)@ == old(leds)@,
        !throttle ==> final (queue)@ == old(queue)@.skip(1) && ({
            let u = old(queue)@[0];
            &&& (u.button_id < old(leds)@.len() ==> final (leds)@ == old(leds)@.update(
                u.button_id as int,
                u.on,
            ))
            &&& (u.button_id >= old(leds)@.len() ==> final (leds)@ == old(leds)@)
        }),
{
    match queue.dequeue() {
        None => true,
        Some(update) => {
            apply_led_update(leds, &update);
            false
        },
    }
}

} // verus!
