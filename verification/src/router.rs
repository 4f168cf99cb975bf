//! Relay-server router.
//!
//! A [`BroadcastHub`] decouples the transport legs: any leg publishes,
//! any number of subscribers attach or detach at any time, and each
//! subscriber owns a cursor into the published stream. Publishing never
//! fails and never blocks, whatever the subscribers do; a subscriber that
//! falls more than the channel capacity behind misses the overrun
//! messages rather than stalling the publisher, and a late subscriber
//! sees only what is published after it attaches — there is no history
//! replay.

use crate::buffer::{spec_drain, MsgBuffer};
use crate::codec::{encode, spec_encode};
use crate::msg::Message;
use vstd::prelude::*;

verus! {

/// How far a subscriber may fall behind before it starts missing
/// messages.
pub const ROUTER_CHANNEL_CAPACITY: usize = 10;

/// Capacity of the device-ingress frame buffer, in bytes.
pub const ROUTER_BUF_CAPACITY: usize = 2000;

/// One result of polling a subscription.
#[derive(Clone, Copy, Debug, PartialEq, Eq, Structural)]
pub enum RecvOutcome {
    /// Nothing published past this subscriber's cursor yet.
    Empty,
    /// The subscriber lagged more than the channel capacity behind and
    /// missed this many messages; its cursor now points at the oldest
    /// message still within the capacity window.
    Lagged { missed: usize },
    /// The next message, in publish order.
    Msg(Message),
}

/// What a subscriber with this cursor still has in front of it: the
/// published messages past its cursor, clipped to the newest `cap` when
/// it lagged too far behind.
pub open spec fn spec_pending(history: Seq<Message>, cursor: int, cap: int) -> Seq<Message> {
    if history.len() - cursor > cap {
        history.skip(history.len() - cap)
    } else {
        history.skip(cursor)
    }
}

/// A broadcast channel hub: the full published stream and one cursor per
/// subscriber.
pub struct BroadcastHub {
    history: Vec<Message>,
    next_idx: Vec<usize>,
    cap: usize,
}

impl BroadcastHub {
    /// Everything published so far, in publish order.
    pub closed spec fn history(&self) -> Seq<Message> {
        self.history@
    }

    /// How many subscribers have attached.
    pub closed spec fn num_subscribers(&self) -> nat {
        self.next_idx@.len()
    }

    /// The cursor of subscriber `id`: the index of the next message it
    /// has not seen.
    pub closed spec fn cursor(&self, id: int) -> int {
        self.next_idx@[id] as int
    }

    /// The lag window.
    pub closed spec fn capacity(&self) -> int {
        self.cap as int
    }

    /// Every cursor points into the published stream or just past it.
    pub closed spec fn wf(&self) -> bool {
        self.cap >= 1 && forall|i: int|
            0 <= i < self.next_idx@.len() ==> self.next_idx@[i] <= self.history@.len()
    }

    /// A fresh hub with no history and no subscribers.
    pub fn new(capacity: usize) -> (r: Self)
        requires
            capacity >= 1,
        ensures
            r.wf(),
            r.history() == Seq::<Message>::empty(),
            r.num_subscribers() == 0,
            r.capacity() == capacity,
    {
        BroadcastHub { history: Vec::new(), next_idx: Vec::new(), cap: capacity }
    }

    /// Attaches a new subscriber. Its cursor starts at the end of the
    /// published stream: it will see only messages published from now on,
    /// never historical ones.
    pub fn subscribe(&mut self) -> (id: usize)
        requires
            old(self).wf(),
        ensures
            final (self).wf(),
            id == old(self).num_subscribers(),
            final (self).num_subscribers() == old(self).num_subscribers() + 1,
            final (self).history() == old(self).history(),
            final (self).capacity() == old(self).capacity(),
            final (self).cursor(id as int) == old(self).history().len(),
            forall|i: int|
                0 <= i < old(self).num_subscribers() ==> final (self).cursor(i) == old(self).cursor(
                    i,
                ),
            spec_pending(
                final (self).history(),
                final (self).cursor(id as int),
                final (self).capacity(),
            ) == Seq::<Message>::empty(),
    {
        let id = self.next_idx.len();
        self.next_idx.push(self.history.len());
        proof {
            assert(self.history@.skip(self.history@.len() as int) =~= Seq::<Message>::empty());
        }
        id
    }

    /// Publishes one message. This never fails and never blocks: it needs
    /// no subscriber to exist and no subscriber to keep up.
    pub fn publish(&mut self, message: Message)
        requires
            old(self).wf(),
        ensures
            final (self).wf(),
            final (self).history() == old(self).history().push(message),
            final (self).num_subscribers() == old(self).num_subscribers(),
            final (self).capacity() == old(self).capacity(),
            forall|i: int|
                0 <= i < old(self).num_subscribers() ==> final (self).cursor(i) == old(self).cursor(
                    i,
                ),
    {
        self.history.push(message);
    }

    /// Polls subscriber `id` for its next message. A subscriber that fell
    /// more than the capacity behind is told how many messages it missed
    /// and skipped forward; it never blocks the publisher.
    pub fn recv(&mut self, id: usize) -> (r: RecvOutcome)
        requires
            old(self).wf(),
            id < old(self).num_subscribers(),
        ensures
            final (self).wf(),
            final (self).history() == old(self).history(),
            final (self).num_subscribers() == old(self).num_subscribers(),
            final (self).capacity() == old(self).capacity(),
            forall|i: int|
                0 <= i < old(self).num_subscribers() && i != id ==> final (self).cursor(i) == old(
                    self,
                ).cursor(i),
            ({
                let h = old(self).history();
                let c = old(self).cursor(id as int);
                &&& (c == h.len() ==> r == RecvOutcome::Empty && final (self).cursor(id as int)
                    == c)
                &&& (h.len() - c > old(self).capacity() ==> r == (RecvOutcome::Lagged {
                    missed: (h.len() - old(self).capacity() - c) as usize,
                }) && final (self).cursor(id as int) == h.len() - old(self).capacity())
                &&& (c < h.len() && h.len() - c <= old(self).capacity() ==> r == RecvOutcome::Msg(
                    h[c],
                ) && final (self).cursor(id as int) == c + 1)
            }),
    {
        let cursor = self.next_idx[id];
        let len = self.history.len();
        if cursor == len {
            RecvOutcome::Empty
        } else if len - cursor > self.cap {
            let missed = len - self.cap - cursor;
            self.next_idx[id] = len - self.cap;
            RecvOutcome::Lagged { missed }
        } else {
            let message = self.history[cursor];
            self.next_idx[id] = cursor + 1;
            RecvOutcome::Msg(message)
        }
    }
}

/// Broadcast fan-out independence: publishing goes through with zero
/// subscribers (publish has no failure case at all), and a subscriber
/// that attaches when `before` has already been published — its cursor
/// then sits at the end of `before` — has exactly the subsequently
/// published `after` in front of it, none of the historical messages,
/// as long as it polls before falling more than the capacity behind.
pub proof fn lemma_late_subscriber_sees_only_new(
    before: Seq<Message>,
    after: Seq<Message>,
    cap: int,
)
    requires
        cap >= 1,
        after.len() <= cap,
    ensures
        spec_pending(before + after, before.len() as int, cap) == after,
{
    assert((before + after).skip(before.len() as int) =~= after);
}

/// One step of the device-ingress leg: absorb freshly read bytes into the
/// leg's frame buffer and publish every message they complete, in order,
/// to the frontend-bound hub.
pub fn device_ingress_step<const N: usize>(
    buf: &mut MsgBuffer<N>,
    data: &[u8],
    hub: &mut BroadcastHub,
)
    requires
        old(buf).wf(),
        old(hub).wf(),
        old(buf)@.len() + data@.len() <= N,
    ensures
        final (buf).wf(),
        final (hub).wf(),
        final (buf)@ == spec_drain(old(buf)@ + data@).1,
        final (hub).history() == old(hub).history() + spec_drain(old(buf)@ + data@).0,
        final (hub).num_subscribers() == old(hub).num_subscribers(),
        final (hub).capacity() == old(hub).capacity(),
        forall|i: int|
            0 <= i < old(hub).num_subscribers() ==> final (hub).cursor(i) == old(hub).cursor(i),
{
    buf.append(data);
    let mut msgs: Vec<Message> = Vec::new();
    let _ = buf.process_msgs_ok(&mut msgs);
    let ghost batch = msgs@;
    let mut i: usize = 0;
    proof {
        assert(old(hub).history() + batch.take(0) =~= old(hub).history());
    }
    while i < msgs.len()
        invariant
            hub.wf(),
            i <= msgs@.len(),
            msgs@ == batch,
            hub.history() == old(hub).history() + batch.take(i as int),
            hub.num_subscribers() == old(hub).num_subscribers(),
            hub.capacity() == old(hub).capacity(),
            forall|j: int|
                0 <= j < old(hub).num_subscribers() ==> hub.cursor(j) == old(hub).cursor(j),
        decreases msgs@.len() - i,
    {
        hub.publish(msgs[i]);
        i = i + 1;
        proof {
            assert(old(hub).history() + batch.take(i as int) =~= (old(hub).history() + batch.take(
                i as int - 1,
            )).push(batch[i as int - 1]));
        }
    }
    proof {
        assert(batch.take(msgs@.len() as int) =~= batch);
    }
}

/// The greeting the device-egress leg sends the moment its connection
/// comes up: an encoded `InitBoard`, resetting the device's session epoch.
pub fn egress_greeting() -> (r: Vec<u8>)
    ensures
        r@ == spec_encode(Message::InitBoard),
{
    encode(&Message::InitBoard)
}

} // verus!
