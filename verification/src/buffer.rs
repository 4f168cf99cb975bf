//! Fixed-capacity frame buffer.
//!
//! A [`MsgBuffer`] absorbs raw socket reads at its free tail, then decodes
//! as many complete messages as possible from the front and compacts any
//! undecodable remainder back to offset zero, so that a message split
//! across two reads is reassembled without losing or duplicating a byte.

use crate::codec::{decode_one, spec_decode, spec_encode};
use crate::codec::{lemma_decode_encode, lemma_decode_prefix, lemma_encode_len,
    lemma_encode_prefix_needs_more};
use crate::msg::Message;
use vstd::prelude::*;

verus! {

/// Bounds on the byte count one decode consumes, shown from the decoder's
/// definition: a decoded message occupies at least one byte and never more
/// than the buffer held.
pub proof fn lemma_decode_some_len(s: Seq<u8>)
    ensures
        spec_decode(s) matches Some((m, n)) ==> 1 <= n <= s.len(),
{
}

/// Greedy decoding: the messages found at the front of `s`, in order, and
/// the undecodable remainder.
pub open spec fn spec_drain(s: Seq<u8>) -> (Seq<Message>, Seq<u8>)
    decreases s.len(),
{
    match spec_decode(s) {
        Some((m, n)) => {
            if 1 <= n <= s.len() {
                let r = spec_drain(s.skip(n));
                (seq![m] + r.0, r.1)
            } else {
                (Seq::empty(), s)
            }
        },
        None => (Seq::empty(), s),
    }
}

/// The concatenated encodings of a message sequence.
pub open spec fn msgs_bytes(ms: Seq<Message>) -> Seq<u8>
    decreases ms.len(),
{
    if ms.len() == 0 {
        Seq::empty()
    } else {
        spec_encode(ms[0]) + msgs_bytes(ms.skip(1))
    }
}

/// The concatenation of a sequence of byte chunks.
pub open spec fn concat_bytes(chunks: Seq<Seq<u8>>) -> Seq<u8>
    decreases chunks.len(),
{
    if chunks.len() == 0 {
        Seq::empty()
    } else {
        chunks[0] + concat_bytes(chunks.skip(1))
    }
}

/// What a buffer goes through when the chunks arrive one at a time,
/// draining after each: the messages emitted over all drains, and the
/// bytes still pending at the end.
pub open spec fn spec_feed_from(pending: Seq<u8>, chunks: Seq<Seq<u8>>) -> (Seq<Message>, Seq<u8>)
    decreases chunks.len(),
{
    if chunks.len() == 0 {
        (Seq::empty(), pending)
    } else {
        let d = spec_drain(pending + chunks[0]);
        let r = spec_feed_from(d.1, chunks.skip(1));
        (d.0 + r.0, r.1)
    }
}

/// Feeding the chunks into an initially empty buffer.
pub open spec fn spec_feed(chunks: Seq<Seq<u8>>) -> (Seq<Message>, Seq<u8>) {
    spec_feed_from(Seq::empty(), chunks)
}

/// What a drain leaves behind can never be decoded further.
pub proof fn lemma_drain_leftover(s: Seq<u8>)
    ensures
        spec_decode(spec_drain(s).1) is None,
    decreases s.len(),
{
    lemma_decode_some_len(s);
    match spec_decode(s) {
        Some((m, n)) => {
            lemma_drain_leftover(s.skip(n));
        },
        None => {},
    }
}

/// Draining is insensitive to where the byte stream is cut: draining `s`,
/// then draining its leftover with `t` appended, emits the same messages
/// in the same order as draining `s + t` at once.
pub proof fn lemma_drain_append(s: Seq<u8>, t: Seq<u8>)
    ensures
        spec_drain(s + t).0 == spec_drain(s).0 + spec_drain(spec_drain(s).1 + t).0,
        spec_drain(s + t).1 == spec_drain(spec_drain(s).1 + t).1,
    decreases s.len(),
{
    lemma_decode_some_len(s);
    match spec_decode(s) {
        Some((m, n)) => {
            lemma_decode_prefix(s, t);
            assert(s.skip(n) + t =~= (s + t).skip(n));
            lemma_drain_append(s.skip(n), t);
            assert(spec_drain(s + t).0 =~= spec_drain(s).0 + spec_drain(spec_drain(s).1 + t).0);
        },
        None => {
            assert(spec_drain(s).1 + t =~= s + t);
            assert(spec_drain(s + t).0 =~= spec_drain(s).0 + spec_drain(spec_drain(s).1 + t).0);
        },
    }
}

/// Draining a stream of whole encodings followed by undecodable bytes
/// yields exactly those messages, in order, and leaves exactly those bytes.
pub proof fn lemma_drain_concat(ms: Seq<Message>, p: Seq<u8>)
    requires
        spec_decode(p) is None,
    ensures
        spec_drain(msgs_bytes(ms) + p) == (ms, p),
    decreases ms.len(),
{
    if ms.len() == 0 {
        assert(msgs_bytes(ms) + p =~= p);
        assert(ms =~= spec_drain(p).0);
    } else {
        let m = ms[0];
        let e = spec_encode(m);
        let rest = msgs_bytes(ms.skip(1)) + p;
        assert(msgs_bytes(ms) + p =~= e + rest);
        lemma_decode_encode(m, rest);
        lemma_encode_len(m);
        assert((e + rest).skip(e.len() as int) =~= rest);
        lemma_drain_concat(ms.skip(1), p);
        assert(spec_drain(e + rest).0 =~= ms);
    }
}

/// Chunking does not matter: feeding any chunks one at a time, starting
/// from an undecodable pending remainder, ends exactly where draining all
/// their bytes at once would.
pub proof fn lemma_feed_from(pending: Seq<u8>, chunks: Seq<Seq<u8>>)
    requires
        spec_decode(pending) is None,
    ensures
        spec_feed_from(pending, chunks) == spec_drain(pending + concat_bytes(chunks)),
    decreases chunks.len(),
{
    if chunks.len() == 0 {
        assert(pending + concat_bytes(chunks) =~= pending);
        assert(spec_feed_from(pending, chunks).0 =~= spec_drain(pending).0);
    } else {
        let d = spec_drain(pending + chunks[0]);
        lemma_drain_leftover(pending + chunks[0]);
        lemma_feed_from(d.1, chunks.skip(1));
        lemma_drain_append(pending + chunks[0], concat_bytes(chunks.skip(1)));
        assert((pending + chunks[0]) + concat_bytes(chunks.skip(1)) =~= pending + concat_bytes(
            chunks,
        ));
        assert(spec_feed_from(pending, chunks).0 =~= spec_drain(pending + concat_bytes(chunks)).0);
    }
}

/// Framing round-trip: however a stream of whole message encodings is cut
/// into chunks, feeding the chunks one at a time and draining after each
/// reproduces exactly the original messages, in order, with no bytes left.
pub proof fn lemma_framing_round_trip(ms: Seq<Message>, chunks: Seq<Seq<u8>>)
    requires
        concat_bytes(chunks) == msgs_bytes(ms),
    ensures
        spec_feed(chunks).0 == ms,
        spec_feed(chunks).1 == Seq::<u8>::empty(),
{
    lemma_feed_from(Seq::empty(), chunks);
    assert(Seq::<u8>::empty() + concat_bytes(chunks) =~= msgs_bytes(ms) + Seq::<u8>::empty());
    lemma_drain_concat(ms, Seq::empty());
}

/// Compaction correctness: when a chunk boundary cuts one message after
/// `i` bytes, the first drain emits nothing and keeps those `i` bytes, and
/// a drain after the rest arrives emits exactly that one message, with no
/// duplication and no byte loss.
pub proof fn lemma_compaction_round_trip(m: Message, i: int)
    requires
        0 <= i < spec_encode(m).len(),
    ensures
        spec_drain(spec_encode(m).take(i)) == (Seq::<Message>::empty(), spec_encode(m).take(i)),
        spec_drain(spec_encode(m).take(i) + spec_encode(m).skip(i)) == (
            seq![m],
            Seq::<u8>::empty(),
        ),
{
    lemma_encode_prefix_needs_more(m, i);
    assert(spec_encode(m).take(i) + spec_encode(m).skip(i) =~= spec_encode(m));
    assert(seq![m].skip(1) =~= Seq::<Message>::empty());
    assert(msgs_bytes(Seq::<Message>::empty()) == Seq::<u8>::empty());
    assert(msgs_bytes(seq![m]) == spec_encode(m) + msgs_bytes(seq![m].skip(1)));
    assert(msgs_bytes(seq![m]) + Seq::<u8>::empty() =~= spec_encode(m));
    lemma_drain_concat(seq![m], Seq::empty());
}

/// A fixed-capacity accumulation buffer of `N` bytes. The first `cursor`
/// bytes are valid-but-unconsumed; the rest is free space for the next
/// socket read.
pub struct MsgBuffer<const N: usize> {
    buf: Vec<u8>,
    cursor: usize,
}

impl<const N: usize> View for MsgBuffer<N> {
    type V = Seq<u8>;

    /// The valid-but-unconsumed bytes at the front of the buffer.
    closed spec fn view(&self) -> Seq<u8> {
        self.buf@.take(self.cursor as int)
    }
}

impl<const N: usize> MsgBuffer<N> {
    /// The backing storage always spans exactly `N` bytes, of which the
    /// first `cursor` are valid.
    pub closed spec fn wf(&self) -> bool {
        self.buf@.len() == N && self.cursor <= N
    }

    /// A well-formed buffer never holds more than its capacity.
    pub proof fn lemma_len_bounded(&self)
        requires
            self.wf(),
        ensures
            self@.len() <= N,
    {
    }

    /// An empty buffer of capacity `N`.
    pub fn new() -> (r: Self)
        ensures
            r.wf(),
            r@ == Seq::<u8>::empty(),
    {
        let r = MsgBuffer { buf: vec![0u8; N], cursor: 0 };
        proof {
            assert(r@ =~= Seq::<u8>::empty());
        }
        r
    }

    /// The length of the free region after the valid bytes — the space
    /// available for the next read. Zero means the buffer is full of
    /// undecodable data and the caller must treat it as a protocol error.
    pub fn as_buf(&self) -> (free: usize)
        requires
            self.wf(),
        ensures
            free == N - self@.len(),
    {
        N - self.cursor
    }

    /// Appends freshly read bytes after the valid region, as a socket read
    /// into the free tail would.
    pub fn append(&mut self, data: &[u8])
        requires
            old(self).wf(),
            old(self)@.len() + data@.len() <= N,
        ensures
            final (self).wf(),
            final (self)@ == old(self)@ + data@,
    {
        let len = data.len();
        let mut i: usize = 0;
        while i < len
            invariant
                self.wf(),
                i <= len,
                len == data@.len(),
                self.cursor == old(self).cursor + i,
                old(self).cursor + len <= N,
                self.buf@ == old(self).buf@.map(
                    |j: int, b: u8|
                        if old(self).cursor <= j < old(self).cursor + i {
                            data@[j - old(self).cursor]
                        } else {
                            b
                        },
                ),
            decreases len - i,
        {
            let b = *vstd::slice::slice_index_get(data, i);
            self.buf[self.cursor] = b;
            self.cursor = self.cursor + 1;
            i = i + 1;
            proof {
                assert(self.buf@ =~= old(self).buf@.map(
                    |j: int, b: u8|
                        if old(self).cursor <= j < old(self).cursor + i {
                            data@[j - old(self).cursor]
                        } else {
                            b
                        },
                ));
            }
        }
        proof {
            assert(self@ =~= old(self)@ + data@);
        }
    }

    /// Decodes as many complete messages as possible from the front,
    /// appends them to `msgs` in order, and compacts the undecodable
    /// remainder to offset zero. Returns `true` exactly when the buffer
    /// held something and every byte of it became a decoded message.
    pub fn process_msgs_ok(&mut self, msgs: &mut Vec<Message>) -> (ok: bool)
        requires
            old(self).wf(),
        ensures
            final (self).wf(),
            final (msgs)@ == old(msgs)@ + spec_drain(old(self)@).0,
            final (self)@ == spec_drain(old(self)@).1,
            ok == (old(self)@.len() > 0 && spec_drain(old(self)@).1.len() == 0),
    {
        let ghost view0 = old(self)@;
        let mut start: usize = 0;
        let ghost mut taken: Seq<Message> = Seq::empty();
        proof {
            assert(view0.skip(0) =~= view0);
            assert(Seq::<Message>::empty() + spec_drain(view0).0 =~= spec_drain(view0).0);
        }
        loop
            invariant
                self.buf@ == old(self).buf@,
                self.cursor == old(self).cursor,
                self.buf@.len() == N,
                self.cursor <= N,
                view0 == self.buf@.take(self.cursor as int),
                view0.len() == self.cursor,
                start <= self.cursor,
                start < self.cursor || start == 0,
                start > 0 ==> view0.len() > 0,
                msgs@ == old(msgs)@ + taken,
                spec_drain(view0).0 == taken + spec_drain(view0.skip(start as int)).0,
                spec_drain(view0).1 == spec_drain(view0.skip(start as int)).1,
            decreases self.cursor - start,
        {
            let ghost rem = view0.skip(start as int);
            let bytes = vstd::slice::slice_subrange(self.buf.as_slice(), start, self.cursor);
            proof {
                assert(bytes@ =~= rem);
            }
            match decode_one(bytes) {
                Ok((m, n)) => {
                    proof {
                        assert(spec_decode(rem) == Some((m, n as int)));
                        assert(spec_drain(rem) == (
                            seq![m] + spec_drain(rem.skip(n as int)).0,
                            spec_drain(rem.skip(n as int)).1,
                        ));
                        assert(rem.skip(n as int) =~= view0.skip(start as int + n as int));
                        taken = taken + seq![m];
                        assert(spec_drain(view0).0 =~= taken + spec_drain(
                            view0.skip(start as int + n as int),
                        ).0);
                    }
                    msgs.push(m);
                    start = start + n;
                    if start == self.cursor {
                        self.cursor = 0;
                        proof {
                            let done = view0.skip(start as int);
                            assert(done =~= Seq::<u8>::empty());
                            assert(spec_drain(done).0 =~= Seq::<Message>::empty());
                            assert(taken + Seq::<Message>::empty() =~= taken);
                            assert(self@ =~= Seq::<u8>::empty());
                        }
                        return true;
                    }
                },
                Err(_) => {
                    proof {
                        assert(spec_decode(rem) is None);
                        assert(spec_drain(rem).0 =~= Seq::<Message>::empty());
                        assert(taken + Seq::<Message>::empty() =~= taken);
                    }
                    let left = self.cursor - start;
                    let ghost bsnap = self.buf@;
                    let mut idx: usize = 0;
                    while idx < left
                        invariant
                            idx <= left,
                            start + left == self.cursor,
                            self.cursor == old(self).cursor,
                            self.cursor <= N,
                            self.buf@.len() == N,
                            bsnap.len() == N,
                            forall|j: int| 0 <= j < idx ==> self.buf@[j] == bsnap[start + j],
                            forall|j: int| idx <= j < N ==> self.buf@[j] == bsnap[j],
                        decreases left - idx,
                    {
                        let b = self.buf[start + idx];
                        self.buf[idx] = b;
                        idx = idx + 1;
                    }
                    self.cursor = left;
                    proof {
                        assert(self@ =~= rem);
                    }
                    return false;
                },
            }
        }
    }
}

/// An empty buffer, same as [`MsgBuffer::new`].
impl<const N: usize> Default for MsgBuffer<N> {
    fn default() -> (r: Self)
        ensures
            r.wf(),
            r@ == Seq::<u8>::empty(),
    {
        MsgBuffer::new()
    }
}

} // verus!
