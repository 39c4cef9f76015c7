//! The reliability layer over the unreliable transport: delivery modes,
//! fragmentation of oversized payloads, and the per-mode acceptance rules
//! for sequence numbers.

use vstd::prelude::*;

verus! {

/// The delivery guarantee of one channel.
#[derive(Clone, Copy, Debug, PartialEq, Eq, Structural)]
pub enum DeliveryMode {
    /// Anything may be lost, duplicated or reordered.
    UnreliableUnordered,
    /// Only the newest payload matters; older ones are silently dropped.
    UnreliableSequenced,
    /// Everything arrives, in send order, without duplicates.
    ReliableOrdered,
    /// Everything arrives, in any order.
    ReliableUnordered,
}

/// The bytes of the fragments, concatenated in order.
pub open spec fn spec_concat(frags: Seq<Seq<u8>>) -> Seq<u8>
    decreases frags.len(),
{
    if frags.len() == 0 {
        Seq::empty()
    } else {
        spec_concat(frags.drop_last()) + frags.last()
    }
}

/// The fragment views of a fragment list.
pub open spec fn spec_frag_views(frags: Seq<Vec<u8>>) -> Seq<Seq<u8>> {
    frags.map_values(|f: Vec<u8>| f@)
}

/// Split `payload` into fragments of at most `max_size` bytes whose
/// concatenation is exactly the payload.
pub fn fragment(payload: &Vec<u8>, max_size: usize) -> (r: Vec<Vec<u8>>)
    requires
        max_size >= 1,
    ensures
        spec_concat(spec_frag_views(r@)) =~= payload@,
        forall|k: int| 0 <= k < r@.len() ==> (#[trigger] r@[k])@.len() <= max_size,
        payload@.len() == 0 ==> r@.len() == 0,
{
    let n = payload.len();
    let mut frags: Vec<Vec<u8>> = Vec::new();
    let mut i: usize = 0;
    while i < n
        invariant
            i <= n,
            n == payload@.len(),
            max_size >= 1,
            spec_concat(spec_frag_views(frags@)) =~= payload@.take(i as int),
            forall|k: int| 0 <= k < frags@.len() ==> (#[trigger] frags@[k])@.len() <= max_size,
            i == 0 ==> frags@.len() == 0,
        decreases n - i,
    {
        let take = if n - i < max_size {
            n - i
        } else {
            max_size
        };
        let mut chunk: Vec<u8> = Vec::new();
        let mut k: usize = 0;
        while k < take
            invariant
                k <= take,
                i + take <= n,
                n == payload@.len(),
                chunk@ =~= payload@.subrange(i as int, i + k),
            decreases take - k,
        {
            chunk.push(payload[i + k]);
            proof {
                assert(chunk@ =~= payload@.subrange(i as int, i + k + 1));
            }
            k = k + 1;
        }
        let ghost frags0 = frags@;
        let ghost prev_take = i as int;
        frags.push(chunk);
        i = i + take;
        proof {
            assert(spec_frag_views(frags@) =~= spec_frag_views(frags0).push(
                payload@.subrange(prev_take, i as int),
            ));
            assert(spec_frag_views(frags@).drop_last() =~= spec_frag_views(frags0));
            assert(payload@.take(i as int) =~= payload@.take(prev_take) + payload@.subrange(
                prev_take,
                i as int,
            ));
        }
    }
    proof {
        assert(payload@.take(n as int) =~= payload@);
    }
    frags
}

/// Reassemble fragments into the original payload: the inverse of
/// [`fragment`], byte for byte.
pub fn reassemble(frags: &Vec<Vec<u8>>) -> (r: Vec<u8>)
    ensures
        r@ =~= spec_concat(spec_frag_views(frags@)),
{
    let n = frags.len();
    let mut out: Vec<u8> = Vec::new();
    let mut i: usize = 0;
    while i < n
        invariant
            i <= n,
            n == frags@.len(),
            out@ =~= spec_concat(spec_frag_views(frags@.take(i as int))),
        decreases n - i,
    {
        let ghost out0 = out@;
        let m = frags[i].len();
        let mut k: usize = 0;
        while k < m
            invariant
                k <= m,
                i < n,
                n == frags@.len(),
                m == frags@[i as int]@.len(),
                out@ =~= out0 + frags@[i as int]@.subrange(0, k as int),
            decreases m - k,
        {
            let b = frags[i][k];
            out.push(b);
            proof {
                assert(out@ =~= out0 + frags@[i as int]@.subrange(0, k + 1));
            }
            k = k + 1;
        }
        proof {
            assert(frags@[i as int]@.subrange(0, m as int) =~= frags@[i as int]@);
            assert(spec_frag_views(frags@.take(i + 1)).drop_last() =~= spec_frag_views(
                frags@.take(i as int),
            ));
            assert(spec_frag_views(frags@.take(i + 1)).last() =~= frags@[i as int]@);
        }
        i = i + 1;
    }
    proof {
        assert(frags@.take(n as int) =~= frags@);
    }
    out
}

/// The acceptance rule of an unreliable-sequenced channel: only a payload
/// newer than everything seen before is delivered; superseded ones are
/// silently dropped.
pub struct SequencedReceiver {
    latest: Option<u64>,
}

impl SequencedReceiver {
    /// The newest sequence number accepted so far.
    pub closed spec fn spec_latest(&self) -> Option<u64> {
        self.latest
    }

    /// A receiver that has seen nothing.
    pub fn new() -> (r: SequencedReceiver)
        ensures
            r.spec_latest() is None,
    {
        SequencedReceiver { latest: None }
    }

    /// Whether the datagram with `seq` is delivered: exactly when it is
    /// newer than every sequence seen before.  An accepted sequence
    /// becomes the newest; a dropped one changes nothing.
    pub fn accept(&mut self, seq: u64) -> (r: bool)
        ensures
            r == (match old(self).spec_latest() {
                Some(latest) => seq > latest,
                None => true,
            }),
            r ==> final(self).spec_latest() == Some(seq),
            !r ==> *final(self) == *old(self),
    {
        match self.latest {
            Some(latest) => {
                if seq > latest {
                    self.latest = Some(seq);
                    true
                } else {
                    false
                }
            },
            None => {
                self.latest = Some(seq);
                true
            },
        }
    }
}

/// The acceptance rule of a reliable-ordered channel: a datagram is
/// delivered exactly when it carries the next expected sequence number, so
/// payloads come out in send order with nothing skipped or duplicated;
/// anything younger is a duplicate, anything older waits in the peer's
/// retransmission buffer.
pub struct OrderedReceiver {
    next: u64,
}

impl OrderedReceiver {
    /// The next sequence number to deliver.
    pub closed spec fn spec_next(&self) -> u64 {
        self.next
    }

    /// A receiver expecting sequence numbers from `first` on.
    pub fn new(first: u64) -> (r: OrderedReceiver)
        ensures
            r.spec_next() == first,
    {
        OrderedReceiver { next: first }
    }

    /// Whether the datagram with `seq` is delivered now: exactly the next
    /// expected one, which advances the expectation by one.  Anything
    /// below `next` was already delivered once and is dropped as a
    /// duplicate; anything above is out of order and not yet deliverable.
    pub fn accept(&mut self, seq: u64) -> (r: bool)
        requires
            old(self).spec_next() < u64::MAX,
        ensures
            r == (seq == old(self).spec_next()),
            r ==> final(self).spec_next() == old(self).spec_next() + 1,
            !r ==> *final(self) == *old(self),
    {
        if seq == self.next {
            self.next = self.next + 1;
            true
        } else {
            false
        }
    }
}

} // verus!
