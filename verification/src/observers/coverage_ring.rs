//! Process-local stream of newly seen basic-block addresses.
//!
//! Each address is forwarded to the [`CoverageRing`] at most once in the
//! lifetime of a [`CoverageStream`]: addresses already seen are not queued
//! again. The ring is created on the first novel address.
use vstd::prelude::*;
use crate::observers::novelty::{StreamState, offer};
use crate::hashed::{U64Set, u64_set_contents};
use crate::ring::{CoverageRing, DEFAULT_SIZE};

verus! {

/// The set of addresses seen so far and the ring of those not yet drained.
#[derive(Debug)]
pub struct CoverageStream {
    seen: U64Set,
    ring: Option<CoverageRing>,
}

impl CoverageStream {
    /// Every address forwarded so far: queued by [`push_if_new`].
    pub closed spec fn seen(&self) -> Set<u64> {
        u64_set_contents(self.seen)
    }

    /// Addresses queued and not yet drained, oldest first.
    pub closed spec fn pending(&self) -> Seq<u64> {
        match self.ring {
            Some(r) => r.view_pending(),
            None => Seq::<u64>::empty(),
        }
    }

    /// Novel addresses dropped because the ring was full, since the last
    /// [`drain_overflow`].
    pub closed spec fn overflows(&self) -> u64 {
        match self.ring {
            Some(r) => r.view_overflows(),
            None => 0,
        }
    }

    /// The whole observable state: seen, pending, overflows.
    pub open spec fn state(&self) -> StreamState<u64> {
        (self.seen(), self.pending(), self.overflows())
    }

    /// The invariant: queued addresses were seen, and none is queued twice.
    pub closed spec fn wf(&self) -> bool {
        &&& (self.ring matches Some(r) ==> r.wf())
        &&& forall|i: int| 0 <= i < self.pending().len() ==> self.seen().contains(
            #[trigger] self.pending()[i],
        )
        &&& self.pending().no_duplicates()
    }

    /// A stream that has seen nothing.
    pub fn new() -> (s: Self)
        ensures
            s.wf(),
            s.seen() == Set::<u64>::empty(),
            s.pending() == Seq::<u64>::empty(),
            s.overflows() == 0,
    {
        CoverageStream { seen: U64Set::new(), ring: None }
    }
}

/// Queues `bb` unless it was forwarded before. Returns true when `bb` is
/// new and the ring has room for it; only then is it recorded as forwarded.
/// A new address that finds the ring full is counted as an overflow and stays
/// unrecorded, so that a later call can queue it.
pub fn push_if_new(stream: &mut CoverageStream, bb: u64) -> (queued: bool)
    requires
        old(stream).wf(),
    ensures
        final(stream).wf(),
        final(stream).state() == offer(old(stream).state(), bb, DEFAULT_SIZE as nat),
        final(stream).seen() == (if queued {
            old(stream).seen().insert(bb)
        } else {
            old(stream).seen()
        }),
        queued == (!old(stream).seen().contains(bb) && old(stream).pending().len() < DEFAULT_SIZE),
        queued ==> final(stream).pending() == old(stream).pending().push(bb),
        !queued ==> final(stream).pending() == old(stream).pending(),
        (old(stream).seen().contains(bb) || queued) ==> final(stream).overflows() == old(
            stream,
        ).overflows(),
        (!old(stream).seen().contains(bb) && !queued) ==> final(stream).overflows() == old(
            stream,
        ).overflows().wrapping_add(1),
{
    let ghost old_pending = stream.pending();
    if stream.seen.contains(bb) {
        false
    } else {
        if stream.ring.is_none() {
            stream.ring = Some(CoverageRing::new());
        }
        let mut ring = stream.ring.take().unwrap();
        let queued = ring.push(bb);
        stream.ring = Some(ring);
        if queued {
            stream.seen.insert(bb);
        }
        proof {
            assert forall|i: int| 0 <= i < stream.pending().len() implies stream.seen().contains(
                #[trigger] stream.pending()[i],
            ) by {
                if i < old_pending.len() {
                    assert(stream.pending()[i] == old_pending[i]);
                }
            }
            if queued {
                assert(!old_pending.contains(bb));
                assert forall|i: int, j: int|
                    0 <= i < stream.pending().len() && 0 <= j < stream.pending().len() && i != j
                    implies stream.pending()[i] != stream.pending()[j] by {
                    if i < old_pending.len() && j < old_pending.len() {
                    } else if i < old_pending.len() {
                        assert(stream.pending()[i] == old_pending[i]);
                    } else {
                        assert(stream.pending()[j] == old_pending[j]);
                    }
                }
            }
        }
        queued
    }
}

/// Takes every queued address, oldest first; empty when nothing was ever
/// queued.
pub fn drain(stream: &mut CoverageStream) -> (out: Vec<u64>)
    requires
        old(stream).wf(),
    ensures
        final(stream).wf(),
        out@ == old(stream).pending(),
        final(stream).pending() == Seq::<u64>::empty(),
        final(stream).seen() == old(stream).seen(),
        final(stream).overflows() == old(stream).overflows(),
{
    let mut buf: Vec<u64> = Vec::new();
    match stream.ring.take() {
        None => {},
        Some(mut ring) => {
            ring.drain(&mut buf);
            stream.ring = Some(ring);
        },
    }
    buf
}

/// Takes the overflow counter: novel addresses dropped since the last call.
pub fn drain_overflow(stream: &mut CoverageStream) -> (n: u64)
    requires
        old(stream).wf(),
    ensures
        final(stream).wf(),
        n == old(stream).overflows(),
        final(stream).overflows() == 0,
        final(stream).pending() == old(stream).pending(),
        final(stream).seen() == old(stream).seen(),
{
    match stream.ring.take() {
        None => 0,
        Some(mut ring) => {
            let n = ring.drain_overflow();
            stream.ring = Some(ring);
            n
        },
    }
}

} // verus!
