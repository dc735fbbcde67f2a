//! Process-local stream of newly seen edge-signal slot indices.
//!
//! Each signal is forwarded to the [`SignalRing`] at most once in the
//! lifetime of a [`SignalStream`]: signals already seen are not queued
//! again. The ring is created on the first novel signal.
use vstd::prelude::*;
use crate::observers::novelty::{StreamState, offer};
use crate::hashed::{U32Set, u32_set_contents};
use crate::ring::{SignalRing, SIGNAL_DEFAULT_SIZE};

verus! {

/// The set of signals seen so far and the ring of those not yet drained.
#[derive(Debug)]
pub struct SignalStream {
    seen: U32Set,
    ring: Option<SignalRing>,
}

impl SignalStream {
    /// Every signal forwarded so far: queued by [`push_if_new`].
    pub closed spec fn seen(&self) -> Set<u32> {
        u32_set_contents(self.seen)
    }

    /// Signals queued and not yet drained, oldest first.
    pub closed spec fn pending(&self) -> Seq<u32> {
        match self.ring {
            Some(r) => r.view_pending(),
            None => Seq::<u32>::empty(),
        }
    }

    /// Novel signals dropped because the ring was full, since the last
    /// [`drain_overflow`].
    pub closed spec fn overflows(&self) -> u64 {
        match self.ring {
            Some(r) => r.view_overflows(),
            None => 0,
        }
    }

    /// The whole observable state: seen, pending, overflows.
    pub open spec fn state(&self) -> StreamState<u32> {
        (self.seen(), self.pending(), self.overflows())
    }

    /// The invariant: queued signals were seen, and none is queued twice.
    pub closed spec fn wf(&self) -> bool {
        &&& (self.ring matches Some(r) ==> r.wf())
        &&& forall|i: int| 0 <= i < self.pending().len() ==> self.seen().contains(
            #[trigger] self.pending()[i],
        )
        &&& self.pending().no_duplicates()
    }

    /// A stream that has seen nothing.
    pub fn new() -> (s: Self)
        ensures
            s.wf(),
            s.seen() == Set::<u32>::empty(),
            s.pending() == Seq::<u32>::empty(),
            s.overflows() == 0,
    {
        SignalStream { seen: U32Set::new(), ring: None }
    }
}

/// Queues `signal` unless it was forwarded before. Returns true when `signal` is
/// new and the ring has room for it; only then is it recorded as forwarded.
/// A new signal that finds the ring full is counted as an overflow and stays
/// unrecorded, so that a later call can queue it.
pub fn push_if_new(stream: &mut SignalStream, signal: u32) -> (queued: bool)
    requires
        old(stream).wf(),
    ensures
        final(stream).wf(),
        final(stream).state() == offer(old(stream).state(), signal, SIGNAL_DEFAULT_SIZE as nat),
        final(stream).seen() == (if queued {
            old(stream).seen().insert(signal)
        } else {
            old(stream).seen()
        }),
        queued == (!old(stream).seen().contains(signal) && old(stream).pending().len() < SIGNAL_DEFAULT_SIZE),
        queued ==> final(stream).pending() == old(stream).pending().push(signal),
        !queued ==> final(stream).pending() == old(stream).pending(),
        (old(stream).seen().contains(signal) || queued) ==> final(stream).overflows() == old(
            stream,
        ).overflows(),
        (!old(stream).seen().contains(signal) && !queued) ==> final(stream).overflows() == old(
            stream,
        ).overflows().wrapping_add(1),
{
    let ghost old_pending = stream.pending();
    if stream.seen.contains(signal) {
        false
    } else {
        if stream.ring.is_none() {
            stream.ring = Some(SignalRing::new());
        }
        let mut ring = stream.ring.take().unwrap();
        let queued = ring.push(signal);
        stream.ring = Some(ring);
        if queued {
            stream.seen.insert(signal);
        }
        proof {
            assert forall|i: int| 0 <= i < stream.pending().len() implies stream.seen().contains(
                #[trigger] stream.pending()[i],
            ) by {
                if i < old_pending.len() {
                    assert(stream.pending()[i] == old_pending[i]);
                }
            }
            if queued {
                assert(!old_pending.contains(signal));
                assert forall|i: int, j: int|
                    0 <= i < stream.pending().len() && 0 <= j < stream.pending().len() && i != j
                    implies stream.pending()[i] != stream.pending()[j] by {
                    if i < old_pending.len() && j < old_pending.len() {
                    } else if i < old_pending.len() {
                        assert(stream.pending()[i] == old_pending[i]);
                    } else {
                        assert(stream.pending()[j] == old_pending[j]);
                    }
                }
            }
        }
        queued
    }
}

/// Takes every queued signal, oldest first; empty when nothing was ever
/// queued.
pub fn drain(stream: &mut SignalStream) -> (out: Vec<u32>)
    requires
        old(stream).wf(),
    ensures
        final(stream).wf(),
        out@ == old(stream).pending(),
        final(stream).pending() == Seq::<u32>::empty(),
        final(stream).seen() == old(stream).seen(),
        final(stream).overflows() == old(stream).overflows(),
{
    let mut buf: Vec<u32> = Vec::new();
    match stream.ring.take() {
        None => {},
        Some(mut ring) => {
            ring.drain(&mut buf);
            stream.ring = Some(ring);
        },
    }
    buf
}

/// Takes the overflow counter: novel signals dropped since the last call.
pub fn drain_overflow(stream: &mut SignalStream) -> (n: u64)
    requires
        old(stream).wf(),
    ensures
        final(stream).wf(),
        n == old(stream).overflows(),
        final(stream).overflows() == 0,
        final(stream).pending() == old(stream).pending(),
        final(stream).seen() == old(stream).seen(),
{
    match stream.ring.take() {
        None => 0,
        Some(mut ring) => {
            let n = ring.drain_overflow();
            stream.ring = Some(ring);
            n
        },
    }
}

} // verus!
