//! Single-producer single-consumer ring buffers for streaming coverage data.
//!
//! A ring holds at most `capacity()` pending entries. `push` never blocks: when
//! the ring is full the entry is dropped and counted in an overflow counter.
//! `drain` hands out every pending entry, oldest first, and empties the ring.
//!
//! The write position (`head`) and read position (`tail`) are free-running
//! counters that wrap around `usize`; the slot of a position is the position
//! modulo the (power of two) capacity.
use vstd::prelude::*;
use vstd::arithmetic::div_mod::{
    lemma_fundamental_div_mod, lemma_mod_mod, lemma_mod_sub_multiples_vanish, lemma_small_mod,
};

verus! {

/// Number of entries of a [`CoverageRing`].
pub const DEFAULT_SIZE: usize = 65536;

/// Number of entries of a [`SignalRing`].
pub const SIGNAL_DEFAULT_SIZE: usize = 16384;

/// The number of distinct `usize` values.
pub open spec fn usize_range() -> int {
    usize::MAX as int + 1
}

/// Distance from `tail` forward to `head` on the wrapping `usize` circle.
pub open spec fn wrapping_distance(head: usize, tail: usize) -> nat {
    if head >= tail {
        (head - tail) as nat
    } else {
        (head + usize_range() - tail) as nat
    }
}

/// Reducing modulo the `usize` range first does not change a remainder
/// modulo a divisor of that range.
pub proof fn lemma_mod_usize_range(x: int, m: int)
    requires
        0 < m,
        usize_range() % m == 0,
    ensures
        (x % usize_range()) % m == x % m,
{
    let r = usize_range();
    let b = r / m;
    lemma_fundamental_div_mod(r, m);
    assert(r == m * b);
    assert(b > 0) by (nonlinear_arith)
        requires
            r == m * b,
            r > 0,
            m > 0,
    ;
    lemma_mod_mod(x, m, b);
}

/// Reducing a value below twice the `usize` range subtracts the range at most once.
pub proof fn lemma_wrap_once(x: int)
    requires
        0 <= x < 2 * usize_range(),
    ensures
        x < usize_range() ==> x % usize_range() == x,
        x >= usize_range() ==> x % usize_range() == x - usize_range(),
{
    let r = usize_range();
    if x < r {
        lemma_small_mod(x as nat, r as nat);
    } else {
        lemma_mod_sub_multiples_vanish(x, r);
        lemma_small_mod((x - r) as nat, r as nat);
    }
}

/// Two positions less than `m` apart land in different slots modulo `m`.
pub proof fn lemma_mod_distinct(a: int, i: int, j: int, m: int)
    requires
        0 < m,
        0 <= a,
        0 <= i < j,
        j - i < m,
    ensures
        (a + i) % m != (a + j) % m,
{
    let x = a + i;
    let y = a + j;
    lemma_fundamental_div_mod(x, m);
    lemma_fundamental_div_mod(y, m);
    let qx = x / m;
    let qy = y / m;
    if x % m == y % m {
        assert(y - x == m * (qy - qx)) by (nonlinear_arith)
            requires
                x == m * qx + x % m,
                y == m * qy + y % m,
                x % m == y % m,
        ;
        assert(false) by (nonlinear_arith)
            requires
                y - x == m * (qy - qx),
                0 < y - x < m,
                0 < m,
        ;
    }
}

/// A fixed-capacity FIFO ring of `Copy` entries with an overflow counter.
#[derive(Debug)]
pub struct SpscRing<T> {
    buffer: Vec<T>,
    head: usize,
    tail: usize,
    overflow_count: u64,
}

impl<T: Copy> SpscRing<T> {
    /// The capacity of the ring.
    pub closed spec fn cap(&self) -> nat {
        self.buffer.len() as nat
    }

    /// Number of entries pushed and not yet drained.
    pub closed spec fn count(&self) -> nat {
        wrapping_distance(self.head, self.tail)
    }

    /// The internal invariant: the capacity divides the `usize` range and
    /// never more than `cap` entries are pending.
    pub closed spec fn wf(&self) -> bool {
        &&& self.buffer.len() > 0
        &&& usize_range() % (self.buffer.len() as int) == 0
        &&& wrapping_distance(self.head, self.tail) <= self.buffer.len()
    }

    /// The pending entries, oldest first.
    pub closed spec fn pending(&self) -> Seq<T> {
        Seq::new(
            self.count(),
            |i: int| self.buffer@[(self.tail + i) % (self.buffer.len() as int)],
        )
    }

    /// The overflow counter.
    pub closed spec fn overflows(&self) -> u64 {
        self.overflow_count
    }

    /// An empty ring of the given capacity, filled with `fill`.
    pub fn with_capacity(capacity: usize, fill: T) -> (r: Self)
        requires
            capacity > 0,
            usize_range() % (capacity as int) == 0,
        ensures
            r.wf(),
            r.cap() == capacity,
            r.pending() == Seq::<T>::empty(),
            r.overflows() == 0,
    {
        let buffer = vec![fill; capacity];
        let r = SpscRing { buffer, head: 0, tail: 0, overflow_count: 0 };
        assert(r.pending() =~= Seq::<T>::empty());
        r
    }

    /// The capacity of the ring.
    pub fn capacity(&self) -> (c: usize)
        ensures
            c == self.cap(),
    {
        self.buffer.len()
    }

    /// Takes the overflow counter, resetting it to zero.
    pub fn drain_overflow(&mut self) -> (n: u64)
        ensures
            n == old(self).overflows(),
            final(self).overflows() == 0,
            final(self).pending() == old(self).pending(),
            final(self).cap() == old(self).cap(),
            old(self).wf() ==> final(self).wf(),
    {
        let n = self.overflow_count;
        self.overflow_count = 0;
        n
    }

    /// Number of pending entries.
    pub fn len(&self) -> (n: usize)
        requires
            self.wf(),
        ensures
            n == self.pending().len(),
    {
        self.head.wrapping_sub(self.tail)
    }

    /// Whether no entry is pending.
    pub fn is_empty(&self) -> (b: bool)
        requires
            self.wf(),
        ensures
            b == (self.pending().len() == 0),
    {
        self.len() == 0
    }

    /// Appends `value` when fewer than `cap` entries are pending; otherwise
    /// drops it and bumps the overflow counter (wrapping).
    pub fn push(&mut self, value: T) -> (accepted: bool)
        requires
            old(self).wf(),
        ensures
            final(self).wf(),
            final(self).cap() == old(self).cap(),
            accepted == (old(self).pending().len() < old(self).cap()),
            accepted ==> final(self).pending() == old(self).pending().push(value),
            accepted ==> final(self).overflows() == old(self).overflows(),
            !accepted ==> final(self).pending() == old(self).pending(),
            !accepted ==> final(self).overflows() == old(self).overflows().wrapping_add(1),
    {
        let cap = self.buffer.len();
        let count = self.head.wrapping_sub(self.tail);
        if count >= cap {
            self.overflow_count = self.overflow_count.wrapping_add(1);
            return false;
        }
        let ghost old_pending = self.pending();
        let ghost t = self.tail as int;
        let ghost c = count as int;
        let idx = self.head % cap;
        proof {
            // head is (tail + count) reduced modulo the usize range
            assert(self.head as int == (t + c) % usize_range());
            lemma_mod_usize_range(t + c, cap as int);
            assert(idx as int == (t + c) % (cap as int));
        }
        self.buffer.set(idx, value);
        self.head = self.head.wrapping_add(1);
        proof {
            assert(self.count() == c + 1);
            assert forall|i: int| 0 <= i < c implies #[trigger] self.pending()[i] == old_pending[i] by {
                lemma_mod_distinct(t, i, c, cap as int);
            }
            assert(self.pending() =~= old_pending.push(value));
        }
        true
    }

    /// Moves every pending entry, oldest first, into `out` (which is cleared
    /// first) and empties the ring.
    pub fn drain(&mut self, out: &mut Vec<T>)
        requires
            old(self).wf(),
        ensures
            final(self).wf(),
            final(self).cap() == old(self).cap(),
            final(out)@ == old(self).pending(),
            final(self).pending() == Seq::<T>::empty(),
            final(self).overflows() == old(self).overflows(),
    {
        out.clear();
        let cap = self.buffer.len();
        let tail = self.tail;
        let head = self.head;
        let count = head.wrapping_sub(tail);
        if count == 0 {
            assert(self.pending() =~= Seq::<T>::empty());
            return;
        }
        out.reserve(count);
        let mut i: usize = 0;
        while i < count
            invariant
                self.wf(),
                cap == self.buffer.len(),
                tail == self.tail,
                head == self.head,
                count == self.count(),
                i <= count,
                out@ =~= self.pending().subrange(0, i as int),
            decreases count - i,
        {
            let pos = tail.wrapping_add(i);
            let idx = pos % cap;
            proof {
                lemma_wrap_once(tail + i);
                assert(pos as int == (tail + i) % usize_range());
                lemma_mod_usize_range(tail + i, cap as int);
                assert(self.buffer@[idx as int] == self.pending()[i as int]);
            }
            out.push(self.buffer[idx]);
            i = i + 1;
        }
        assert(out@ =~= self.pending());
        self.tail = head;
        assert(self.pending() =~= Seq::<T>::empty());
    }
}

/// Lock-free-style SPSC ring of `u64` basic-block addresses.
#[derive(Debug)]
pub struct CoverageRing {
    ring: SpscRing<u64>,
}

impl CoverageRing {
    /// The internal invariant.
    pub closed spec fn wf(&self) -> bool {
        self.ring.wf() && self.ring.cap() == DEFAULT_SIZE
    }

    /// The pending addresses, oldest first.
    pub closed spec fn view_pending(&self) -> Seq<u64> {
        self.ring.pending()
    }

    /// The overflow counter.
    pub closed spec fn view_overflows(&self) -> u64 {
        self.ring.overflows()
    }

    /// An empty ring of [`DEFAULT_SIZE`] entries.
    pub fn new() -> (r: Self)
        ensures
            r.wf(),
            r.view_pending() == Seq::<u64>::empty(),
            r.view_overflows() == 0,
    {
        assert(usize_range() % (DEFAULT_SIZE as int) == 0);
        CoverageRing { ring: SpscRing::with_capacity(DEFAULT_SIZE, 0) }
    }

    /// The capacity, [`DEFAULT_SIZE`].
    pub fn capacity(&self) -> (c: usize)
        requires
            self.wf(),
        ensures
            c == DEFAULT_SIZE,
    {
        self.ring.capacity()
    }

    /// Takes the overflow counter: the number of entries dropped since the
    /// last call.
    pub fn drain_overflow(&mut self) -> (n: u64)
        requires
            old(self).wf(),
        ensures
            final(self).wf(),
            n == old(self).view_overflows(),
            final(self).view_overflows() == 0,
            final(self).view_pending() == old(self).view_pending(),
    {
        self.ring.drain_overflow()
    }

    /// Pushes an address; returns false, counting an overflow, when full.
    pub fn push(&mut self, value: u64) -> (accepted: bool)
        requires
            old(self).wf(),
        ensures
            final(self).wf(),
            accepted == (old(self).view_pending().len() < DEFAULT_SIZE),
            accepted ==> final(self).view_pending() == old(self).view_pending().push(value),
            accepted ==> final(self).view_overflows() == old(self).view_overflows(),
            !accepted ==> final(self).view_pending() == old(self).view_pending(),
            !accepted ==> final(self).view_overflows() == old(self).view_overflows().wrapping_add(1),
    {
        self.ring.push(value)
    }

    /// Clears `out` and moves every pending address into it, oldest first.
    pub fn drain(&mut self, out: &mut Vec<u64>)
        requires
            old(self).wf(),
        ensures
            final(self).wf(),
            final(out)@ == old(self).view_pending(),
            final(self).view_pending() == Seq::<u64>::empty(),
            final(self).view_overflows() == old(self).view_overflows(),
    {
        self.ring.drain(out)
    }

    /// Number of pending addresses.
    pub fn len(&self) -> (n: usize)
        requires
            self.wf(),
        ensures
            n == self.view_pending().len(),
    {
        self.ring.len()
    }

    /// Whether no address is pending.
    pub fn is_empty(&self) -> (b: bool)
        requires
            self.wf(),
        ensures
            b == (self.view_pending().len() == 0),
    {
        self.ring.is_empty()
    }
}

/// SPSC ring of `u32` edge-signal slot indices.
#[derive(Debug)]
pub struct SignalRing {
    ring: SpscRing<u32>,
}

impl SignalRing {
    /// The internal invariant.
    pub closed spec fn wf(&self) -> bool {
        self.ring.wf() && self.ring.cap() == SIGNAL_DEFAULT_SIZE
    }

    /// The pending signals, oldest first.
    pub closed spec fn view_pending(&self) -> Seq<u32> {
        self.ring.pending()
    }

    /// The overflow counter.
    pub closed spec fn view_overflows(&self) -> u64 {
        self.ring.overflows()
    }

    /// An empty ring of [`SIGNAL_DEFAULT_SIZE`] entries.
    pub fn new() -> (r: Self)
        ensures
            r.wf(),
            r.view_pending() == Seq::<u32>::empty(),
            r.view_overflows() == 0,
    {
        assert(usize_range() % (SIGNAL_DEFAULT_SIZE as int) == 0);
        SignalRing { ring: SpscRing::with_capacity(SIGNAL_DEFAULT_SIZE, 0) }
    }

    /// The capacity, [`SIGNAL_DEFAULT_SIZE`].
    pub fn capacity(&self) -> (c: usize)
        requires
            self.wf(),
        ensures
            c == SIGNAL_DEFAULT_SIZE,
    {
        self.ring.capacity()
    }

    /// Takes the overflow counter.
    pub fn drain_overflow(&mut self) -> (n: u64)
        requires
            old(self).wf(),
        ensures
            final(self).wf(),
            n == old(self).view_overflows(),
            final(self).view_overflows() == 0,
            final(self).view_pending() == old(self).view_pending(),
    {
        self.ring.drain_overflow()
    }

    /// Pushes a signal; returns false, counting an overflow, when full.
    pub fn push(&mut self, value: u32) -> (accepted: bool)
        requires
            old(self).wf(),
        ensures
            final(self).wf(),
            accepted == (old(self).view_pending().len() < SIGNAL_DEFAULT_SIZE),
            accepted ==> final(self).view_pending() == old(self).view_pending().push(value),
            accepted ==> final(self).view_overflows() == old(self).view_overflows(),
            !accepted ==> final(self).view_pending() == old(self).view_pending(),
            !accepted ==> final(self).view_overflows() == old(self).view_overflows().wrapping_add(1),
    {
        self.ring.push(value)
    }

    /// Clears `out` and moves every pending signal into it, oldest first.
    pub fn drain(&mut self, out: &mut Vec<u32>)
        requires
            old(self).wf(),
        ensures
            final(self).wf(),
            final(out)@ == old(self).view_pending(),
            final(self).view_pending() == Seq::<u32>::empty(),
            final(self).view_overflows() == old(self).view_overflows(),
    {
        self.ring.drain(out)
    }

    /// Number of pending signals.
    pub fn len(&self) -> (n: usize)
        requires
            self.wf(),
        ensures
            n == self.view_pending().len(),
    {
        self.ring.len()
    }

    /// Whether no signal is pending.
    pub fn is_empty(&self) -> (b: bool)
        requires
            self.wf(),
        ensures
            b == (self.view_pending().len() == 0),
    {
        self.ring.is_empty()
    }
}

/// One operation on a ring, from its producer or its consumer.
#[derive(Debug, Clone, Copy)]
pub enum RingEvent<T> {
    /// The producer pushes a value.
    Push(T),
    /// The consumer drains everything pending.
    Drain,
}

/// The effect of `events` on a ring of capacity `cap` whose pending entries
/// are `pending`: the entries pending afterwards, the values accepted by the
/// pushes, everything the drains handed out, and the number of pushes
/// refused for want of room, as [`CoverageRing::push`] and
/// [`CoverageRing::drain`] (and their [`SignalRing`] counterparts) state them
/// one call at a time.
pub open spec fn ring_run<T>(pending: Seq<T>, events: Seq<RingEvent<T>>, cap: nat) -> (
    Seq<T>,
    Seq<T>,
    Seq<T>,
    nat,
)
    decreases events.len(),
{
    if events.len() == 0 {
        (pending, Seq::<T>::empty(), Seq::<T>::empty(), 0)
    } else {
        let (p, acc, out, dropped) = ring_run(pending, events.drop_last(), cap);
        match events.last() {
            RingEvent::Push(x) => if p.len() < cap {
                (p.push(x), acc.push(x), out, dropped)
            } else {
                (p, acc, out, dropped + 1)
            },
            RingEvent::Drain => (Seq::<T>::empty(), acc, out + p, dropped),
        }
    }
}

/// The number of pushes among `events`.
pub open spec fn push_count<T>(events: Seq<RingEvent<T>>) -> nat
    decreases events.len(),
{
    if events.len() == 0 {
        0
    } else {
        push_count(events.drop_last()) + if events.last() is Push {
            1nat
        } else {
            0nat
        }
    }
}

/// Over any history of pushes and drains, a ring loses and invents nothing
/// and keeps order: what the drains handed out, followed by what is still
/// pending, is what was pending at the start followed by the accepted
/// values. So the number pending is the number pending at the start plus
/// the pushes accepted minus the entries drained, and never exceeds the
/// capacity; every push is either accepted or counted as refused.
pub proof fn law_ring_history<T>(pending: Seq<T>, events: Seq<RingEvent<T>>, cap: nat)
    requires
        pending.len() <= cap,
    ensures
        ({
            let (p, acc, out, dropped) = ring_run(pending, events, cap);
            &&& out + p == pending + acc
            &&& p.len() == pending.len() + acc.len() - out.len()
            &&& p.len() <= cap
            &&& acc.len() + dropped == push_count(events)
        }),
    decreases events.len(),
{
    if events.len() > 0 {
        law_ring_history(pending, events.drop_last(), cap);
        let (p, acc, out, dropped) = ring_run(pending, events.drop_last(), cap);
        match events.last() {
            RingEvent::Push(x) => {
                if p.len() < cap {
                    assert(out + p.push(x) =~= (out + p).push(x));
                    assert(pending + acc.push(x) =~= (pending + acc).push(x));
                }
            },
            RingEvent::Drain => {
                assert(out + p + Seq::<T>::empty() =~= out + p);
            },
        }
    } else {
        assert(Seq::<T>::empty() + pending =~= pending + Seq::<T>::empty());
    }
}

} // verus!
