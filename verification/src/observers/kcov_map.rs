//! The edge-coverage map of an execution, filled from kcov traces.
//!
//! A trace is the sequence of basic-block addresses that kcov recorded. Each
//! address is offered to the coverage stream; each edge — the pair of an
//! address and the previous address shifted right by one — is hashed to a
//! slot of the map, whose counter is bumped (wrapping) and whose index is
//! offered to the signal stream.
//!
//! Opening kcov, enabling and disabling it and reading its buffer are the
//! caller's part; this module takes the trace as a slice.
use vstd::prelude::*;
use crate::observers::coverage_ring::{self, CoverageStream};
use crate::observers::signal_ring::{self, SignalStream};
use crate::observers::novelty::{offer_all, StreamState};
use crate::ring::{DEFAULT_SIZE, SIGNAL_DEFAULT_SIZE};

verus! {

/// `libafl_bolts::hash_64_fast`, the SplitMix64 finalizer.
pub open spec fn hash_64_fast_spec(x: u64) -> u64 {
    let a = ((x ^ (x >> 30u64)) * 0xbf58476d1ce4e5b9u64) as u64;
    let b = ((a ^ (a >> 27u64)) * 0x94d049bb133111ebu64) as u64;
    b ^ (b >> 31u64)
}

/// `libafl_bolts::hash_64_fast`: its result is the SplitMix64 finalizer of
/// `x` (two xor-shift and wrapping-multiply rounds, then a xor-shift), as its
/// source computes it.
#[verifier::external_body]
fn hash_64_fast(x: u64) -> (h: u64)
    ensures
        h == hash_64_fast_spec(x),
{
    libafl_bolts::hash_64_fast(x)
}

/// Whether `n` is a power of two.
pub open spec fn is_pow2(n: usize) -> bool {
    n > 0 && n & ((n - 1) as usize) == 0
}

/// The map slot of the edge from `prev` to `bb` in a map of `n` slots: the
/// xor of the two hashes, masked to `n - 1`, as a `u32`.
pub open spec fn signal_of(bb: u64, prev: u64, n: usize) -> u32 {
    ((hash_64_fast_spec(bb) ^ hash_64_fast_spec(prev)) & ((n - 1) as u64)) as u32
}

/// The address that precedes entry `i` of a trace in the edge hash: 0 for
/// the first, else the previous address shifted right by one.
pub open spec fn prev_of(trace: Seq<u64>, i: int) -> u64 {
    if i == 0 {
        0
    } else {
        trace[i - 1] >> 1u64
    }
}

/// The map slots of the edges of a trace, in order.
pub open spec fn trace_signals(trace: Seq<u64>, n: usize) -> Seq<u32> {
    Seq::new(trace.len(), |i: int| signal_of(trace[i], prev_of(trace, i), n))
}

/// `map` with the counter of slot `j` bumped (wrapping); unchanged when `j`
/// lies outside the map.
pub open spec fn bump(map: Seq<u8>, j: int) -> Seq<u8> {
    if 0 <= j < map.len() {
        map.update(j, map[j].wrapping_add(1))
    } else {
        map
    }
}

/// `map` with the counters of the slots in `sigs` bumped, in order.
pub open spec fn bump_all(map: Seq<u8>, sigs: Seq<u32>) -> Seq<u8>
    decreases sigs.len(),
{
    if sigs.len() == 0 {
        map
    } else {
        bump(bump_all(map, sigs.drop_last()), sigs.last() as int)
    }
}

/// How often slot `j` occurs in `sigs`.
pub open spec fn hits(sigs: Seq<u32>, j: int) -> nat
    decreases sigs.len(),
{
    if sigs.len() == 0 {
        0
    } else {
        hits(sigs.drop_last(), j) + if sigs.last() as int == j {
            1nat
        } else {
            0nat
        }
    }
}

/// What the map counts: after the slots `sigs` are bumped, each counter has
/// grown by the number of times its slot occurs, modulo 256; the map keeps
/// its size.
pub proof fn law_counters_count_hits(map: Seq<u8>, sigs: Seq<u32>, j: int)
    requires
        0 <= j < map.len(),
    ensures
        bump_all(map, sigs).len() == map.len(),
        bump_all(map, sigs)[j] as int == (map[j] + hits(sigs, j)) % 256,
    decreases sigs.len(),
{
    if sigs.len() > 0 {
        law_counters_count_hits(map, sigs.drop_last(), j);
        let m = bump_all(map, sigs.drop_last());
        let c = hits(sigs.drop_last(), j);
        if sigs.last() as int == j {
            let v = m[j];
            assert(v as int == (map[j] + c) % 256);
            assert(v.wrapping_add(1) as int == (v + 1) % 256);
            assert(((map[j] + c) % 256 + 1) % 256 == (map[j] + c + 1) % 256) by {
                vstd::arithmetic::div_mod::lemma_add_mod_noop(map[j] + c, 1, 256);
                vstd::arithmetic::div_mod::lemma_small_mod(1, 256);
            }
        }
    }
}

/// The number of entries of `map` that differ from `initial`.
pub open spec fn count_set(map: Seq<u8>, initial: u8) -> nat
    decreases map.len(),
{
    if map.len() == 0 {
        0
    } else {
        count_set(map.drop_last(), initial) + if map.last() != initial {
            1nat
        } else {
            0nat
        }
    }
}

/// The number of `indexes` that lie in the map and point at an entry that
/// differs from `initial` (an index given twice counts twice).
pub open spec fn count_set_at(map: Seq<u8>, initial: u8, indexes: Seq<usize>) -> nat
    decreases indexes.len(),
{
    if indexes.len() == 0 {
        0
    } else {
        count_set_at(map, initial, indexes.drop_last()) + if indexes.last() < map.len()
            && map[indexes.last() as int] != initial {
            1nat
        } else {
            0nat
        }
    }
}

/// A map of `N` one-byte edge counters (`N` a power of two), named, with the
/// lengths of the last traces it absorbed.
#[derive(Debug)]
pub struct KcovMapObserver<const N: usize> {
    map: Vec<u8>,
    initial: u8,
    name: String,
    syscall_len: usize,
    remote_len: usize,
}

impl<const N: usize> KcovMapObserver<N> {
    /// The counters.
    pub closed spec fn counters(&self) -> Seq<u8> {
        self.map@
    }

    /// The value of an untouched counter.
    pub closed spec fn initial_spec(&self) -> u8 {
        self.initial
    }

    /// The name of the observer.
    pub closed spec fn name_view(&self) -> Seq<char> {
        self.name@
    }

    /// The length of the last trace of the syscall thread.
    pub closed spec fn syscall_len_spec(&self) -> usize {
        self.syscall_len
    }

    /// The length of the last remote trace.
    pub closed spec fn remote_len_spec(&self) -> usize {
        self.remote_len
    }

    /// The invariant: `N` counters, `N` a power of two.
    pub closed spec fn wf(&self) -> bool {
        &&& self.map@.len() == N
        &&& is_pow2(N)
    }

    /// An observer named `name` with `N` counters at 0.
    pub fn new(name: &str) -> (o: Self)
        requires
            is_pow2(N),
        ensures
            o.wf(),
            o.counters() == Seq::new(N as nat, |i: int| 0u8),
            o.initial_spec() == 0,
            o.name_view() == name@,
            o.syscall_len_spec() == 0,
            o.remote_len_spec() == 0,
    {
        let mut map: Vec<u8> = Vec::new();
        let mut i: usize = 0;
        while i < N
            invariant
                0 <= i <= N,
                map@ == Seq::new(i as nat, |k: int| 0u8),
            decreases N - i,
        {
            map.push(0);
            i = i + 1;
            assert(map@ =~= Seq::new(i as nat, |k: int| 0u8));
        }
        KcovMapObserver { map, initial: 0, name: String::from_str(name), syscall_len: 0, remote_len: 0 }
    }

    /// An observer rebuilt from its parts (as they were saved): `None`
    /// unless there are exactly `N` counters and `N` is a power of two.
    pub fn from_parts(
        name: &str,
        counters: Vec<u8>,
        initial: u8,
        syscall_len: usize,
        remote_len: usize,
    ) -> (o: Option<Self>)
        ensures
            (counters@.len() == N && is_pow2(N)) ==> (o matches Some(x) && {
                &&& x.wf()
                &&& x.counters() == counters@
                &&& x.initial_spec() == initial
                &&& x.name_view() == name@
                &&& x.syscall_len_spec() == syscall_len
                &&& x.remote_len_spec() == remote_len
            }),
            !(counters@.len() == N && is_pow2(N)) ==> o is None,
    {
        if counters.len() != N || N == 0 || N & (N - 1) != 0 {
            return None;
        }
        Some(KcovMapObserver { map: counters, initial, name: String::from_str(name), syscall_len, remote_len })
    }

    /// The name of the observer.
    pub fn name(&self) -> (s: &str)
        ensures
            s@ == self.name_view(),
    {
        self.name.as_str()
    }

    /// The value of an untouched counter.
    pub fn initial(&self) -> (v: u8)
        ensures
            v == self.initial_spec(),
    {
        self.initial
    }

    /// The number of counters, `N`.
    pub fn len(&self) -> (n: usize)
        ensures
            n == N,
    {
        N
    }

    /// The number of counters in use: all `N`.
    pub fn usable_count(&self) -> (n: usize)
        ensures
            n == N,
    {
        N
    }

    /// Counter `idx`; the initial value for an index outside the map.
    pub fn get(&self, idx: usize) -> (v: u8)
        ensures
            idx < self.counters().len() ==> v == self.counters()[idx as int],
            idx >= self.counters().len() ==> v == self.initial_spec(),
    {
        if idx < self.map.len() {
            self.map[idx]
        } else {
            self.initial
        }
    }

    /// Sets counter `idx` to `val`; an index outside the map is ignored.
    pub fn set(&mut self, idx: usize, val: u8)
        requires
            old(self).wf(),
        ensures
            final(self).wf(),
            idx < old(self).counters().len() ==> final(self).counters() == old(
                self,
            ).counters().update(idx as int, val),
            idx >= old(self).counters().len() ==> final(self).counters() == old(self).counters(),
            final(self).initial_spec() == old(self).initial_spec(),
            final(self).name_view() == old(self).name_view(),
            final(self).syscall_len_spec() == old(self).syscall_len_spec(),
            final(self).remote_len_spec() == old(self).remote_len_spec(),
    {
        if idx < self.map.len() {
            self.map.set(idx, val);
        }
    }

    /// The number of counters that differ from the initial value.
    pub fn count_bytes(&self) -> (n: u64)
        requires
            self.wf(),
        ensures
            n == count_set(self.counters(), self.initial_spec()),
    {
        let mut res: u64 = 0;
        let mut i: usize = 0;
        while i < self.map.len()
            invariant
                0 <= i <= self.map@.len(),
                self.map@.len() == N,
                res == count_set(self.map@.take(i as int), self.initial),
                res <= i,
            decreases self.map@.len() - i,
        {
            assert(self.map@.take(i + 1).drop_last() =~= self.map@.take(i as int));
            if self.map[i] != self.initial {
                res = res + 1;
            }
            i = i + 1;
        }
        assert(self.map@.take(self.map@.len() as int) =~= self.map@);
        res
    }

    /// Resets every counter to the initial value.
    pub fn reset_map(&mut self)
        requires
            old(self).wf(),
        ensures
            final(self).wf(),
            final(self).counters() == Seq::new(N as nat, |i: int| old(self).initial_spec()),
            final(self).initial_spec() == old(self).initial_spec(),
            final(self).name_view() == old(self).name_view(),
            final(self).syscall_len_spec() == old(self).syscall_len_spec(),
            final(self).remote_len_spec() == old(self).remote_len_spec(),
    {
        let mut i: usize = 0;
        while i < self.map.len()
            invariant
                0 <= i <= self.map@.len(),
                self.map@.len() == N,
                is_pow2(N),
                self.initial == old(self).initial,
                self.name == old(self).name,
                self.syscall_len == old(self).syscall_len,
                self.remote_len == old(self).remote_len,
                forall|k: int| 0 <= k < i ==> self.map@[k] == self.initial,
            decreases self.map@.len() - i,
        {
            self.map.set(i, self.initial);
            i = i + 1;
        }
        assert(self.map@ =~= Seq::new(N as nat, |i: int| old(self).initial));
    }

    /// A copy of the counters.
    pub fn to_vec(&self) -> (v: Vec<u8>)
        ensures
            v@ == self.counters(),
    {
        self.map.clone()
    }

    /// The counters.
    pub fn as_slice(&self) -> (s: &[u8])
        ensures
            s@ == self.counters(),
    {
        self.map.as_slice()
    }

    /// How many of `indexes` point at a counter that differs from the initial
    /// value (an index outside the map counts for nothing).
    pub fn how_many_set(&self, indexes: &[usize]) -> (n: usize)
        requires
            self.wf(),
        ensures
            n == count_set_at(self.counters(), self.initial_spec(), indexes@),
    {
        let mut res: usize = 0;
        let mut k: usize = 0;
        while k < indexes.len()
            invariant
                0 <= k <= indexes@.len(),
                res == count_set_at(self.map@, self.initial, indexes@.take(k as int)),
                res <= k,
            decreases indexes@.len() - k,
        {
            assert(indexes@.take(k + 1).drop_last() =~= indexes@.take(k as int));
            let i = indexes[k];
            if i < self.map.len() && self.map[i] != self.initial {
                res = res + 1;
            }
            k = k + 1;
        }
        assert(indexes@.take(indexes@.len() as int) =~= indexes@);
        res
    }

    /// The length of the last trace of the syscall thread.
    pub fn syscall_len(&self) -> (n: usize)
        ensures
            n == self.syscall_len_spec(),
    {
        self.syscall_len
    }

    /// The length of the last remote trace.
    pub fn remote_len(&self) -> (n: usize)
        ensures
            n == self.remote_len_spec(),
    {
        self.remote_len
    }

    /// Absorbs a trace: offers each address to `coverage`, bumps the counter
    /// of each edge and offers its slot to `signals`.
    fn absorb(&mut self, trace: &[u64], coverage: &mut CoverageStream, signals: &mut SignalStream)
        requires
            old(self).wf(),
            old(coverage).wf(),
            old(signals).wf(),
        ensures
            final(self).wf(),
            final(coverage).wf(),
            final(signals).wf(),
            final(self).counters() == bump_all(old(self).counters(), trace_signals(trace@, N)),
            final(coverage).state() == offer_all(old(coverage).state(), trace@, DEFAULT_SIZE as nat),
            final(signals).state() == offer_all(
                old(signals).state(),
                trace_signals(trace@, N),
                SIGNAL_DEFAULT_SIZE as nat,
            ),
            final(self).initial_spec() == old(self).initial_spec(),
            final(self).name_view() == old(self).name_view(),
            final(self).syscall_len_spec() == old(self).syscall_len_spec(),
            final(self).remote_len_spec() == old(self).remote_len_spec(),
    {
        let ghost sigs = trace_signals(trace@, N);
        let mask: u64 = (N - 1) as u64;
        let mut prev: u64 = 0;
        let mut i: usize = 0;
        while i < trace.len()
            invariant
                0 <= i <= trace@.len(),
                sigs == trace_signals(trace@, N),
                mask == (N - 1) as u64,
                N > 0,
                self.wf(),
                coverage.wf(),
                signals.wf(),
                prev == prev_of(trace@, i as int),
                self.counters() == bump_all(old(self).counters(), sigs.take(i as int)),
                coverage.state() == offer_all(
                    old(coverage).state(),
                    trace@.take(i as int),
                    DEFAULT_SIZE as nat,
                ),
                signals.state() == offer_all(
                    old(signals).state(),
                    sigs.take(i as int),
                    SIGNAL_DEFAULT_SIZE as nat,
                ),
                self.initial == old(self).initial,
                self.name@ == old(self).name@,
                self.syscall_len == old(self).syscall_len,
                self.remote_len == old(self).remote_len,
            decreases trace@.len() - i,
        {
            let bb = trace[i];
            coverage_ring::push_if_new(coverage, bb);
            let signal: u32 = #[verifier::truncate] (((hash_64_fast(bb) ^ hash_64_fast(prev)) & mask) as u32);
            assert(signal == sigs[i as int]);
            let slot = signal as usize;
            let v = self.get(slot);
            self.set(slot, v.wrapping_add(1));
            signal_ring::push_if_new(signals, signal);
            prev = bb >> 1;
            proof {
                assert(trace@.take(i + 1).drop_last() =~= trace@.take(i as int));
                assert(sigs.take(i + 1).drop_last() =~= sigs.take(i as int));
            }
            i = i + 1;
        }
        assert(trace@.take(trace@.len() as int) =~= trace@);
        assert(sigs.take(sigs.len() as int) =~= sigs);
    }

    /// Absorbs the remote trace of an execution (the addresses kcov recorded
    /// for the fuzzer's process outside the syscall thread) and records its
    /// length.
    pub fn record_remote_trace(
        &mut self,
        trace: &[u64],
        coverage: &mut CoverageStream,
        signals: &mut SignalStream,
    )
        requires
            old(self).wf(),
            old(coverage).wf(),
            old(signals).wf(),
        ensures
            final(self).wf(),
            final(coverage).wf(),
            final(signals).wf(),
            final(self).counters() == bump_all(old(self).counters(), trace_signals(trace@, N)),
            final(coverage).state() == offer_all(old(coverage).state(), trace@, DEFAULT_SIZE as nat),
            final(signals).state() == offer_all(
                old(signals).state(),
                trace_signals(trace@, N),
                SIGNAL_DEFAULT_SIZE as nat,
            ),
            final(self).remote_len_spec() == trace@.len(),
            final(self).syscall_len_spec() == old(self).syscall_len_spec(),
            final(self).initial_spec() == old(self).initial_spec(),
            final(self).name_view() == old(self).name_view(),
    {
        self.remote_len = trace.len();
        self.absorb(trace, coverage, signals);
    }

    /// Absorbs the trace of the syscall thread and records its length.
    pub fn record_syscall_trace(
        &mut self,
        trace: &[u64],
        coverage: &mut CoverageStream,
        signals: &mut SignalStream,
    )
        requires
            old(self).wf(),
            old(coverage).wf(),
            old(signals).wf(),
        ensures
            final(self).wf(),
            final(coverage).wf(),
            final(signals).wf(),
            final(self).counters() == bump_all(old(self).counters(), trace_signals(trace@, N)),
            final(coverage).state() == offer_all(old(coverage).state(), trace@, DEFAULT_SIZE as nat),
            final(signals).state() == offer_all(
                old(signals).state(),
                trace_signals(trace@, N),
                SIGNAL_DEFAULT_SIZE as nat,
            ),
            final(self).syscall_len_spec() == trace@.len(),
            final(self).remote_len_spec() == old(self).remote_len_spec(),
            final(self).initial_spec() == old(self).initial_spec(),
            final(self).name_view() == old(self).name_view(),
    {
        self.syscall_len = trace.len();
        self.absorb(trace, coverage, signals);
    }
}

} // verus!
