//! The fuzzer's input: per-syscall lists of argument bytes, and the state that
//! serves them to the target while it runs.
pub mod list;

use vstd::prelude::*;
use std::collections::BTreeMap;
use vstd::std_specs::btree::spec_keys_iter;
use vstd::std_specs::iter::IteratorSpec;
use crate::hashed::{
    BytesIndicator, CursorMap, IndicatorSet, U32Set, U32UsizeMap, cursor_map_contents,
    indicator_set_contents, u32_set_contents, u32_usize_map_contents,
};
use crate::rands::{StdRand, rand_below};
use crate::syscall_tree::{SyscallTree, has_new_prefix, prefixes_upto};
use list::{
    Call, CallsInput, NUM_ARGS, call_view, clone_bytes, empty_call, empty_call_view,
};

verus! {

/// Identifier of a syscall (its number).
pub type SyscallID = u32;

/// The calls of a syscall, in execution order.
pub type Calls = CallsInput;

/// The bytes of each argument of each call.
pub type CallsView = Seq<Seq<Seq<u8>>>;

/// The abstract state of an input.
#[verifier::ext_equal]
pub struct InputState {
    /// Calls per syscall.
    pub calls: Map<SyscallID, CallsView>,
    /// How many calls of each syscall completed in the current execution.
    pub offsets: Map<SyscallID, usize>,
    /// Read position in each (syscall, argument) byte stream.
    pub cursors: Map<(SyscallID, u32), usize>,
    /// The syscall that mutation focuses on.
    pub current: SyscallID,
    /// Syscalls in the order they were entered during the execution.
    pub accessed: Seq<SyscallID>,
    /// Syscalls that were called more often than the input has calls for.
    pub insufficient_calls: Set<SyscallID>,
    /// Arguments that asked for more bytes than the input holds.
    pub insufficient_bytes: Set<BytesIndicator>,
    /// Whether the current syscall's arguments are being captured.
    pub capturing: bool,
}

/// The input `st` with the bytes of argument `arg` of call `call_idx` of
/// syscall `s` replaced by `bytes`.
pub open spec fn with_arg_bytes(
    st: InputState,
    s: SyscallID,
    call_idx: int,
    arg: int,
    bytes: Seq<u8>,
) -> InputState {
    InputState {
        calls: st.calls.insert(s, st.calls[s].update(call_idx, st.calls[s][call_idx].update(arg, bytes))),
        ..st
    }
}

/// Whether every call in `st` has all [`NUM_ARGS`] arguments, as every call
/// of an input has (see [`lemma_input_calls_have_all_args`]).
pub open spec fn calls_have_all_args(st: InputState) -> bool {
    forall|s: SyscallID, i: int|
        st.calls.contains_key(s) && 0 <= i < st.calls[s].len() ==> (#[trigger] st.calls[s][i]).len()
            == NUM_ARGS
}

/// The fields of an input.
#[derive(Debug)]
pub struct AlmondInputInner {
    /// Calls per syscall.
    pub map: BTreeMap<SyscallID, Calls>,
    /// Offsets for repeated calls of a syscall.
    pub offsets: U32UsizeMap,
    /// Per-(syscall, argument) read cursor into the argument's byte stream.
    pub cursors: CursorMap,
    /// The syscall that mutation focuses on.
    pub current: SyscallID,
    /// Syscalls in access order; the last one is the likely roadblock.
    pub accessed_indicators: Vec<SyscallID>,
    /// Syscalls called more often than the input has calls for.
    pub insufficient_calls_indicators: U32Set,
    /// (syscall, offset, argument, expected length) of short reads.
    pub insufficient_bytes_indicators: IndicatorSet,
    /// Whether arguments are being captured instead of mutated.
    pub capturing: bool,
}

impl AlmondInputInner {
    /// The abstract state.
    pub open spec fn state(&self) -> InputState {
        InputState {
            calls: Map::new(|k: SyscallID| self.map@.contains_key(k), |k: SyscallID| self.map@[k]@),
            offsets: u32_usize_map_contents(self.offsets),
            cursors: cursor_map_contents(self.cursors),
            current: self.current,
            accessed: self.accessed_indicators@,
            insufficient_calls: u32_set_contents(self.insufficient_calls_indicators),
            insufficient_bytes: indicator_set_contents(self.insufficient_bytes_indicators),
            capturing: self.capturing,
        }
    }

    /// Fields with nothing recorded.
    pub fn new() -> (r: Self)
        ensures
            r.state().calls == Map::<SyscallID, CallsView>::empty(),
            r.state().offsets == Map::<SyscallID, usize>::empty(),
            r.state().cursors == Map::<(SyscallID, u32), usize>::empty(),
            r.state().current == 0,
            r.state().accessed == Seq::<SyscallID>::empty(),
            r.state().insufficient_calls == Set::<SyscallID>::empty(),
            r.state().insufficient_bytes == Set::<BytesIndicator>::empty(),
            !r.state().capturing,
    {
        let r = AlmondInputInner {
            map: BTreeMap::new(),
            offsets: U32UsizeMap::new(),
            cursors: CursorMap::new(),
            current: 0,
            accessed_indicators: Vec::new(),
            insufficient_calls_indicators: U32Set::new(),
            insufficient_bytes_indicators: IndicatorSet::new(),
            capturing: false,
        };
        assert(r.state().calls =~= Map::<SyscallID, CallsView>::empty());
        r
    }
}

impl InputState {
    /// Calls completed so far of `s` in this execution.
    pub open spec fn offset_of(self, s: SyscallID) -> int {
        if self.offsets.contains_key(s) {
            self.offsets[s] as int
        } else {
            0
        }
    }

    /// Read position in the byte stream of argument `a` of `s`.
    pub open spec fn cursor_of(self, s: SyscallID, a: u32) -> int {
        if self.cursors.contains_key((s, a)) {
            self.cursors[(s, a)] as int
        } else {
            0
        }
    }

    /// The call of `s` that the current offset selects, cycling through the
    /// calls.
    pub open spec fn call_index(self, s: SyscallID) -> int {
        self.offset_of(s) % (self.calls[s].len() as int)
    }

    /// The byte stream that argument `a` of `s` reads from.
    pub open spec fn stream_of(self, s: SyscallID, a: u32) -> Seq<u8> {
        self.calls[s][self.call_index(s)][a as int]
    }

    /// When reading argument `a` of `s` is defined: a syscall with calls has
    /// at least one, the argument exists, and the cursor lies in its stream.
    pub open spec fn readable(self, s: SyscallID, a: u32) -> bool {
        self.calls.contains_key(s) ==> {
            &&& self.calls[s].len() > 0
            &&& a < NUM_ARGS
            &&& self.cursor_of(s, a) <= self.stream_of(s, a).len()
        }
    }

    /// How many stream bytes a read of `len` bytes of argument `a` of `s`
    /// takes: as many as are left, at most `len`.
    pub open spec fn take_of(self, s: SyscallID, a: u32, len: int) -> int {
        let left = self.stream_of(s, a).len() - self.cursor_of(s, a);
        if len < left {
            len
        } else {
            left
        }
    }
}

/// `n` zero bytes.
pub open spec fn zeros(n: int) -> Seq<u8> {
    Seq::new(n as nat, |i: int| 0u8)
}

/// `calls` extended with calls of empty arguments up to length `n`.
pub open spec fn grow_calls(calls: CallsView, n: int) -> CallsView {
    if calls.len() >= n {
        calls
    } else {
        calls + Seq::new((n - calls.len()) as nat, |i: int| empty_call_view())
    }
}

/// The calls of `s` after capturing `data` into argument `a` at `offset`:
/// the list is grown to hold `offset`, then (for an existing argument) the
/// bytes are appended to that argument.
pub open spec fn captured_calls(
    calls: Map<SyscallID, CallsView>,
    s: SyscallID,
    a: u32,
    offset: int,
    data: Seq<u8>,
) -> CallsView {
    let base = if calls.contains_key(s) {
        calls[s]
    } else {
        Seq::<Seq<Seq<u8>>>::empty()
    };
    let grown = grow_calls(base, offset + 1);
    if a < NUM_ARGS {
        grown.update(offset, grown[offset].update(a as int, grown[offset][a as int] + data))
    } else {
        grown
    }
}

/// What serving `expected_len` bytes of argument `a` of `s` does: `n` is the
/// state after the read from state `o`, and `bytes` what was read. The
/// syscall becomes the focus. A syscall without calls reads zeros. Otherwise
/// the read takes what is left of the argument's stream from the cursor, at
/// most `expected_len` bytes, pads with zeros, moves the cursor past what it
/// took, and records a short read as an insufficient-bytes indicator and an
/// offset past the number of calls as an insufficient-calls indicator.
pub open spec fn served(
    o: InputState,
    n: InputState,
    syscall_no: SyscallID,
    arg_no: u32,
    expected_len: usize,
    bytes: Seq<u8>,
) -> bool {
    &&& n.current == syscall_no
    &&& n.calls == o.calls
    &&& n.offsets == o.offsets
    &&& n.accessed == o.accessed
    &&& n.capturing == o.capturing
    &&& !o.calls.contains_key(syscall_no) ==> {
        &&& bytes == zeros(expected_len as int)
        &&& n.cursors == o.cursors
        &&& n.insufficient_calls == o.insufficient_calls
        &&& n.insufficient_bytes == o.insufficient_bytes
    }
    &&& o.calls.contains_key(syscall_no) ==> {
        let cursor = o.cursor_of(syscall_no, arg_no);
        let take = o.take_of(syscall_no, arg_no, expected_len as int);
        &&& bytes == o.stream_of(syscall_no, arg_no).subrange(cursor, cursor + take)
            + zeros(expected_len - take)
        &&& n.cursors == o.cursors.insert((syscall_no, arg_no), (cursor + take) as usize)
        &&& n.insufficient_calls == (if o.offset_of(syscall_no)
            > o.calls[syscall_no].len() {
            o.insufficient_calls.insert(syscall_no)
        } else {
            o.insufficient_calls
        })
        &&& n.insufficient_bytes == (if take < expected_len {
            o.insufficient_bytes.insert(
                (
                    syscall_no,
                    o.call_index(syscall_no) as usize,
                    arg_no,
                    expected_len,
                ),
            )
        } else {
            o.insufficient_bytes
        })
    }
}

/// The state after entering syscall `s` with `recorded` the sequences the
/// syscall tree had recorded: `s` joins the access sequence, and capture
/// mode starts when that sequence has a prefix not recorded yet.
pub open spec fn began(o: InputState, recorded: Set<Seq<SyscallID>>, s: SyscallID) -> InputState {
    InputState {
        accessed: o.accessed.push(s),
        capturing: o.capturing || has_new_prefix(recorded, o.accessed.push(s)),
        ..o
    }
}

/// The state after capturing `data` into argument `a` of `s`.
pub open spec fn after_capture(o: InputState, s: SyscallID, a: u32, data: Seq<u8>) -> InputState {
    InputState {
        calls: o.calls.insert(s, captured_calls(o.calls, s, a, o.offset_of(s), data)),
        ..o
    }
}

/// The state after leaving syscall `s`: capture mode ends, the syscall's
/// offset moves to its next call and its read cursors are dropped.
pub open spec fn advanced(o: InputState, s: SyscallID) -> InputState {
    InputState {
        capturing: false,
        offsets: o.offsets.insert(s, (o.offset_of(s) + 1) as usize),
        cursors: o.cursors.restrict(Set::new(|k: (SyscallID, u32)| k.0 != s)),
        ..o
    }
}

/// A vector of `n` zero bytes.
fn zero_bytes(n: usize) -> (v: Vec<u8>)
    ensures
        v@ == zeros(n as int),
{
    let mut v: Vec<u8> = Vec::new();
    let mut i: usize = 0;
    while i < n
        invariant
            0 <= i <= n,
            v@ == zeros(i as int),
        decreases n - i,
    {
        v.push(0);
        i = i + 1;
        assert(v@ =~= zeros(i as int));
    }
    v
}

/// The input of the fuzzer.
#[derive(Debug)]
pub struct AlmondInput {
    /// The fields.
    pub inner: AlmondInputInner,
}

/// Every call of an input has all [`NUM_ARGS`] arguments.
pub proof fn lemma_input_calls_have_all_args(input: AlmondInput)
    ensures
        calls_have_all_args(input@),
{
    assert forall|s: SyscallID, i: int|
        input@.calls.contains_key(s) && 0 <= i < input@.calls[s].len() implies (
        #[trigger] input@.calls[s][i]).len() == NUM_ARGS by {
        list::lemma_calls_have_all_args(input.inner.map@[s], i);
    }
}

impl View for AlmondInput {
    type V = InputState;

    open spec fn view(&self) -> InputState {
        self.inner.state()
    }
}

impl AlmondInput {
    /// An input with no calls.
    pub fn new() -> (r: Self)
        ensures
            r@.calls == Map::<SyscallID, CallsView>::empty(),
            r@.offsets == Map::<SyscallID, usize>::empty(),
            r@.cursors == Map::<(SyscallID, u32), usize>::empty(),
            r@.current == 0,
            r@.accessed == Seq::<SyscallID>::empty(),
            r@.insufficient_calls == Set::<SyscallID>::empty(),
            r@.insufficient_bytes == Set::<BytesIndicator>::empty(),
            !r@.capturing,
    {
        AlmondInput { inner: AlmondInputInner::new() }
    }

    /// An input whose only calls are one call of `syscall_id`.
    pub fn with_syscall(syscall_id: SyscallID, call: Call) -> (r: Self)
        ensures
            r@.calls == Map::<SyscallID, CallsView>::empty().insert(syscall_id, seq![call_view(call)]),
            r@.offsets == Map::<SyscallID, usize>::empty(),
            r@.cursors == Map::<(SyscallID, u32), usize>::empty(),
            r@.current == 0,
            r@.accessed == Seq::<SyscallID>::empty(),
            r@.insufficient_calls == Set::<SyscallID>::empty(),
            r@.insufficient_bytes == Set::<BytesIndicator>::empty(),
            !r@.capturing,
    {
        let mut input = Self::new();
        let mut calls = CallsInput::empty();
        calls.append_part(call);
        input.inner.map.insert(syscall_id, calls);
        proof {
            assert(input@.calls =~= Map::<SyscallID, CallsView>::empty().insert(
                syscall_id,
                seq![call_view(call)],
            ));
        }
        input
    }

    /// Whether [`AlmondInput::get`] is defined for argument `arg_no` of
    /// `syscall_no` in the current state.
    pub fn can_get(&self, syscall_no: SyscallID, arg_no: u32) -> (b: bool)
        ensures
            b == self@.readable(syscall_no, arg_no),
    {
        match self.inner.map.get(&syscall_no) {
            None => true,
            Some(calls) => {
                if calls.len() == 0 || arg_no as usize >= NUM_ARGS {
                    return false;
                }
                let offset = match self.inner.offsets.get(syscall_no) {
                    Some(o) => o,
                    None => 0,
                };
                let cursor = match self.inner.cursors.get((syscall_no, arg_no)) {
                    Some(c) => c,
                    None => 0,
                };
                let stream = calls.arg(offset % calls.len(), arg_no as usize);
                cursor <= stream.len()
            },
        }
    }

    /// Serves `expected_len` bytes for argument `arg_no` of `syscall_no`.
    ///
    /// The argument's bytes form one stream per call; successive reads in one
    /// syscall invocation continue where the previous read stopped (the
    /// cursor). The call is the one the syscall's offset selects, cycling
    /// through the calls. A short read is padded with zeros and recorded as an
    /// insufficient-bytes indicator; an offset past the number of calls is
    /// recorded as an insufficient-calls indicator. A syscall without calls
    /// reads zeros and records nothing but the focus.
    pub fn get(&mut self, syscall_no: SyscallID, arg_no: u32, expected_len: usize) -> (bytes: Vec<u8>)
        requires
            old(self)@.readable(syscall_no, arg_no),
        ensures
            served(old(self)@, final(self)@, syscall_no, arg_no, expected_len, bytes@),
    {
        self.inner.current = syscall_no;
        let offset = match self.inner.offsets.get(syscall_no) {
            Some(o) => o,
            None => 0,
        };
        let cursor = match self.inner.cursors.get((syscall_no, arg_no)) {
            Some(c) => c,
            None => 0,
        };
        let (calls_len, real_offset, mut bytes) = match self.inner.map.get(&syscall_no) {
            None => {
                return zero_bytes(expected_len);
            },
            Some(calls) => {
                let calls_len = calls.len();
                let real_offset = offset % calls_len;
                let stream = calls.arg(real_offset, arg_no as usize);
                let left = stream.len() - cursor;
                let take = if expected_len < left {
                    expected_len
                } else {
                    left
                };
                let mut bytes: Vec<u8> = Vec::new();
                let mut i: usize = 0;
                while i < take
                    invariant
                        0 <= i <= take,
                        cursor + take <= stream@.len(),
                        stream@.len() <= usize::MAX,
                        bytes@ == stream@.subrange(cursor as int, cursor + i),
                    decreases take - i,
                {
                    bytes.push(stream[cursor + i]);
                    i = i + 1;
                    assert(bytes@ =~= stream@.subrange(cursor as int, cursor + i));
                }
                (calls_len, real_offset, bytes)
            },
        };
        let take = bytes.len();
        let ghost got = bytes@;
        while bytes.len() < expected_len
            invariant
                take <= bytes@.len() <= expected_len || (take == bytes@.len() && take
                    >= expected_len),
                bytes@ == got + zeros(bytes@.len() - take),
            decreases expected_len - bytes.len(),
        {
            bytes.push(0);
            assert(bytes@ =~= got + zeros(bytes@.len() - take));
        }
        self.inner.cursors.insert((syscall_no, arg_no), cursor + take);
        if offset > calls_len {
            self.inner.insufficient_calls_indicators.insert(syscall_no);
        }
        if take < expected_len {
            self.inner.insufficient_bytes_indicators.insert(
                (syscall_no, real_offset, arg_no, expected_len),
            );
        }
        bytes
    }

    /// Clears the per-execution state: offsets, cursors, the access
    /// sequence, the indicators and the capture flag.
    pub fn reset(&mut self)
        ensures
            final(self)@ == (InputState {
                offsets: Map::<SyscallID, usize>::empty(),
                cursors: Map::<(SyscallID, u32), usize>::empty(),
                accessed: Seq::<SyscallID>::empty(),
                insufficient_calls: Set::<SyscallID>::empty(),
                insufficient_bytes: Set::<BytesIndicator>::empty(),
                capturing: false,
                ..old(self)@
            }),
    {
        self.inner.offsets.clear();
        self.inner.accessed_indicators.clear();
        self.inner.insufficient_calls_indicators.clear();
        self.inner.insufficient_bytes_indicators.clear();
        self.inner.capturing = false;
        self.inner.cursors.clear();
    }

    /// Enters a syscall: appends it to the access sequence and records that
    /// sequence in `tree`; capture mode starts when the sequence has a prefix
    /// the tree had not seen.
    pub fn begin_syscall(&mut self, syscall_no: SyscallID, tree: &mut SyscallTree)
        requires
            old(tree).wf(),
        ensures
            final(tree).wf(),
            final(tree).recorded() == old(tree).recorded().union(
                prefixes_upto(
                    old(self)@.accessed.push(syscall_no),
                    old(self)@.accessed.len() + 1int,
                ),
            ),
            final(self)@ == began(old(self)@, old(tree).recorded(), syscall_no),
    {
        self.inner.accessed_indicators.push(syscall_no);
        let need_capture = tree.record_sequence(self.inner.accessed_indicators.as_slice());
        if need_capture {
            self.inner.capturing = true;
        }
    }

    /// Leaves a syscall: ends capture mode (returning whether it was on, so
    /// the caller can signal the capture), moves the syscall's offset to its
    /// next call and resets the syscall's read cursors.
    pub fn advance_offset_for_syscall(&mut self, syscall_no: SyscallID) -> (captured: bool)
        requires
            old(self)@.offset_of(syscall_no) < usize::MAX,
        ensures
            captured == old(self)@.capturing,
            final(self)@ == advanced(old(self)@, syscall_no),
    {
        let captured = self.inner.capturing;
        self.inner.capturing = false;
        let offset = match self.inner.offsets.get(syscall_no) {
            Some(o) => o,
            None => 0,
        };
        self.inner.offsets.insert(syscall_no, offset + 1);
        self.inner.cursors.remove_syscall(syscall_no);
        captured
    }

    /// Picks the syscall to focus mutation on: with a draw below 5 out of 10
    /// the last accessed syscall (the likely roadblock), otherwise a random
    /// accessed syscall (see [`AlmondInput::focus_accessed`]).
    pub fn select_syscall_id(&mut self, rand: &mut StdRand)
        requires
            old(self)@.accessed.len() > 0,
        ensures
            old(self)@.accessed.contains(final(self)@.current),
            final(self)@ == (InputState { current: final(self)@.current, ..old(self)@ }),
    {
        let len = self.inner.accessed_indicators.len();
        let coin = rand_below(rand, 10);
        if coin < 5 {
            self.focus_accessed(coin, 0);
        } else {
            let idx = rand_below(rand, len);
            self.focus_accessed(coin, idx);
        }
    }

    /// Focuses mutation on an accessed syscall, given the draws: the last
    /// accessed syscall when `coin` is below 5, otherwise the one at
    /// position `idx` of the accessed syscalls.
    pub fn focus_accessed(&mut self, coin: usize, idx: usize)
        requires
            old(self)@.accessed.len() > 0,
            coin < 5 || idx < old(self)@.accessed.len(),
        ensures
            final(self)@ == (InputState {
                current: if coin < 5 {
                    old(self)@.accessed.last()
                } else {
                    old(self)@.accessed[idx as int]
                },
                ..old(self)@
            }),
    {
        let len = self.inner.accessed_indicators.len();
        if coin < 5 {
            self.inner.current = self.inner.accessed_indicators[len - 1];
        } else {
            self.inner.current = self.inner.accessed_indicators[idx];
        }
    }

    /// The syscall that mutation focuses on.
    pub fn current_syscall_id(&self) -> (s: SyscallID)
        ensures
            s == self@.current,
    {
        self.inner.current
    }

    /// Sets the syscall that mutation focuses on.
    pub fn set_current_syscall_id(&mut self, syscall_id: SyscallID)
        ensures
            final(self)@ == (InputState { current: syscall_id, ..old(self)@ }),
    {
        self.inner.current = syscall_id;
    }

    /// A copy of the insufficient-calls indicators.
    pub fn insufficient_calls_indicators(&self) -> (r: U32Set)
        ensures
            u32_set_contents(r) == self@.insufficient_calls,
    {
        self.inner.insufficient_calls_indicators.duplicate()
    }

    /// A copy of the insufficient-bytes indicators.
    pub fn insufficient_bytes_indicators(&self) -> (r: IndicatorSet)
        ensures
            indicator_set_contents(r) == self@.insufficient_bytes,
    {
        self.inner.insufficient_bytes_indicators.duplicate()
    }

    /// The insufficient-calls indicators, each once, in no stated order.
    pub fn insufficient_calls_list(&self) -> (v: Vec<SyscallID>)
        ensures
            v@.to_set() == self@.insufficient_calls,
            v@.no_duplicates(),
    {
        self.inner.insufficient_calls_indicators.to_vec()
    }

    /// The insufficient-bytes indicators, each once, in no stated order.
    pub fn insufficient_bytes_list(&self) -> (v: Vec<BytesIndicator>)
        ensures
            v@.to_set() == self@.insufficient_bytes,
            v@.no_duplicates(),
    {
        self.inner.insufficient_bytes_indicators.to_vec()
    }

    /// Whether any indicator was recorded.
    pub fn has_insufficient_indicators(&self) -> (b: bool)
        ensures
            b == (self@.insufficient_calls != Set::<SyscallID>::empty()
                || self@.insufficient_bytes != Set::<BytesIndicator>::empty()),
    {
        !self.inner.insufficient_calls_indicators.is_empty()
            || !self.inner.insufficient_bytes_indicators.is_empty()
    }

    /// Appends the bytes `data` that the target passed for argument `arg_no` of `syscall_no`
    /// to the call that the syscall's offset selects, growing the syscall's
    /// call list with empty calls to reach that offset. Arguments past the
    /// last one are ignored, though the list is still grown.
    pub fn capture(&mut self, syscall_no: SyscallID, arg_no: u32, data: &[u8])
        requires
            old(self)@.offset_of(syscall_no) < usize::MAX,
        ensures
            final(self)@ == after_capture(old(self)@, syscall_no, arg_no, data@),
    {
        let offset = match self.inner.offsets.get(syscall_no) {
            Some(o) => o,
            None => 0,
        };
        let ghost base = if old(self)@.calls.contains_key(syscall_no) {
            old(self)@.calls[syscall_no]
        } else {
            Seq::<Seq<Seq<u8>>>::empty()
        };
        let mut calls = match self.inner.map.remove(&syscall_no) {
            Some(c) => c,
            None => CallsInput::empty(),
        };
        assert(calls@ == base);
        while calls.len() <= offset
            invariant
                base.len() <= calls@.len(),
                calls@.len() <= base.len() || calls@.len() <= offset + 1,
                calls@.subrange(0, base.len() as int) == base,
                forall|i: int| base.len() <= i < calls@.len() ==> #[trigger] calls@[i]
                    == empty_call_view(),
                offset < usize::MAX,
            decreases offset + 1 - calls@.len(),
        {
            calls.append_part(empty_call());
            assert(calls@.subrange(0, base.len() as int) =~= base);
        }
        let ghost grown = grow_calls(base, offset + 1);
        assert(calls@ =~= grown);
        let arg_idx = arg_no as usize;
        if arg_idx < NUM_ARGS {
            let mut bytes = clone_bytes(calls.arg(offset, arg_idx));
            let ghost start = bytes@;
            let mut i: usize = 0;
            while i < data.len()
                invariant
                    0 <= i <= data@.len(),
                    bytes@ == start + data@.subrange(0, i as int),
                decreases data@.len() - i,
            {
                bytes.push(data[i]);
                i = i + 1;
                assert(bytes@ =~= start + data@.subrange(0, i as int));
            }
            assert(data@.subrange(0, data@.len() as int) =~= data@);
            calls.set_arg(offset, arg_idx, bytes);
        }
        self.inner.map.insert(syscall_no, calls);
        proof {
            assert(self@.calls =~= old(self)@.calls.insert(
                syscall_no,
                captured_calls(
                    old(self)@.calls,
                    syscall_no,
                    arg_no,
                    old(self)@.offset_of(syscall_no),
                    data@,
                ),
            ));
        }
    }

    /// Calls of `syscall_no` completed so far in this execution.
    pub fn offset(&self, syscall_no: SyscallID) -> (o: usize)
        ensures
            o == self@.offset_of(syscall_no),
    {
        match self.inner.offsets.get(syscall_no) {
            Some(o) => o,
            None => 0,
        }
    }

    /// Whether capture mode is on.
    pub fn is_capturing(&self) -> (b: bool)
        ensures
            b == self@.capturing,
    {
        self.inner.capturing
    }
}

/// The number of calls of the syscalls `keys` in `calls`.
pub open spec fn calls_count(calls: Map<SyscallID, CallsView>, keys: Seq<SyscallID>) -> nat
    decreases keys.len(),
{
    if keys.len() == 0 {
        0
    } else {
        calls_count(calls, keys.drop_last()) + calls[keys.last()].len()
    }
}

/// `x`, or `usize::MAX` when it is larger.
pub open spec fn capped(x: nat) -> int {
    if x > usize::MAX {
        usize::MAX as int
    } else {
        x as int
    }
}

impl AlmondInput {
    /// The number of calls of all syscalls (capped at `usize::MAX`, a count
    /// no memory can hold): the sum, over the syscalls of the input, each
    /// once, of their numbers of calls.
    pub fn len(&self) -> (n: usize)
        ensures
            exists|keys: Seq<SyscallID>|
                #![trigger calls_count(self@.calls, keys)]
                keys.no_duplicates() && keys.to_set() == self@.calls.dom() && n == capped(
                    calls_count(self@.calls, keys),
                ),
    {
        let ghost all = spec_keys_iter(&self.inner.map).remaining().map_values(|r: &SyscallID| *r);
        let mut n: usize = 0;
        let ghost mut done: Seq<SyscallID> = Seq::empty();
        for k in it: self.inner.map.keys()
            invariant
                all == it.seq().map_values(|r: &SyscallID| *r),
                done == it.seq().take(it.index() as int).map_values(|r: &SyscallID| *r),
                n == capped(calls_count(self@.calls, done)),
        {
            let c = match self.inner.map.get(k) {
                Some(calls) => calls.len(),
                None => 0,
            };
            proof {
                let next = done.push(*k);
                assert(next.drop_last() =~= done);
                done = next;
            }
            n = n.saturating_add(c);
        }
        proof {
            assert(self@.calls.dom() =~= self.inner.map@.dom());
            assert(done =~= all);
            assert(all =~= spec_keys_iter(&self.inner.map).remaining().unref());
            assert(done.to_set() =~= self@.calls.dom());
        }
        n
    }
}

impl AlmondInput {
    /// Whether both inputs hold the same calls (the execution state aside).
    pub fn same_calls(&self, other: &AlmondInput) -> (b: bool)
        ensures
            b == (self@.calls == other@.calls),
    {
        let ghost mine = self@.calls;
        let ghost theirs = other@.calls;
        proof {
            assert(mine.dom() =~= self.inner.map@.dom());
            assert(theirs.dom() =~= other.inner.map@.dom());
        }
        if self.inner.map.len() != other.inner.map.len() {
            return false;
        }
        let ghost all = spec_keys_iter(&self.inner.map).remaining().map_values(|r: &SyscallID| *r);
        let ghost mut done: Seq<SyscallID> = Seq::empty();
        for k in it: self.inner.map.keys()
            invariant
                mine == self@.calls,
                theirs == other@.calls,
                all == it.seq().map_values(|r: &SyscallID| *r),
                done == it.seq().take(it.index() as int).map_values(|r: &SyscallID| *r),
                forall|j: int|
                    0 <= j < done.len() ==> theirs.contains_key(#[trigger] done[j]) && theirs[done[j]]
                        == mine[done[j]],
        {
            let a_opt = self.inner.map.get(k);
            let b_opt = other.inner.map.get(k);
            let same = match (a_opt, b_opt) {
                (Some(a), Some(b)) => a.same_calls(b),
                _ => false,
            };
            if !same {
                proof {
                    assert(all[it.index() as int] == *k);
                    assert(all =~= spec_keys_iter(&self.inner.map).remaining().unref());
                    assert(all.to_set().contains(*k));
                    assert(mine.dom().contains(*k));
                    assert(a_opt is Some);
                    if theirs.dom().contains(*k) {
                        assert(b_opt is Some);
                        assert(mine[*k] == a_opt->0@);
                        assert(theirs[*k] == b_opt->0@);
                        assert(mine[*k] != theirs[*k]);
                    } else {
                        assert(!theirs.dom().contains(*k));
                    }
                    assert(mine != theirs);
                }
                return false;
            }
            proof {
                let next = done.push(*k);
                done = next;
            }
        }
        proof {
            assert(done =~= all);
            assert(all =~= spec_keys_iter(&self.inner.map).remaining().unref());
            assert(done.to_set() =~= mine.dom());
            assert(mine.dom().subset_of(theirs.dom())) by {
                assert forall|x: SyscallID| mine.dom().contains(x) implies theirs.dom().contains(x) by {
                    assert(done.to_set().contains(x));
                    let j = choose|j: int| 0 <= j < done.len() && done[j] == x;
                }
            }
            vstd::set_lib::lemma_subset_equality(mine.dom(), theirs.dom());
            assert(mine =~= theirs) by {
                assert forall|x: SyscallID| mine.dom().contains(x) implies mine[x] == theirs[x] by {
                    assert(done.to_set().contains(x));
                    let j = choose|j: int| 0 <= j < done.len() && done[j] == x;
                }
            }
        }
        true
    }
}

impl AlmondInput {
    /// A deep copy: the calls and the whole execution state.
    pub fn clone(&self) -> (c: Self)
        ensures
            c@ == self@,
    {
        let inner = AlmondInputInner {
            map: self.inner.map.clone(),
            offsets: self.inner.offsets.duplicate(),
            cursors: self.inner.cursors.duplicate(),
            current: self.inner.current,
            accessed_indicators: self.inner.accessed_indicators.clone(),
            insufficient_calls_indicators: self.inner.insufficient_calls_indicators.duplicate(),
            insufficient_bytes_indicators: self.inner.insufficient_bytes_indicators.duplicate(),
            capturing: self.inner.capturing,
        };
        let c = AlmondInput { inner };
        assert(c@.calls =~= self@.calls);
        c
    }
}

impl AlmondInput {
    /// A copy of the bytes of argument `arg` of call `call_idx` of `s`.
    pub fn arg_bytes(&self, s: SyscallID, call_idx: usize, arg: usize) -> (b: Vec<u8>)
        requires
            self@.calls.contains_key(s),
            call_idx < self@.calls[s].len(),
            arg < NUM_ARGS,
        ensures
            b@ == self@.calls[s][call_idx as int][arg as int],
    {
        match self.inner.map.get(&s) {
            Some(calls) => clone_bytes(calls.arg(call_idx, arg)),
            None => Vec::new(),
        }
    }

    /// Replaces the bytes of argument `arg` of call `call_idx` of `s`.
    pub fn set_arg_bytes(&mut self, s: SyscallID, call_idx: usize, arg: usize, bytes: Vec<u8>)
        requires
            old(self)@.calls.contains_key(s),
            call_idx < old(self)@.calls[s].len(),
            arg < NUM_ARGS,
        ensures
            final(self)@ == with_arg_bytes(old(self)@, s, call_idx as int, arg as int, bytes@),
    {
        let mut calls = match self.inner.map.remove(&s) {
            Some(c) => c,
            None => CallsInput::empty(),
        };
        calls.set_arg(call_idx, arg, bytes);
        self.inner.map.insert(s, calls);
        proof {
            assert(self@.calls =~= old(self)@.calls.insert(
                s,
                old(self)@.calls[s].update(
                    call_idx as int,
                    old(self)@.calls[s][call_idx as int].update(arg as int, bytes@),
                ),
            ));
        }
    }

    /// Takes the calls of `s` out of the input.
    pub fn take_calls(&mut self, s: SyscallID) -> (r: Option<CallsInput>)
        ensures
            final(self)@ == (InputState { calls: old(self)@.calls.remove(s), ..old(self)@ }),
            match r {
                Some(c) => old(self)@.calls.contains_key(s) && c@ == old(self)@.calls[s],
                None => !old(self)@.calls.contains_key(s),
            },
    {
        let r = self.inner.map.remove(&s);
        assert(self@.calls =~= old(self)@.calls.remove(s));
        r
    }

    /// Sets the calls of `s`.
    pub fn put_calls(&mut self, s: SyscallID, calls: CallsInput)
        ensures
            final(self)@ == (InputState { calls: old(self)@.calls.insert(s, calls@), ..old(self)@ }),
    {
        self.inner.map.insert(s, calls);
        assert(self@.calls =~= old(self)@.calls.insert(s, calls@));
    }
}

/// Capture replays: the bytes captured for an argument of a syscall
/// that had no calls are exactly what the next execution reads back for that
/// argument, when it asks for as many bytes at the start of the syscall's
/// first call.
pub proof fn law_capture_then_serve(
    o: InputState,
    n: InputState,
    s: SyscallID,
    a: u32,
    data: Seq<u8>,
    bytes: Seq<u8>,
)
    requires
        !o.calls.contains_key(s),
        o.offset_of(s) == 0,
        o.cursor_of(s, a) == 0,
        a < NUM_ARGS,
        data.len() <= usize::MAX,
        served(after_capture(o, s, a, data), n, s, a, data.len() as usize, bytes),
    ensures
        bytes == data,
        after_capture(o, s, a, data).readable(s, a),
{
    let c = after_capture(o, s, a, data);
    let grown = grow_calls(Seq::<Seq<Seq<u8>>>::empty(), 1);
    assert(grown =~= seq![empty_call_view()]);
    assert(c.calls[s] =~= seq![empty_call_view().update(a as int, Seq::<u8>::empty() + data)]);
    assert(c.offset_of(s) == 0);
    assert(c.call_index(s) == 0);
    assert(c.stream_of(s, a) =~= data);
    assert(c.cursor_of(s, a) == 0);
    assert(c.take_of(s, a, data.len() as int) == data.len());
    assert(data.subrange(0, data.len() as int) =~= data);
    assert(zeros(0) =~= Seq::<u8>::empty());
    assert(bytes =~= data);
}

/// Reads within one syscall continue one stream: two reads of the same
/// argument, the second from the state the first left, together take the
/// bytes of the argument's stream that follow the cursor, when the stream
/// holds them all.
pub proof fn law_reads_continue_the_stream(
    o: InputState,
    n1: InputState,
    n2: InputState,
    s: SyscallID,
    a: u32,
    l1: usize,
    l2: usize,
    b1: Seq<u8>,
    b2: Seq<u8>,
)
    requires
        o.calls.contains_key(s),
        o.readable(s, a),
        o.cursor_of(s, a) + l1 + l2 <= o.stream_of(s, a).len(),
        o.stream_of(s, a).len() <= usize::MAX,
        served(o, n1, s, a, l1, b1),
        served(n1, n2, s, a, l2, b2),
    ensures
        b1 + b2 == o.stream_of(s, a).subrange(
            o.cursor_of(s, a),
            o.cursor_of(s, a) + l1 + l2,
        ),
{
    let c = o.cursor_of(s, a);
    let st = o.stream_of(s, a);
    assert(o.take_of(s, a, l1 as int) == l1);
    assert(zeros(0) =~= Seq::<u8>::empty());
    assert(b1 =~= st.subrange(c, c + l1));
    assert(n1.cursor_of(s, a) == c + l1);
    assert(n1.stream_of(s, a) == st);
    assert(n1.take_of(s, a, l2 as int) == l2);
    assert(b2 =~= st.subrange(c + l1, c + l1 + l2));
    assert(b1 + b2 =~= st.subrange(c, c + l1 + l2));
}

/// Leaving a syscall rewinds it: the next read of any of its arguments
/// starts at the first byte of the argument in the syscall's next call.
pub proof fn law_advance_rewinds_cursors(o: InputState, s: SyscallID, a: u32)
    requires
        o.offset_of(s) < usize::MAX,
    ensures
        advanced(o, s).cursor_of(s, a) == 0,
        advanced(o, s).offset_of(s) == o.offset_of(s) + 1,
        !advanced(o, s).capturing,
        advanced(o, s).calls == o.calls,
{
}

} // verus!
