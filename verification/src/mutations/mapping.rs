//! Mutators that apply an inner mutator to a part of an input: to the bytes
//! of one argument of one call, or to the call list of one syscall.
//!
//! The inner mutator is supplied by the caller; these types choose what it
//! works on and put its result back.
use vstd::prelude::*;
use crate::input::{AlmondInput, InputState, SyscallID, calls_have_all_args, with_arg_bytes};
use crate::input::list::NUM_ARGS;
use crate::mutations::crossover::calls_or_empty;
use crate::rands::{StdRand, rand_below};
use crate::skipped_args::{SkippedArgs, is_skipped, skipped_in};

verus! {

/// `prefix`, then `inner`, then `>`: the name of a wrapping mutator.
pub fn wrapped_name(prefix: &str, inner: &str) -> (s: String)
    ensures
        s@ == prefix@ + inner@ + ">"@,
{
    let mut s = String::from_str(prefix);
    s.append(inner);
    s.append(">");
    s
}

/// Applies a bytes mutator to a random argument of a random call of the
/// focused syscall.
#[derive(Debug)]
pub struct AlmondBytesMutator<M> {
    inner: M,
    name: String,
}

impl<M> AlmondBytesMutator<M> {
    /// The name, as characters.
    pub closed spec fn name_view(&self) -> Seq<char> {
        self.name@
    }

    /// The wrapped mutator.
    pub closed spec fn inner_view(&self) -> M {
        self.inner
    }

    /// Wraps `inner`, whose name is `inner_name`.
    pub fn new(inner: M, inner_name: &str) -> (m: Self)
        ensures
            m.name_view() == "AlmondBytesMutator<"@ + inner_name@ + ">"@,
            m.inner_view() == inner,
    {
        AlmondBytesMutator { inner, name: wrapped_name("AlmondBytesMutator<", inner_name) }
    }

    /// The name.
    pub fn name(&self) -> (n: &str)
        ensures
            n@ == self.name_view(),
    {
        self.name.as_str()
    }

    /// The wrapped mutator.
    pub fn inner_mut(&mut self) -> (m: &mut M)
        ensures
            *m == old(self).inner_view(),
            final(self).inner_view() == *final(m),
            final(self).name_view() == old(self).name_view(),
    {
        &mut self.inner
    }

    /// Chooses what to mutate: a random call of the focused syscall, then a
    /// random argument. `None` (the mutation is skipped) when the syscall
    /// has no calls or the drawn argument is registered as skipped.
    pub fn select_target(&self, rand: &mut StdRand, input: &AlmondInput, skipped: &SkippedArgs) -> (r:
        Option<(usize, usize)>)
        ensures
            calls_or_empty(input@, input@.current).len() == 0 ==> r is None,
            calls_or_empty(input@, input@.current).len() > 0 && (forall|a: u32|
                a < NUM_ARGS ==> !#[trigger] skipped_in(skipped.registered(), input@.current, a))
                ==> r is Some,
            r matches Some(t) ==> {
                &&& t.0 < calls_or_empty(input@, input@.current).len()
                &&& t.1 < NUM_ARGS
                &&& !skipped_in(skipped.registered(), input@.current, t.1 as u32)
            },
    {
        let current = input.current_syscall_id();
        let calls_len = match input.inner.map.get(&current) {
            Some(c) => c.len(),
            None => 0,
        };
        if calls_len == 0 {
            return None;
        }
        let call_idx = rand_below(rand, calls_len);
        let arg_idx = rand_below(rand, NUM_ARGS);
        self.target_for(input, skipped, call_idx, arg_idx)
    }

    /// The target given the drawn call and argument: `(call_idx, arg_idx)`,
    /// unless that argument is registered as skipped for the focused syscall.
    pub fn target_for(&self, input: &AlmondInput, skipped: &SkippedArgs, call_idx: usize, arg_idx: usize) -> (r:
        Option<(usize, usize)>)
        requires
            arg_idx < NUM_ARGS,
        ensures
            r == (if skipped_in(skipped.registered(), input@.current, arg_idx as u32) {
                None
            } else {
                Some((call_idx, arg_idx))
            }),
    {
        if is_skipped(skipped, input.current_syscall_id(), arg_idx as u32) {
            None
        } else {
            Some((call_idx, arg_idx))
        }
    }
}

/// A bytes mutation spares every other argument: writing the mutated bytes
/// back to a target that [`AlmondBytesMutator::select_target`] can choose
/// (a call of the focused syscall, an argument not registered as skipped for
/// it) changes that one argument and nothing else of the input (every call
/// of an input has all its arguments: `lemma_input_calls_have_all_args`). In
/// particular no argument registered as skipped, of any syscall, changes.
pub proof fn law_bytes_mutation_spares_other_args(
    st: InputState,
    skipped: Option<Map<u32, Seq<u32>>>,
    call_idx: usize,
    arg_idx: usize,
    bytes: Seq<u8>,
)
    requires
        calls_have_all_args(st),
        call_idx < calls_or_empty(st, st.current).len(),
        arg_idx < NUM_ARGS,
        !skipped_in(skipped, st.current, arg_idx as u32),
    ensures
        ({
            let after = with_arg_bytes(st, st.current, call_idx as int, arg_idx as int, bytes);
            &&& after.calls.dom() == st.calls.dom()
            &&& after.calls[st.current][call_idx as int][arg_idx as int] == bytes
            &&& forall|s: SyscallID| #[trigger]
                st.calls.contains_key(s) ==> after.calls[s].len() == st.calls[s].len()
            &&& forall|s: SyscallID, i: int|
                st.calls.contains_key(s) && 0 <= i < st.calls[s].len() ==> (#[trigger] after.calls[s][i]).len()
                    == st.calls[s][i].len()
            &&& forall|s: SyscallID, i: int, k: int|
                st.calls.contains_key(s) && 0 <= i < st.calls[s].len() && 0 <= k < st.calls[s][i].len()
                    && (s != st.current || i != call_idx || k != arg_idx) ==> #[trigger] after.calls[s][i][k]
                    == st.calls[s][i][k]
            &&& forall|s: SyscallID, i: int, k: int|
                st.calls.contains_key(s) && 0 <= i < st.calls[s].len() && 0 <= k < st.calls[s][i].len()
                    && 0 <= k <= u32::MAX && skipped_in(skipped, s, k as u32) ==> #[trigger] after.calls[s][i][k]
                    == st.calls[s][i][k]
            &&& after.offsets == st.offsets
            &&& after.cursors == st.cursors
            &&& after.current == st.current
        }),
{
    let after = with_arg_bytes(st, st.current, call_idx as int, arg_idx as int, bytes);
    let c = st.current;
    assert(st.calls.contains_key(c));
    assert(st.calls[c][call_idx as int].len() == NUM_ARGS);
    assert(after.calls.dom() =~= st.calls.dom());
    assert forall|s: SyscallID, i: int, k: int|
        st.calls.contains_key(s) && 0 <= i < st.calls[s].len() && 0 <= k < st.calls[s][i].len() && (s
            != c || i != call_idx || k != arg_idx) implies #[trigger] after.calls[s][i][k]
        == st.calls[s][i][k] by {
        if s == c {
            if i == call_idx {
                assert(after.calls[s][i] == st.calls[s][i].update(arg_idx as int, bytes));
            } else {
                assert(after.calls[s][i] == st.calls[s][i]);
            }
        } else {
            assert(after.calls[s] == st.calls[s]);
        }
    }
    assert forall|s: SyscallID, i: int, k: int|
        st.calls.contains_key(s) && 0 <= i < st.calls[s].len() && 0 <= k < st.calls[s][i].len() && 0
            <= k <= u32::MAX && skipped_in(skipped, s, k as u32) implies #[trigger] after.calls[s][i][k]
        == st.calls[s][i][k] by {
        if s == c && i == call_idx && k == arg_idx {
            assert(k as u32 == arg_idx as u32);
        }
    }
    assert forall|s: SyscallID, i: int|
        st.calls.contains_key(s) && 0 <= i < st.calls[s].len() implies (#[trigger] after.calls[s][i]).len()
        == st.calls[s][i].len() by {
        if s == c && i == call_idx {
            assert(after.calls[s][i] == st.calls[s][i].update(arg_idx as int, bytes));
        }
    }
}

/// Applies a bytes mutator to one fixed argument of one fixed call of one
/// syscall.
#[derive(Debug)]
pub struct AlmondTargetedBytesMutator<M> {
    inner: M,
    name: String,
    syscall_no: u32,
    call_idx: usize,
    arg_idx: usize,
}

impl<M> AlmondTargetedBytesMutator<M> {
    /// The name, as characters.
    pub closed spec fn name_view(&self) -> Seq<char> {
        self.name@
    }

    /// The wrapped mutator.
    pub closed spec fn inner_view(&self) -> M {
        self.inner
    }

    /// The targeted (syscall, call, argument).
    pub closed spec fn target(&self) -> (u32, usize, usize) {
        (self.syscall_no, self.call_idx, self.arg_idx)
    }

    /// Wraps `inner`, whose name is `inner_name`, to target argument
    /// `arg_idx` of call `call_idx` of `syscall_no`.
    pub fn new(inner: M, inner_name: &str, syscall_no: u32, call_idx: usize, arg_idx: usize) -> (m:
        Self)
        ensures
            m.name_view() == "AlmondTargetedBytesMutator<"@ + inner_name@ + ">"@,
            m.inner_view() == inner,
            m.target() == (syscall_no, call_idx, arg_idx),
    {
        AlmondTargetedBytesMutator {
            inner,
            name: wrapped_name("AlmondTargetedBytesMutator<", inner_name),
            syscall_no,
            call_idx,
            arg_idx,
        }
    }

    /// The name.
    pub fn name(&self) -> (n: &str)
        ensures
            n@ == self.name_view(),
    {
        self.name.as_str()
    }

    /// The targeted (syscall, call, argument).
    pub fn targeted(&self) -> (t: (u32, usize, usize))
        ensures
            t == self.target(),
    {
        (self.syscall_no, self.call_idx, self.arg_idx)
    }

    /// The wrapped mutator.
    pub fn inner_mut(&mut self) -> (m: &mut M)
        ensures
            *m == old(self).inner_view(),
            final(self).inner_view() == *final(m),
            final(self).name_view() == old(self).name_view(),
            final(self).target() == old(self).target(),
    {
        &mut self.inner
    }

    /// Whether the target can be mutated in `input`: the syscall has calls,
    /// its argument is not registered as skipped, and the call exists.
    pub fn applies_to(&self, input: &AlmondInput, skipped: &SkippedArgs) -> (b: bool)
        ensures
            b == (calls_or_empty(input@, self.target().0).len() > 0 && !skipped_in(
                skipped.registered(),
                self.target().0,
                self.target().2 as u32,
            ) && self.target().1 < calls_or_empty(input@, self.target().0).len()),
    {
        let calls_len = match input.inner.map.get(&self.syscall_no) {
            Some(c) => c.len(),
            None => 0,
        };
        if calls_len == 0 {
            return false;
        }
        if is_skipped(skipped, self.syscall_no, #[verifier::truncate] (self.arg_idx as u32)) {
            return false;
        }
        self.call_idx < calls_len
    }
}

/// Builds [`AlmondTargetedBytesMutator`]s for one target.
#[derive(Debug)]
pub struct ToAlmondTargetedBytesMutator {
    syscall_no: u32,
    call_idx: usize,
    arg_idx: usize,
}

impl ToAlmondTargetedBytesMutator {
    /// The target that built mutators get.
    pub closed spec fn target(&self) -> (u32, usize, usize) {
        (self.syscall_no, self.call_idx, self.arg_idx)
    }

    /// A builder for argument `arg_idx` of call `call_idx` of `syscall_no`.
    pub fn new(syscall_no: u32, call_idx: usize, arg_idx: usize) -> (m: Self)
        ensures
            m.target() == (syscall_no, call_idx, arg_idx),
    {
        ToAlmondTargetedBytesMutator { syscall_no, call_idx, arg_idx }
    }

    /// Wraps `from`, whose name is `from_name`, for this builder's target.
    pub fn apply<M>(&mut self, from: M, from_name: &str) -> (m: AlmondTargetedBytesMutator<M>)
        ensures
            m.name_view() == "AlmondTargetedBytesMutator<"@ + from_name@ + ">"@,
            m.inner_view() == from,
            m.target() == old(self).target(),
            final(self).target() == old(self).target(),
    {
        AlmondTargetedBytesMutator::new(from, from_name, self.syscall_no, self.call_idx, self.arg_idx)
    }
}

/// Builds [`AlmondBytesMutator`]s.
pub struct ToAlmondBytesMutator;

impl ToAlmondBytesMutator {
    /// Wraps `from`, whose name is `from_name`.
    pub fn apply<M>(&mut self, from: M, from_name: &str) -> (m: AlmondBytesMutator<M>)
        ensures
            m.name_view() == "AlmondBytesMutator<"@ + from_name@ + ">"@,
            m.inner_view() == from,
    {
        AlmondBytesMutator::new(from, from_name)
    }
}

/// Applies a call-list mutator to the calls of the focused syscall.
#[derive(Debug)]
pub struct AlmondCallsMutator<M> {
    inner: M,
    name: String,
}

impl<M> AlmondCallsMutator<M> {
    /// The name, as characters.
    pub closed spec fn name_view(&self) -> Seq<char> {
        self.name@
    }

    /// The wrapped mutator.
    pub closed spec fn inner_view(&self) -> M {
        self.inner
    }

    /// Wraps `inner`, whose name is `inner_name`.
    pub fn new(inner: M, inner_name: &str) -> (m: Self)
        ensures
            m.name_view() == "AlmondCallsMutator<"@ + inner_name@ + ">"@,
            m.inner_view() == inner,
    {
        AlmondCallsMutator { inner, name: wrapped_name("AlmondCallsMutator<", inner_name) }
    }

    /// The name.
    pub fn name(&self) -> (n: &str)
        ensures
            n@ == self.name_view(),
    {
        self.name.as_str()
    }

    /// The wrapped mutator.
    pub fn inner_mut(&mut self) -> (m: &mut M)
        ensures
            *m == old(self).inner_view(),
            final(self).inner_view() == *final(m),
            final(self).name_view() == old(self).name_view(),
    {
        &mut self.inner
    }
}

/// Builds [`AlmondCallsMutator`]s.
pub struct ToAlmondCallsMutator;

impl ToAlmondCallsMutator {
    /// Wraps `from`, whose name is `from_name`.
    pub fn apply<M>(&mut self, from: M, from_name: &str) -> (m: AlmondCallsMutator<M>)
        ensures
            m.name_view() == "AlmondCallsMutator<"@ + from_name@ + ">"@,
            m.inner_view() == from,
    {
        AlmondCallsMutator::new(from, from_name)
    }
}

} // verus!
