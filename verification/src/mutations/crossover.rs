//! Crossover mutators: they combine the input with another input of the
//! corpus, on the syscall that mutation focuses on.
//!
//! Picking the other input from the corpus is the caller's part; these
//! mutators take that input as an argument.
use vstd::prelude::*;
use crate::input::{AlmondInput, CallsView, InputState, SyscallID};
use crate::input::list::{CallsInput, NUM_ARGS, call_view};
use crate::mutations::MutationResult;
use crate::rands::{StdRand, rand_below};

verus! {

/// The calls of `s` in `st`, or none.
pub open spec fn calls_or_empty(st: InputState, s: SyscallID) -> CallsView {
    if st.calls.contains_key(s) {
        st.calls[s]
    } else {
        Seq::<Seq<Seq<u8>>>::empty()
    }
}

/// Whether some argument of some call in `calls` holds at least one byte.
pub open spec fn has_nonempty_arg(calls: CallsView) -> bool {
    exists|i: int, a: int| 0 <= i < calls.len() && 0 <= a < NUM_ARGS && #[trigger] calls[i][a].len()
        > 0
}

/// `st` with the calls of `s` replaced by `calls`.
pub open spec fn with_calls(st: InputState, s: SyscallID, calls: CallsView) -> InputState {
    InputState { calls: st.calls.insert(s, calls), ..st }
}

/// Appends a random call of the other input to the focused syscall.
#[derive(Debug)]
pub struct AlmondCrossoverInsertMutator {
    name: &'static str,
}

impl AlmondCrossoverInsertMutator {
    /// The mutator's name, as characters.
    pub closed spec fn name_view(&self) -> Seq<char> {
        self.name@
    }

    /// A new mutator.
    pub fn new() -> (m: Self)
        ensures
            m.name_view() == "AlmondCrossoverInsertMutator"@,
    {
        AlmondCrossoverInsertMutator { name: "AlmondCrossoverInsertMutator" }
    }

    /// The mutator's name.
    pub fn name(&self) -> (n: &'static str)
        ensures
            n@ == self.name_view(),
    {
        self.name
    }

    /// When `other` has calls of the focused syscall, appends a copy of a
    /// random one of them to the input's calls of that syscall (creating the
    /// list when the input has none); otherwise skips.
    pub fn mutate(&mut self, rand: &mut StdRand, input: &mut AlmondInput, other: &AlmondInput) -> (r:
        MutationResult)
        ensures
            ({
                let t = old(input)@.current;
                let theirs = calls_or_empty(other@, t);
                &&& r == (if theirs.len() == 0 {
                    MutationResult::Skipped
                } else {
                    MutationResult::Mutated
                })
                &&& r == MutationResult::Skipped ==> final(input)@ == old(input)@
                &&& r == MutationResult::Mutated ==> exists|i: int|
                    0 <= i < theirs.len() && final(input)@ == with_calls(
                        old(input)@,
                        t,
                        calls_or_empty(old(input)@, t).push(theirs[i]),
                    )
            }),
    {
        let target = input.current_syscall_id();
        let theirs_len = match other.inner.map.get(&target) {
            None => 0,
            Some(c) => c.len(),
        };
        if theirs_len == 0 {
            return MutationResult::Skipped;
        }
        let j = rand_below(rand, theirs_len);
        Self::insert_call(input, other, j);
        MutationResult::Mutated
    }

    /// Appends a copy of call `j` of `other`'s calls of the focused syscall to
    /// the input's calls of that syscall, creating the list when the input has
    /// none.
    pub fn insert_call(input: &mut AlmondInput, other: &AlmondInput, j: usize)
        requires
            j < calls_or_empty(other@, old(input)@.current).len(),
        ensures
            final(input)@ == with_calls(
                old(input)@,
                old(input)@.current,
                calls_or_empty(old(input)@, old(input)@.current).push(
                    calls_or_empty(other@, old(input)@.current)[j as int],
                ),
            ),
    {
        let target = input.current_syscall_id();
        let call = match other.inner.map.get(&target) {
            None => {
                assert(false);
                return;
            },
            Some(other_calls) => {
                let c = other_calls.clone_part(j);
                assert(call_view(c) == calls_or_empty(other@, target)[j as int]);
                c
            },
        };
        let mut calls = match input.inner.map.remove(&target) {
            Some(c) => c,
            None => CallsInput::empty(),
        };
        calls.append_part(call);
        input.inner.map.insert(target, calls);
        proof {
            assert(input@ =~= with_calls(
                old(input)@,
                target,
                calls_or_empty(old(input)@, target).push(call_view(call)),
            ));
        }
    }
}

/// Replaces a random call of the focused syscall with a random call of the
/// other input.
#[derive(Debug)]
pub struct AlmondCrossoverReplaceMutator {
    name: &'static str,
}

impl AlmondCrossoverReplaceMutator {
    /// The mutator's name, as characters.
    pub closed spec fn name_view(&self) -> Seq<char> {
        self.name@
    }

    /// A new mutator.
    pub fn new() -> (m: Self)
        ensures
            m.name_view() == "AlmondCrossoverReplaceMutator"@,
    {
        AlmondCrossoverReplaceMutator { name: "AlmondCrossoverReplaceMutator" }
    }

    /// The mutator's name.
    pub fn name(&self) -> (n: &'static str)
        ensures
            n@ == self.name_view(),
    {
        self.name
    }

    /// When both inputs have calls of the focused syscall, overwrites a
    /// random call of the input with a copy of a random call of `other`;
    /// otherwise skips.
    pub fn mutate(&mut self, rand: &mut StdRand, input: &mut AlmondInput, other: &AlmondInput) -> (r:
        MutationResult)
        ensures
            ({
                let t = old(input)@.current;
                let ours = calls_or_empty(old(input)@, t);
                let theirs = calls_or_empty(other@, t);
                &&& r == (if ours.len() == 0 || theirs.len() == 0 {
                    MutationResult::Skipped
                } else {
                    MutationResult::Mutated
                })
                &&& r == MutationResult::Skipped ==> final(input)@ == old(input)@
                &&& r == MutationResult::Mutated ==> exists|i: int, j: int|
                    0 <= i < ours.len() && 0 <= j < theirs.len() && final(input)@ == with_calls(
                        old(input)@,
                        t,
                        ours.update(i, theirs[j]),
                    )
            }),
    {
        let target = input.current_syscall_id();
        let ours_len = match input.inner.map.get(&target) {
            None => 0,
            Some(c) => c.len(),
        };
        let theirs_len = match other.inner.map.get(&target) {
            None => 0,
            Some(c) => c.len(),
        };
        if ours_len == 0 || theirs_len == 0 {
            return MutationResult::Skipped;
        }
        let i = rand_below(rand, ours_len);
        let j = rand_below(rand, theirs_len);
        Self::replace_call(input, other, i, j);
        MutationResult::Mutated
    }

    /// Overwrites call `i` of the input's calls of the focused syscall with a
    /// copy of call `j` of `other`'s calls of that syscall.
    pub fn replace_call(input: &mut AlmondInput, other: &AlmondInput, i: usize, j: usize)
        requires
            i < calls_or_empty(old(input)@, old(input)@.current).len(),
            j < calls_or_empty(other@, old(input)@.current).len(),
        ensures
            final(input)@ == with_calls(
                old(input)@,
                old(input)@.current,
                calls_or_empty(old(input)@, old(input)@.current).update(
                    i as int,
                    calls_or_empty(other@, old(input)@.current)[j as int],
                ),
            ),
    {
        let target = input.current_syscall_id();
        let call = match other.inner.map.get(&target) {
            None => {
                assert(false);
                return;
            },
            Some(other_calls) => {
                let c = other_calls.clone_part(j);
                assert(call_view(c) == calls_or_empty(other@, target)[j as int]);
                c
            },
        };
        let mut calls = match input.inner.map.remove(&target) {
            Some(c) => c,
            None => CallsInput::empty(),
        };
        calls.set_part(i, call);
        input.inner.map.insert(target, calls);
        proof {
            assert(input@ =~= with_calls(
                old(input)@,
                target,
                calls_or_empty(old(input)@, target).update(i as int, call_view(call)),
            ));
        }
    }
}

/// Copies one non-empty argument of the other input into a random call of
/// the focused syscall.
#[derive(Debug)]
pub struct AlmondCrossoverArgsMutator {
    name: &'static str,
}

impl AlmondCrossoverArgsMutator {
    /// The mutator's name, as characters.
    pub closed spec fn name_view(&self) -> Seq<char> {
        self.name@
    }

    /// A new mutator.
    pub fn new() -> (m: Self)
        ensures
            m.name_view() == "AlmondCrossoverArgsMutator"@,
    {
        AlmondCrossoverArgsMutator { name: "AlmondCrossoverArgsMutator" }
    }

    /// The mutator's name.
    pub fn name(&self) -> (n: &'static str)
        ensures
            n@ == self.name_view(),
    {
        self.name
    }

    /// Picks a random non-empty argument among the calls of the focused
    /// syscall in `other`, and a random call of that syscall in the input,
    /// and gives that call's argument (at the same index) the picked bytes.
    /// Skips when `other` has no non-empty argument for the syscall or the
    /// input has no call of it.
    pub fn mutate(&mut self, rand: &mut StdRand, input: &mut AlmondInput, other: &AlmondInput) -> (r:
        MutationResult)
        ensures
            ({
                let t = old(input)@.current;
                let ours = calls_or_empty(old(input)@, t);
                let theirs = calls_or_empty(other@, t);
                &&& r == (if !has_nonempty_arg(theirs) || ours.len() == 0 {
                    MutationResult::Skipped
                } else {
                    MutationResult::Mutated
                })
                &&& r == MutationResult::Skipped ==> final(input)@ == old(input)@
                &&& r == MutationResult::Mutated ==> exists|i: int, j: int, a: int|
                    0 <= i < ours.len() && 0 <= j < theirs.len() && 0 <= a < NUM_ARGS
                        && theirs[j][a].len() > 0 && final(input)@ == with_calls(
                        old(input)@,
                        t,
                        ours.update(i, ours[i].update(a, theirs[j][a])),
                    )
            }),
    {
        let target = input.current_syscall_id();
        let ghost theirs = calls_or_empty(other@, target);
        let candidates = match other.inner.map.get(&target) {
            None => Vec::new(),
            Some(other_calls) => nonempty_arg_positions(other_calls),
        };
        proof {
            if !other@.calls.contains_key(target) {
                assert(nonempty_positions(theirs, theirs.len() as int) =~= Seq::<(usize, usize)>::empty());
            }
        }
        assert(candidates@ == nonempty_positions(theirs, theirs.len() as int));
        assert(candidates@.len() > 0 <==> has_nonempty_arg(theirs));
        if candidates.len() == 0 {
            return MutationResult::Skipped;
        }
        let k = rand_below(rand, candidates.len());
        let (j, a) = candidates[k];
        assert(theirs[j as int][a as int].len() > 0);
        let ours_len = match input.inner.map.get(&target) {
            None => 0,
            Some(c) => c.len(),
        };
        if ours_len == 0 {
            return MutationResult::Skipped;
        }
        let i = rand_below(rand, ours_len);
        Self::copy_arg(input, other, i, j, a);
        MutationResult::Mutated
    }

    /// Gives argument `a` of call `i` of the input's calls of the focused
    /// syscall the bytes of argument `a` of call `j` of `other`'s calls of
    /// that syscall.
    pub fn copy_arg(input: &mut AlmondInput, other: &AlmondInput, i: usize, j: usize, a: usize)
        requires
            i < calls_or_empty(old(input)@, old(input)@.current).len(),
            j < calls_or_empty(other@, old(input)@.current).len(),
            a < NUM_ARGS,
        ensures
            ({
                let t = old(input)@.current;
                let ours = calls_or_empty(old(input)@, t);
                final(input)@ == with_calls(
                    old(input)@,
                    t,
                    ours.update(i as int, ours[i as int].update(a as int, calls_or_empty(other@, t)[j as int][a as int])),
                )
            }),
    {
        let target = input.current_syscall_id();
        let value = match other.inner.map.get(&target) {
            None => {
                assert(false);
                return;
            },
            Some(other_calls) => crate::input::list::clone_bytes(other_calls.arg(j, a)),
        };
        let mut calls = match input.inner.map.remove(&target) {
            Some(c) => c,
            None => CallsInput::empty(),
        };
        let ghost ours = calls@;
        assert(ours == calls_or_empty(old(input)@, target));
        calls.set_arg(i, a, value);
        input.inner.map.insert(target, calls);
        proof {
            assert(input@ =~= with_calls(
                old(input)@,
                target,
                ours.update(i as int, ours[i as int].update(a as int, value@)),
            ));
        }
    }
}

/// The positions (call, argument) of the arguments of call `x` of `calls`,
/// among its first `m`, that hold at least one byte, in argument order.
pub open spec fn arg_positions(calls: CallsView, x: int, m: int) -> Seq<(usize, usize)>
    decreases m,
{
    if m <= 0 {
        Seq::<(usize, usize)>::empty()
    } else {
        arg_positions(calls, x, m - 1) + if calls[x][m - 1].len() > 0 {
            seq![(x as usize, (m - 1) as usize)]
        } else {
            Seq::<(usize, usize)>::empty()
        }
    }
}

/// The positions (call, argument) of the arguments of the first `n` calls
/// of `calls` that hold at least one byte, call by call, each call in
/// argument order.
pub open spec fn nonempty_positions(calls: CallsView, n: int) -> Seq<(usize, usize)>
    decreases n,
{
    if n <= 0 {
        Seq::<(usize, usize)>::empty()
    } else {
        nonempty_positions(calls, n - 1) + arg_positions(calls, n - 1, NUM_ARGS as int)
    }
}

/// The positions listed by [`arg_positions`] are those of non-empty
/// arguments, and there is one exactly when such an argument exists.
proof fn lemma_arg_positions(calls: CallsView, x: int, m: int)
    requires
        0 <= x <= usize::MAX,
        0 <= m <= NUM_ARGS,
    ensures
        forall|k: int| 0 <= k < arg_positions(calls, x, m).len() ==> {
            let (px, py) = #[trigger] arg_positions(calls, x, m)[k];
            &&& px == x
            &&& py < m
            &&& calls[x][py as int].len() > 0
        },
        arg_positions(calls, x, m).len() > 0 <==> exists|y: int| 0 <= y < m && #[trigger] calls[x][y].len() > 0,
    decreases m,
{
    if m > 0 {
        lemma_arg_positions(calls, x, m - 1);
        let prev = arg_positions(calls, x, m - 1);
        let cur = arg_positions(calls, x, m);
        assert forall|k: int| 0 <= k < cur.len() implies {
            let (px, py) = #[trigger] cur[k];
            &&& px == x
            &&& py < m
            &&& calls[x][py as int].len() > 0
        } by {
            if k < prev.len() {
                assert(cur[k] == prev[k]);
            }
        }
        if exists|y: int| 0 <= y < m && #[trigger] calls[x][y].len() > 0 {
            let y = choose|y: int| 0 <= y < m && #[trigger] calls[x][y].len() > 0;
            if y < m - 1 {
                assert(prev.len() > 0);
            }
        }
        if cur.len() > 0 && prev.len() == 0 {
            assert(calls[x][m - 1].len() > 0);
        }
    }
}

/// The positions listed by [`nonempty_positions`] are those of non-empty
/// arguments of calls of `calls`, and there is one exactly when such an
/// argument exists.
proof fn lemma_nonempty_positions(calls: CallsView, n: int)
    requires
        0 <= n <= calls.len(),
        calls.len() <= usize::MAX,
    ensures
        forall|k: int| 0 <= k < nonempty_positions(calls, n).len() ==> {
            let (px, py) = #[trigger] nonempty_positions(calls, n)[k];
            &&& px < n
            &&& py < NUM_ARGS
            &&& calls[px as int][py as int].len() > 0
        },
        nonempty_positions(calls, n).len() > 0 <==> exists|x: int, y: int|
            0 <= x < n && 0 <= y < NUM_ARGS && #[trigger] calls[x][y].len() > 0,
    decreases n,
{
    if n > 0 {
        lemma_nonempty_positions(calls, n - 1);
        lemma_arg_positions(calls, n - 1, NUM_ARGS as int);
        let prev = nonempty_positions(calls, n - 1);
        let last = arg_positions(calls, n - 1, NUM_ARGS as int);
        let cur = nonempty_positions(calls, n);
        assert forall|k: int| 0 <= k < cur.len() implies {
            let (px, py) = #[trigger] cur[k];
            &&& px < n
            &&& py < NUM_ARGS
            &&& calls[px as int][py as int].len() > 0
        } by {
            if k < prev.len() {
                assert(cur[k] == prev[k]);
            } else {
                assert(cur[k] == last[k - prev.len()]);
            }
        }
        if exists|x: int, y: int| 0 <= x < n && 0 <= y < NUM_ARGS && #[trigger] calls[x][y].len() > 0 {
            let (x, y) = choose|x: int, y: int|
                0 <= x < n && 0 <= y < NUM_ARGS && #[trigger] calls[x][y].len() > 0;
            if x < n - 1 {
                assert(prev.len() > 0);
            } else {
                assert(last.len() > 0);
            }
        }
        if cur.len() > 0 {
            if prev.len() == 0 {
                assert(last.len() > 0);
                let y = choose|y: int| 0 <= y < NUM_ARGS && #[trigger] calls[n - 1][y].len() > 0;
                assert(calls[n - 1][y].len() > 0);
            }
        }
    }
}

/// The positions (call, argument) of the non-empty arguments of `calls`,
/// call by call, each call in argument order.
pub fn nonempty_arg_positions(calls: &CallsInput) -> (v: Vec<(usize, usize)>)
    ensures
        v@ == nonempty_positions(calls@, calls@.len() as int),
        forall|k: int| 0 <= k < v@.len() ==> {
            let (x, y) = #[trigger] v@[k];
            &&& x < calls@.len()
            &&& y < NUM_ARGS
            &&& calls@[x as int][y as int].len() > 0
        },
        v@.len() > 0 <==> has_nonempty_arg(calls@),
{
    let ghost theirs = calls@;
    let mut v: Vec<(usize, usize)> = Vec::new();
    let mut ci: usize = 0;
    while ci < calls.len()
        invariant
            calls@ == theirs,
            0 <= ci <= theirs.len(),
            v@ == nonempty_positions(theirs, ci as int),
        decreases theirs.len() - ci,
    {
        let mut ai: usize = 0;
        while ai < NUM_ARGS
            invariant
                calls@ == theirs,
                0 <= ci < theirs.len(),
                0 <= ai <= NUM_ARGS,
                v@ == nonempty_positions(theirs, ci as int) + arg_positions(theirs, ci as int, ai as int),
            decreases NUM_ARGS - ai,
        {
            let ghost before = v@;
            if calls.arg(ci, ai).len() > 0 {
                v.push((ci, ai));
                assert(v@ =~= nonempty_positions(theirs, ci as int) + arg_positions(
                    theirs,
                    ci as int,
                    ai + 1,
                ));
            } else {
                assert(arg_positions(theirs, ci as int, ai + 1) =~= arg_positions(
                    theirs,
                    ci as int,
                    ai as int,
                ));
            }
            ai = ai + 1;
        }
        assert(nonempty_positions(theirs, ci + 1) == nonempty_positions(theirs, ci as int)
            + arg_positions(theirs, ci as int, NUM_ARGS as int));
        ci = ci + 1;
    }
    proof {
        lemma_nonempty_positions(theirs, theirs.len() as int);
        if v@.len() > 0 {
            let (x, y) = choose|x: int, y: int|
                0 <= x < theirs.len() && 0 <= y < NUM_ARGS && #[trigger] theirs[x][y].len() > 0;
            assert(theirs[x][y].len() > 0);
        }
    }
    v
}

} // verus!
