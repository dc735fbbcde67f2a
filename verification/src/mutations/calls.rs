//! Mutations of the list of calls of one syscall: reorder, reverse, rotate,
//! duplicate, delete, swap arguments between calls, and create a call.
use vstd::prelude::*;
use crate::input::list::{Call, CallsInput, NUM_ARGS, call_view, empty_call};
use crate::mutations::MutationResult;
use crate::rands::{StdRand, rand_below, rand_next};

verus! {

/// Redraws a random index below `len` until it differs from `other`. After
/// `u64::MAX` equal draws in a row it takes the index after `other`,
/// wrapping round to 0.
fn draw_other(rand: &mut StdRand, len: usize, other: usize) -> (r: usize)
    requires
        len >= 2,
        other < len,
    ensures
        r < len,
        r != other,
{
    let mut pos = rand_below(rand, len);
    let mut tries: u64 = 0;
    while pos == other && tries < u64::MAX
        invariant
            pos < len,
            len >= 2,
        decreases u64::MAX - tries,
    {
        tries = tries + 1;
        pos = rand_below(rand, len);
    }
    if pos != other {
        pos
    } else if other + 1 < len {
        other + 1
    } else {
        0
    }
}

/// Exchanges two random distinct calls.
#[derive(Debug)]
pub struct CallReorderMutator {
    name: &'static str,
}

impl CallReorderMutator {
    /// The mutator's name, as characters.
    pub closed spec fn name_view(&self) -> Seq<char> {
        self.name@
    }

    /// A new mutator.
    pub fn new() -> (m: Self)
        ensures
            m.name_view() == "CallReorderMutator"@,
    {
        CallReorderMutator { name: "CallReorderMutator" }
    }

    /// The mutator's name.
    pub fn name(&self) -> (n: &'static str)
        ensures
            n@ == self.name_view(),
    {
        self.name
    }

    /// With fewer than two calls, skips. Otherwise draws two distinct
    /// positions (redrawing the second while it equals the first) and swaps
    /// the calls there.
    pub fn mutate(&mut self, rand: &mut StdRand, calls: &mut CallsInput) -> (r: MutationResult)
        ensures
            r == (if old(calls)@.len() < 2 {
                MutationResult::Skipped
            } else {
                MutationResult::Mutated
            }),
            r == MutationResult::Skipped ==> final(calls)@ == old(calls)@,
            r == MutationResult::Mutated ==> exists|i: int, j: int|
                0 <= i < old(calls)@.len() && 0 <= j < old(calls)@.len() && i != j
                    && final(calls)@ == old(calls)@.update(i, old(calls)@[j]).update(
                    j,
                    old(calls)@[i],
                ),
    {
        let len = calls.len();
        if len < 2 {
            return MutationResult::Skipped;
        }
        let pos1 = rand_below(rand, len);
        let pos2 = draw_other(rand, len, pos1);
        calls.swap_parts(pos1, pos2);
        assert(calls@ == old(calls)@.update(pos1 as int, old(calls)@[pos2 as int]).update(
            pos2 as int,
            old(calls)@[pos1 as int],
        ));
        MutationResult::Mutated
    }
}

/// Reverses the order of the calls.
#[derive(Debug)]
pub struct CallReverseMutator {
    name: &'static str,
}

impl CallReverseMutator {
    /// The mutator's name, as characters.
    pub closed spec fn name_view(&self) -> Seq<char> {
        self.name@
    }

    /// A new mutator.
    pub fn new() -> (m: Self)
        ensures
            m.name_view() == "CallReverseMutator"@,
    {
        CallReverseMutator { name: "CallReverseMutator" }
    }

    /// The mutator's name.
    pub fn name(&self) -> (n: &'static str)
        ensures
            n@ == self.name_view(),
    {
        self.name
    }

    /// With fewer than two calls, skips; otherwise reverses them.
    pub fn mutate(&mut self, rand: &mut StdRand, calls: &mut CallsInput) -> (r: MutationResult)
        ensures
            r == (if old(calls)@.len() < 2 {
                MutationResult::Skipped
            } else {
                MutationResult::Mutated
            }),
            r == MutationResult::Skipped ==> final(calls)@ == old(calls)@,
            r == MutationResult::Mutated ==> final(calls)@ == old(calls)@.reverse(),
    {
        if calls.len() < 2 {
            return MutationResult::Skipped;
        }
        calls.reverse_parts();
        MutationResult::Mutated
    }
}

/// Rotates the calls left by a random amount.
#[derive(Debug)]
pub struct CallRotateMutator {
    name: &'static str,
}

impl CallRotateMutator {
    /// The mutator's name, as characters.
    pub closed spec fn name_view(&self) -> Seq<char> {
        self.name@
    }

    /// A new mutator.
    pub fn new() -> (m: Self)
        ensures
            m.name_view() == "CallRotateMutator"@,
    {
        CallRotateMutator { name: "CallRotateMutator" }
    }

    /// The mutator's name.
    pub fn name(&self) -> (n: &'static str)
        ensures
            n@ == self.name_view(),
    {
        self.name
    }

    /// With fewer than two calls, skips; otherwise rotates left by a random
    /// amount in `1..len`, so that the first call moves.
    pub fn mutate(&mut self, rand: &mut StdRand, calls: &mut CallsInput) -> (r: MutationResult)
        ensures
            r == (if old(calls)@.len() < 2 {
                MutationResult::Skipped
            } else {
                MutationResult::Mutated
            }),
            r == MutationResult::Skipped ==> final(calls)@ == old(calls)@,
            r == MutationResult::Mutated ==> exists|k: int|
                1 <= k < old(calls)@.len() && final(calls)@ == old(calls)@.subrange(
                    k,
                    old(calls)@.len() as int,
                ) + old(calls)@.subrange(0, k),
    {
        let len = calls.len();
        if len < 2 {
            return MutationResult::Skipped;
        }
        let amount = rand_below(rand, len - 1) + 1;
        calls.rotate_parts_left(amount);
        assert(calls@ == old(calls)@.subrange(amount as int, len as int) + old(calls)@.subrange(
            0,
            amount as int,
        ));
        MutationResult::Mutated
    }
}

/// Duplicates a random call into a random position.
#[derive(Debug)]
pub struct CallAddMutator {
    name: &'static str,
}

impl CallAddMutator {
    /// The mutator's name, as characters.
    pub closed spec fn name_view(&self) -> Seq<char> {
        self.name@
    }

    /// A new mutator.
    pub fn new() -> (m: Self)
        ensures
            m.name_view() == "CallAddMutator"@,
    {
        CallAddMutator { name: "CallAddMutator" }
    }

    /// The mutator's name.
    pub fn name(&self) -> (n: &'static str)
        ensures
            n@ == self.name_view(),
    {
        self.name
    }

    /// With no call, or five calls or more, skips. Otherwise copies a random
    /// call and inserts the copy at a random position (the end included).
    pub fn mutate(&mut self, rand: &mut StdRand, calls: &mut CallsInput) -> (r: MutationResult)
        ensures
            r == (if old(calls)@.len() == 0 || old(calls)@.len() >= 5 {
                MutationResult::Skipped
            } else {
                MutationResult::Mutated
            }),
            r == MutationResult::Skipped ==> final(calls)@ == old(calls)@,
            r == MutationResult::Mutated ==> exists|src: int, pos: int|
                0 <= src < old(calls)@.len() && 0 <= pos <= old(calls)@.len() && final(calls)@
                    == old(calls)@.insert(pos, old(calls)@[src]),
    {
        let len = calls.len();
        if len == 0 {
            return MutationResult::Skipped;
        }
        if len >= 5 {
            return MutationResult::Skipped;
        }
        let source_idx = rand_below(rand, len);
        let source_call = calls.clone_part(source_idx);
        let insert_pos = rand_below(rand, len + 1);
        calls.insert_part(insert_pos, source_call);
        assert(calls@ == old(calls)@.insert(insert_pos as int, old(calls)@[source_idx as int]));
        MutationResult::Mutated
    }
}

/// Deletes a random call.
#[derive(Debug)]
pub struct CallDeleteMutator {
    name: &'static str,
}

impl CallDeleteMutator {
    /// The mutator's name, as characters.
    pub closed spec fn name_view(&self) -> Seq<char> {
        self.name@
    }

    /// A new mutator.
    pub fn new() -> (m: Self)
        ensures
            m.name_view() == "CallDeleteMutator"@,
    {
        CallDeleteMutator { name: "CallDeleteMutator" }
    }

    /// The mutator's name.
    pub fn name(&self) -> (n: &'static str)
        ensures
            n@ == self.name_view(),
    {
        self.name
    }

    /// With fewer than two calls, skips; otherwise removes a random call.
    pub fn mutate(&mut self, rand: &mut StdRand, calls: &mut CallsInput) -> (r: MutationResult)
        ensures
            r == (if old(calls)@.len() < 2 {
                MutationResult::Skipped
            } else {
                MutationResult::Mutated
            }),
            r == MutationResult::Skipped ==> final(calls)@ == old(calls)@,
            r == MutationResult::Mutated ==> exists|i: int|
                0 <= i < old(calls)@.len() && final(calls)@ == old(calls)@.remove(i),
    {
        let len = calls.len();
        if len < 2 {
            return MutationResult::Skipped;
        }
        let delete_idx = rand_below(rand, len);
        calls.remove_part_at_index(delete_idx);
        assert(calls@ == old(calls)@.remove(delete_idx as int));
        MutationResult::Mutated
    }
}

/// Swaps one argument between two random distinct calls.
#[derive(Debug)]
pub struct CallCrossoverMutator {
    name: &'static str,
}

impl CallCrossoverMutator {
    /// The mutator's name, as characters.
    pub closed spec fn name_view(&self) -> Seq<char> {
        self.name@
    }

    /// A new mutator.
    pub fn new() -> (m: Self)
        ensures
            m.name_view() == "CallCrossoverMutator"@,
    {
        CallCrossoverMutator { name: "CallCrossoverMutator" }
    }

    /// The mutator's name.
    pub fn name(&self) -> (n: &'static str)
        ensures
            n@ == self.name_view(),
    {
        self.name
    }

    /// With fewer than two calls, skips. Otherwise draws two distinct calls
    /// and an argument index, and exchanges that argument between the calls.
    pub fn mutate(&mut self, rand: &mut StdRand, calls: &mut CallsInput) -> (r: MutationResult)
        ensures
            r == (if old(calls)@.len() < 2 {
                MutationResult::Skipped
            } else {
                MutationResult::Mutated
            }),
            r == MutationResult::Skipped ==> final(calls)@ == old(calls)@,
            r == MutationResult::Mutated ==> exists|i: int, j: int, a: int|
                0 <= i < old(calls)@.len() && 0 <= j < old(calls)@.len() && i != j && 0 <= a
                    < NUM_ARGS && final(calls)@ == old(calls)@.update(
                    i,
                    old(calls)@[i].update(a, old(calls)@[j][a]),
                ).update(j, old(calls)@[j].update(a, old(calls)@[i][a])),
    {
        let len = calls.len();
        if len < 2 {
            return MutationResult::Skipped;
        }
        let idx1 = rand_below(rand, len);
        let idx2 = draw_other(rand, len, idx1);
        let arg_idx = rand_below(rand, NUM_ARGS);
        calls.swap_arg(idx1, idx2, arg_idx);
        MutationResult::Mutated
    }
}

/// An argument holding the single byte 0.
fn zero_arg() -> (v: Vec<u8>)
    ensures
        v@ == seq![0u8],
{
    let mut v: Vec<u8> = Vec::new();
    v.push(0);
    assert(v@ =~= seq![0u8]);
    v
}

/// The call that [`CallCreateMutator`] creates: every argument is the single
/// byte 0, but argument `arg`, which is `bytes`.
pub open spec fn created_call(arg: int, bytes: Seq<u8>) -> Seq<Seq<u8>> {
    Seq::new(NUM_ARGS as nat, |i: int| if i == arg { bytes } else { seq![0u8] })
}

/// Creates a call when the list is empty.
#[derive(Debug)]
pub struct CallCreateMutator {
    name: &'static str,
}

impl CallCreateMutator {
    /// The mutator's name, as characters.
    pub closed spec fn name_view(&self) -> Seq<char> {
        self.name@
    }

    /// A new mutator.
    pub fn new() -> (m: Self)
        ensures
            m.name_view() == "CallCreateMutator"@,
    {
        CallCreateMutator { name: "CallCreateMutator" }
    }

    /// The mutator's name.
    pub fn name(&self) -> (n: &'static str)
        ensures
            n@ == self.name_view(),
    {
        self.name
    }

    /// With calls present, skips. Otherwise creates one call: every argument
    /// is the byte 0, except one random argument, which gets 1 to 16 random
    /// bytes.
    pub fn mutate(&mut self, rand: &mut StdRand, calls: &mut CallsInput) -> (r: MutationResult)
        ensures
            r == (if old(calls)@.len() != 0 {
                MutationResult::Skipped
            } else {
                MutationResult::Mutated
            }),
            r == MutationResult::Skipped ==> final(calls)@ == old(calls)@,
            r == MutationResult::Mutated ==> exists|a: int, bytes: Seq<u8>|
                0 <= a < NUM_ARGS && 1 <= bytes.len() <= 16 && final(calls)@ == seq![
                    created_call(a, bytes),
                ],
    {
        if !calls.is_empty() {
            return MutationResult::Skipped;
        }
        let mut new_call: Call = [zero_arg(), zero_arg(), zero_arg(), zero_arg(), zero_arg(), zero_arg()];
        let arg_idx = rand_below(rand, NUM_ARGS);
        let arg_len = rand_below(rand, 16) + 1;
        let mut arg_bytes: Vec<u8> = Vec::new();
        let mut i: usize = 0;
        while i < arg_len
            invariant
                0 <= i <= arg_len,
                arg_bytes@.len() == i,
            decreases arg_len - i,
        {
            arg_bytes.push(#[verifier::truncate] (rand_next(rand) as u8));
            i = i + 1;
        }
        let ghost bytes = arg_bytes@;
        new_call[arg_idx] = arg_bytes;
        assert(call_view(new_call) =~= created_call(arg_idx as int, bytes));
        calls.insert_part(0, new_call);
        assert(calls@ =~= seq![created_call(arg_idx as int, bytes)]);
        MutationResult::Mutated
    }
}

} // verus!
