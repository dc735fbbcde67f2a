//! Mutators of fuzzer inputs.
use vstd::prelude::*;
use crate::mutations::crossover::AlmondCrossoverInsertMutator;
use crate::rands::{StdRand, rand_below, rand_below_or_zero};

pub mod calls;
pub mod crossover;
pub mod mapping;

verus! {

/// The outcome of a mutation.
#[derive(Debug, Clone, Copy, PartialEq, Eq, Structural)]
pub enum MutationResult {
    /// The input was changed.
    Mutated,
    /// The input was left as it was.
    Skipped,
}

/// `2^(k + 1)`, the number of stacked mutations for exponent `k`.
pub open spec fn stack_size(k: u64) -> u64 {
    1u64 << ((k + 1) as u64)
}

/// The names in `names`, in order, separated by `sep`.
pub open spec fn join_with(names: Seq<Seq<char>>, sep: Seq<char>) -> Seq<char>
    decreases names.len(),
{
    if names.len() == 0 {
        Seq::<char>::empty()
    } else if names.len() == 1 {
        names[0]
    } else {
        join_with(names.drop_last(), sep) + sep + names.last()
    }
}

/// The views of a sequence of strings.
pub open spec fn strings_view(names: Seq<String>) -> Seq<Seq<char>> {
    Seq::new(names.len(), |i: int| names[i]@)
}

/// Joins `names` with `", "`.
pub fn join_names(names: &Vec<String>) -> (s: String)
    ensures
        s@ == join_with(strings_view(names@), ", "@),
{
    let mut s = String::new();
    let ghost all = strings_view(names@);
    let mut i: usize = 0;
    while i < names.len()
        invariant
            0 <= i <= names.len(),
            all == strings_view(names@),
            s@ == join_with(all.take(i as int), ", "@),
        decreases names.len() - i,
    {
        if i != 0 {
            s.append(", ");
        }
        s.append(names[i].as_str());
        proof {
            assert(all.take(i + 1).drop_last() =~= all.take(i as int));
            if i == 0 {
                assert(s@ =~= join_with(all.take(1), ", "@));
            }
        }
        i = i + 1;
    }
    assert(all.take(names.len() as int) =~= all);
    s
}

/// Applies a random stack of mutations chosen from a set of mutations, after
/// addressing the input's insufficient-calls and insufficient-bytes
/// indicators.
#[derive(Debug)]
pub struct AlmondScheduledMutator<MT> {
    name: String,
    mutations: MT,
    crossover_insert_mutator: AlmondCrossoverInsertMutator,
    max_stack_pow: usize,
}

impl<MT> AlmondScheduledMutator<MT> {
    /// The name, as characters.
    pub closed spec fn name_view(&self) -> Seq<char> {
        self.name@
    }

    /// The set of mutations.
    pub closed spec fn mutations_view(&self) -> MT {
        self.mutations
    }

    /// The crossover mutator used for insufficient-calls indicators.
    pub closed spec fn crossover_insert_view(&self) -> AlmondCrossoverInsertMutator {
        self.crossover_insert_mutator
    }

    /// The exponent bound of the number of stacked mutations.
    pub closed spec fn stack_pow(&self) -> usize {
        self.max_stack_pow
    }

    /// A scheduler over `mutations`, whose names are `names`, stacking up to
    /// 2^8 mutations.
    pub fn new(mutations: MT, names: &Vec<String>) -> (m: Self)
        ensures
            m.name_view() == "AlmondScheduledMutator["@ + join_with(strings_view(names@), ", "@)
                + "]"@,
            m.mutations_view() == mutations,
            m.crossover_insert_view().name_view() == "AlmondCrossoverInsertMutator"@,
            m.stack_pow() == 8,
    {
        let mut name = String::from_str("AlmondScheduledMutator[");
        let joined = join_names(names);
        name.append(joined.as_str());
        name.append("]");
        AlmondScheduledMutator {
            name,
            mutations,
            crossover_insert_mutator: AlmondCrossoverInsertMutator::new(),
            max_stack_pow: 8,
        }
    }

    /// The name.
    pub fn name(&self) -> (n: &str)
        ensures
            n@ == self.name_view(),
    {
        self.name.as_str()
    }

    /// The set of mutations.
    pub fn mutations(&self) -> (m: &MT)
        ensures
            *m == self.mutations_view(),
    {
        &self.mutations
    }

    /// The set of mutations, mutably.
    pub fn mutations_mut(&mut self) -> (m: &mut MT)
        ensures
            *m == old(self).mutations_view(),
            final(self).mutations_view() == *final(m),
            final(self).crossover_insert_view() == old(self).crossover_insert_view(),
            final(self).name_view() == old(self).name_view(),
            final(self).stack_pow() == old(self).stack_pow(),
    {
        &mut self.mutations
    }

    /// The crossover mutator used for insufficient-calls indicators.
    pub fn crossover_insert_mutator_mut(&mut self) -> (m: &mut AlmondCrossoverInsertMutator)
        ensures
            *m == old(self).crossover_insert_view(),
            final(self).crossover_insert_view() == *final(m),
            final(self).mutations_view() == old(self).mutations_view(),
            final(self).name_view() == old(self).name_view(),
            final(self).stack_pow() == old(self).stack_pow(),
    {
        &mut self.crossover_insert_mutator
    }

    /// The number of mutations to stack: `2^(1 + k)` for a random `k` below
    /// the exponent bound (`k` is 0 when the bound is 0).
    pub fn iterations(&self, rand: &mut StdRand) -> (n: u64)
        requires
            self.stack_pow() <= 62,
        ensures
            exists|k: u64| (k < self.stack_pow() || k == 0) && n == #[trigger] stack_size(k),
    {
        let k = rand_below_or_zero(rand, self.max_stack_pow) as u64;
        let n = 1u64 << (1 + k);
        assert(n == stack_size(k));
        n
    }

    /// The index of the next mutation among `count` mutations: a random index
    /// below `count`.
    pub fn schedule(&self, rand: &mut StdRand, count: usize) -> (idx: usize)
        requires
            count > 0,
        ensures
            idx < count,
    {
        rand_below(rand, count)
    }
}

} // verus!
