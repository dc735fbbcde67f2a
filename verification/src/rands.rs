//! Random numbers, drawn from `libafl_bolts`' standard generator.
use vstd::prelude::*;
use libafl_bolts::rands::{Rand, RomuDuoJrRand};

verus! {

/// `libafl_bolts::rands::RomuDuoJrRand`, the generator behind
/// `libafl_bolts::rands::StdRand`. Its state is opaque here.
#[verifier::external_type_specification]
#[verifier::external_body]
pub struct ExRomuDuoJrRand(RomuDuoJrRand);

/// The standard random generator.
pub type StdRand = RomuDuoJrRand;

/// `Rand::below`: a value in `0..n`. Which value depends on the generator
/// state, which is advanced; only the range is stated.
#[verifier::external_body]
pub fn rand_below(rand: &mut StdRand, n: usize) -> (r: usize)
    requires
        n > 0,
    ensures
        r < n,
{
    rand.below(core::num::NonZero::new(n).unwrap())
}

/// `Rand::below_or_zero`: a value in `0..n`, or 0 when `n` is 0. Which value
/// depends on the generator state, which is advanced.
#[verifier::external_body]
pub fn rand_below_or_zero(rand: &mut StdRand, n: usize) -> (r: usize)
    ensures
        n == 0 ==> r == 0,
        n > 0 ==> r < n,
{
    rand.below_or_zero(n)
}

/// `Rand::next`: the next 64 bits of the generator; nothing is stated of
/// their value.
#[verifier::external_body]
pub fn rand_next(rand: &mut StdRand) -> (r: u64) {
    rand.next()
}

} // verus!
