//! Coverage observation: novelty streams of addresses and edge signals.
pub mod coverage_ring;
pub mod signal_ring;
pub mod novelty;
pub mod kcov_map;
