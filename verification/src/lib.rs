//! Almond: the verified core of a syscall fuzzer.
pub mod ring;
pub mod hashed;
pub mod syscall_tree;
pub mod observers;
pub mod skipped_args;
pub mod rands;
pub mod input;
pub mod mutations;
pub mod kmsg;
pub mod ivshmem;
pub mod stats_client;
pub mod stats_monitor;
pub mod target;
pub mod feedbacks;
pub mod clang;
