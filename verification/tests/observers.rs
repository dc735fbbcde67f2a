use almond::observers::coverage_ring::{self, CoverageStream};
use almond::observers::kcov_map::KcovMapObserver;
use almond::observers::signal_ring::{self, SignalStream};

const N: usize = 65536;

fn slot(bb: u64, prev: u64) -> usize {
    ((libafl_bolts::hash_64_fast(bb) ^ libafl_bolts::hash_64_fast(prev)) & (N as u64 - 1)) as usize
}

#[test]
fn new_observer_is_zeroed() {
    let o = KcovMapObserver::<N>::new("signal");
    assert_eq!(o.name(), "signal");
    assert_eq!(o.len(), N);
    assert_eq!(o.usable_count(), N);
    assert_eq!(o.count_bytes(), 0);
    assert_eq!(o.initial(), 0);
    assert_eq!(o.syscall_len(), 0);
    assert_eq!(o.remote_len(), 0);
}

#[test]
fn trace_bumps_edge_slots_and_streams_novelty() {
    let mut o = KcovMapObserver::<N>::new("signal");
    let mut cov = CoverageStream::new();
    let mut sig = SignalStream::new();
    let trace = [0x1000u64, 0x2000, 0x1000];
    o.record_syscall_trace(&trace, &mut cov, &mut sig);
    assert_eq!(o.syscall_len(), 3);
    assert_eq!(o.remote_len(), 0);

    let edges = [slot(0x1000, 0), slot(0x2000, 0x1000 >> 1), slot(0x1000, 0x2000 >> 1)];
    for e in edges {
        let expected = edges.iter().filter(|&&x| x == e).count() as u8;
        assert_eq!(o.get(e), expected);
    }
    // The edge slot differs from the raw address: the hash is applied.
    assert_ne!(edges[0], 0x1000 & (N - 1));

    let bbs = coverage_ring::drain(&mut cov);
    assert_eq!(bbs, vec![0x1000, 0x2000]);
    let mut distinct: Vec<u32> = Vec::new();
    for e in edges {
        if !distinct.contains(&(e as u32)) {
            distinct.push(e as u32);
        }
    }
    assert_eq!(signal_ring::drain(&mut sig), distinct);
}

#[test]
fn map_accessors() {
    let mut o = KcovMapObserver::<16>::new("m");
    o.set(3, 7);
    o.set(100, 9);
    assert_eq!(o.get(3), 7);
    assert_eq!(o.get(100), 0);
    assert_eq!(o.count_bytes(), 1);
    assert_eq!(o.how_many_set(&[3, 3, 4, 100]), 2);
    assert_eq!(o.to_vec().len(), 16);
    o.reset_map();
    assert_eq!(o.count_bytes(), 0);
    assert_eq!(o.as_slice(), &[0u8; 16][..]);
}

#[test]
fn counters_wrap_at_256() {
    let mut o = KcovMapObserver::<N>::new("signal");
    let mut cov = CoverageStream::new();
    let mut sig = SignalStream::new();
    // The same edge (0 -> 0) 257 times: a trace of zeros.
    let trace = vec![0u64; 257];
    o.record_remote_trace(&trace, &mut cov, &mut sig);
    assert_eq!(o.remote_len(), 257);
    assert_eq!(o.get(slot(0, 0)), 1);
}

#[test]
fn address_dropped_on_full_ring_is_queued_later() {
    let mut cov = CoverageStream::new();
    for bb in 0..65536u64 {
        assert!(coverage_ring::push_if_new(&mut cov, bb));
    }
    assert!(!coverage_ring::push_if_new(&mut cov, 70000));
    assert_eq!(coverage_ring::drain_overflow(&mut cov), 1);
    assert_eq!(coverage_ring::drain(&mut cov).len(), 65536);
    assert!(coverage_ring::push_if_new(&mut cov, 70000));
    assert!(!coverage_ring::push_if_new(&mut cov, 70000));
    assert!(!coverage_ring::push_if_new(&mut cov, 5));
    assert_eq!(coverage_ring::drain(&mut cov), vec![70000]);
}

#[test]
fn signal_dropped_on_full_ring_is_queued_later() {
    let mut sig = SignalStream::new();
    for s in 0..16384u32 {
        assert!(signal_ring::push_if_new(&mut sig, s));
    }
    assert!(!signal_ring::push_if_new(&mut sig, 20000));
    assert_eq!(signal_ring::drain_overflow(&mut sig), 1);
    assert_eq!(signal_ring::drain(&mut sig).len(), 16384);
    assert!(signal_ring::push_if_new(&mut sig, 20000));
    assert_eq!(signal_ring::drain(&mut sig), vec![20000]);
}
