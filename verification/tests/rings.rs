use almond::ring::{CoverageRing, SignalRing};

#[test]
fn test_basic_push_drain() {
    let mut ring = CoverageRing::new();

    assert!(ring.is_empty());
    assert!(ring.push(42));
    assert!(!ring.is_empty());
    assert_eq!(ring.len(), 1);

    let mut buf = Vec::new();
    ring.drain(&mut buf);
    assert_eq!(buf, vec![42]);
    assert!(ring.is_empty());
}

#[test]
fn test_fill_and_drain() {
    let mut ring = CoverageRing::new();
    let cap = ring.capacity();

    for i in 0..cap {
        assert!(ring.push(i as u64), "push failed at {i}");
    }
    assert_eq!(ring.len(), cap);
    assert!(!ring.push(0xDEAD));

    let mut buf = Vec::new();
    ring.drain(&mut buf);
    assert_eq!(buf.len(), cap);
    for (i, &v) in buf.iter().enumerate() {
        assert_eq!(v, i as u64);
    }
}

#[test]
fn test_wrap_around() {
    let mut ring = CoverageRing::new();

    for batch in 0..10 {
        let start = (batch * 1000) as u64;
        for i in 0..1000 {
            assert!(ring.push(start + i));
        }
        let mut buf = Vec::new();
        ring.drain(&mut buf);
        assert_eq!(buf.len(), 1000);
        for (i, &v) in buf.iter().enumerate() {
            assert_eq!(v, start + i as u64);
        }
    }
}

#[test]
fn test_overflow_counter() {
    let mut ring = CoverageRing::new();
    let cap = ring.capacity();

    assert_eq!(ring.drain_overflow(), 0);
    for i in 0..cap {
        assert!(ring.push(i as u64));
    }
    for _ in 0..100 {
        assert!(!ring.push(0xDEAD));
    }
    assert_eq!(ring.drain_overflow(), 100);
    assert_eq!(ring.drain_overflow(), 0);

    let mut buf = Vec::new();
    ring.drain(&mut buf);
    assert_eq!(buf.len(), cap);

    for i in 0..cap {
        assert!(ring.push(i as u64));
    }
    assert!(!ring.push(0xDEAD));
    assert!(!ring.push(0xBEEF));
    assert_eq!(ring.drain_overflow(), 2);
}

#[test]
fn test_signal_ring_overflow() {
    let mut ring = SignalRing::new();
    let cap = ring.capacity();

    for i in 0..cap {
        assert!(ring.push(i as u32));
    }
    assert!(!ring.push(0));
    assert!(!ring.push(1));
    assert!(!ring.push(2));
    assert_eq!(ring.drain_overflow(), 3);
    assert_eq!(ring.drain_overflow(), 0);
}

#[test]
fn ring_capacities_are_the_defaults() {
    assert_eq!(CoverageRing::new().capacity(), 65536);
    assert_eq!(SignalRing::new().capacity(), 16384);
}

#[test]
fn drain_replaces_buffer_in_fifo_order_across_the_wrap() {
    let mut ring = SignalRing::new();
    let cap = ring.capacity() as u32;
    for i in 0..cap - 3 {
        assert!(ring.push(i));
    }
    let mut buf = Vec::new();
    ring.drain(&mut buf);
    assert_eq!(buf.len(), (cap - 3) as usize);
    let mut out = vec![7u32];
    for i in 0..10 {
        assert!(ring.push(100 + i));
    }
    ring.drain(&mut out);
    let expected: Vec<u32> = (100..110).collect();
    assert_eq!(out, expected);
}
