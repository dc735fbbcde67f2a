use almond::ivshmem::{
    ack_caught_up, frame, le_bytes, pre_exec_write, ring_slot_writes, IvshmemConfig, RingControl,
};

#[test]
fn default_layout_fits_a_64_mib_device() {
    let cfg = IvshmemConfig::default();
    assert_eq!(cfg.slot_size, 1024 * 1024);
    assert_eq!(cfg.ring_slot_count, 62);
    assert_eq!(cfg.required_size(), 1024 * 1024 * 63 + 16);
    assert!(cfg.required_size() <= 64 * 1024 * 1024);
}

#[test]
fn frame_is_magic_length_payload() {
    let f = frame(&[0xaa, 0xbb], 16).unwrap();
    assert_eq!(f, vec![0x52, 0x49, 0x41, 0x46, 2, 0, 0, 0, 0xaa, 0xbb]);
    assert!(frame(&[0; 9], 16).is_none());
    assert!(frame(&[0; 8], 16).is_some());
    assert_eq!(le_bytes(0x0102_0304), vec![4, 3, 2, 1]);
}

#[test]
fn pre_exec_goes_to_offset_zero() {
    let cfg = IvshmemConfig { slot_size: 32, ring_slot_count: 4 };
    let w = pre_exec_write(&cfg, b"{}").unwrap();
    assert_eq!(w.offset, 0);
    assert_eq!(w.bytes.len(), 10);
    assert!(pre_exec_write(&cfg, &[0; 25]).is_none());
}

#[test]
fn ring_slot_wraps_and_bumps_index() {
    let cfg = IvshmemConfig { slot_size: 32, ring_slot_count: 4 };
    let (slot, header) = ring_slot_writes(&cfg, 5, &[1, 2, 3]).unwrap();
    assert_eq!(slot.offset, 32 + 16 + 32);
    assert_eq!(slot.bytes, vec![0x52, 0x49, 0x41, 0x46, 3, 0, 0, 0, 1, 2, 3]);
    assert_eq!(header.offset, 32);
    assert_eq!(header.bytes, vec![0x47, 0x4e, 0x49, 0x52, 6, 0, 0, 0]);
    let (_, header) = ring_slot_writes(&cfg, u32::MAX, &[1]).unwrap();
    assert_eq!(&header.bytes[4..], &[0, 0, 0, 0]);
}

#[test]
fn stop_and_drain_handshake() {
    let cfg = IvshmemConfig { slot_size: 32, ring_slot_count: 4 };
    let mut ring = RingControl::new();
    assert!(!ring.frozen());
    assert!(ring.maybe_unfreeze(&cfg, 1, 0).is_none());
    let bump = ring.freeze(&cfg, Some(7)).unwrap();
    assert_eq!(bump.offset, 40);
    assert_eq!(bump.bytes, vec![8, 0, 0, 0]);
    assert!(ring.frozen());
    // The manager has not acknowledged epoch 8 yet.
    assert!(ring.maybe_unfreeze(&cfg, 8, 7).is_none());
    assert!(ring.frozen());
    let reset = ring.maybe_unfreeze(&cfg, 8, 8).unwrap();
    assert_eq!(reset.offset, 32);
    assert_eq!(reset.bytes, vec![0x47, 0x4e, 0x49, 0x52, 0, 0, 0, 0]);
    assert!(!ring.frozen());
    assert!(ring.freeze(&cfg, None).is_none());
    assert!(ring.frozen());
}

#[test]
fn ack_comparison_wraps() {
    assert!(ack_caught_up(5, 5));
    assert!(ack_caught_up(5, 6));
    assert!(!ack_caught_up(5, 4));
    assert!(ack_caught_up(u32::MAX, 0));
    assert!(!ack_caught_up(0, u32::MAX));
}
