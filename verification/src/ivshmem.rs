//! Layout of the ivshmem region that persists inputs for crash reproduction.
//!
//! Region layout, every slot `slot_size` bytes:
//!   `[0 .. slot)`            the pre-execution input,
//!   `[slot .. slot + 16)`    the crash-ring header,
//!   `[slot + 16 .. end)`     the crash ring of `ring_slot_count` slots.
//!
//! A slot holds a frame: magic `0x46414952`, the payload length (both as
//! little-endian `u32`), then the payload. The ring header holds the ring
//! magic `0x52494E47`, the write index, the crash epoch and the ack epoch.
//!
//! Mapping the device and copying bytes into it are the caller's part; this
//! module computes what is written where, and keeps the stop-and-drain state
//! of the ring.
use vstd::prelude::*;

verus! {

/// Magic of a frame.
pub const MAGIC: u32 = 0x4641_4952;

/// Bytes of a frame header: magic and length.
pub const HEADER_SIZE: usize = 8;

/// Magic of the ring header.
pub const RING_MAGIC: u32 = 0x5249_4E47;

/// Bytes of the ring header.
pub const RING_HEADER_SIZE: usize = 16;

/// Default bytes per slot.
pub const DEFAULT_SLOT_SIZE: usize = 1048576;

/// Default number of ring slots.
pub const DEFAULT_RING_SLOT_COUNT: usize = 62;

/// The little-endian bytes of `x`.
pub open spec fn le_u32(x: u32) -> Seq<u8> {
    seq![
        (x % 256) as u8,
        ((x / 256) % 256) as u8,
        ((x / 65536) % 256) as u8,
        ((x / 16777216) % 256) as u8,
    ]
}

/// The little-endian bytes of `x`.
pub fn le_bytes(x: u32) -> (b: Vec<u8>)
    ensures
        b@ == le_u32(x),
{
    let mut b: Vec<u8> = Vec::new();
    b.push((x % 256) as u8);
    b.push(((x / 256) % 256) as u8);
    b.push(((x / 65536) % 256) as u8);
    b.push(((x / 16777216) % 256) as u8);
    assert(b@ =~= le_u32(x));
    b
}

/// The frame of `payload`: magic, length (truncated to `u32`), payload.
pub open spec fn frame_of(payload: Seq<u8>) -> Seq<u8> {
    le_u32(MAGIC) + le_u32(payload.len() as u32) + payload
}

/// Runtime-configurable layout of the region. One `slot_size` governs the
/// pre-execution slot and every ring slot, so an input fits everywhere or
/// nowhere.
#[derive(Clone, Copy, Debug)]
pub struct IvshmemConfig {
    /// Bytes per slot, frame header included.
    pub slot_size: usize,
    /// Number of slots of the crash ring.
    pub ring_slot_count: usize,
}

/// Bytes the layout needs: `slot_size * (1 + ring_slot_count) + 16`.
pub open spec fn layout_size(cfg: IvshmemConfig) -> int {
    cfg.slot_size * (1 + cfg.ring_slot_count) + RING_HEADER_SIZE
}

impl IvshmemConfig {
    /// The default layout: 1 MiB slots, 62 ring slots (for a 64 MiB device).
    pub fn default() -> (c: Self)
        ensures
            c.slot_size == DEFAULT_SLOT_SIZE,
            c.ring_slot_count == DEFAULT_RING_SLOT_COUNT,
    {
        IvshmemConfig { slot_size: DEFAULT_SLOT_SIZE, ring_slot_count: DEFAULT_RING_SLOT_COUNT }
    }

    /// Total bytes this layout requires from the region.
    pub fn required_size(&self) -> (n: usize)
        requires
            self.ring_slot_count < usize::MAX,
            layout_size(*self) <= usize::MAX,
        ensures
            n == layout_size(*self),
    {
        assert(self.slot_size * (1 + self.ring_slot_count) <= layout_size(*self)) by (nonlinear_arith)
            requires
                layout_size(*self) == self.slot_size * (1 + self.ring_slot_count) + RING_HEADER_SIZE,
        ;
        self.slot_size * (1 + self.ring_slot_count) + RING_HEADER_SIZE
    }
}

/// Bytes to copy into the region at an offset.
pub struct RegionWrite {
    /// Offset from the start of the region.
    pub offset: usize,
    /// The bytes.
    pub bytes: Vec<u8>,
}

/// The frame of `payload`, when it fits a slot of `slot_size` bytes.
pub fn frame(payload: &[u8], slot_size: usize) -> (f: Option<Vec<u8>>)
    requires
        payload@.len() + HEADER_SIZE <= usize::MAX,
    ensures
        (payload@.len() + HEADER_SIZE > slot_size) ==> f is None,
        (payload@.len() + HEADER_SIZE <= slot_size) ==> (f matches Some(v) && v@ == frame_of(
            payload@,
        )),
{
    let total = HEADER_SIZE + payload.len();
    if total > slot_size {
        return None;
    }
    let mut v = le_bytes(MAGIC);
    let mut len_bytes = le_bytes(#[verifier::truncate] (payload.len() as u32));
    v.append(&mut len_bytes);
    let ghost head = v@;
    let mut i: usize = 0;
    while i < payload.len()
        invariant
            0 <= i <= payload@.len(),
            v@ == head + payload@.subrange(0, i as int),
        decreases payload@.len() - i,
    {
        v.push(payload[i]);
        i = i + 1;
        assert(v@ =~= head + payload@.subrange(0, i as int));
    }
    assert(payload@.subrange(0, payload@.len() as int) =~= payload@);
    assert(v@ =~= frame_of(payload@));
    Some(v)
}

/// The write of the pre-execution slot: the frame of `payload` at offset 0,
/// or nothing when it does not fit a slot.
pub fn pre_exec_write(cfg: &IvshmemConfig, payload: &[u8]) -> (w: Option<RegionWrite>)
    requires
        payload@.len() + HEADER_SIZE <= usize::MAX,
    ensures
        (payload@.len() + HEADER_SIZE > cfg.slot_size) ==> w is None,
        (payload@.len() + HEADER_SIZE <= cfg.slot_size) ==> (w matches Some(x) && x.offset == 0
            && x.bytes@ == frame_of(payload@)),
{
    match frame(payload, cfg.slot_size) {
        None => None,
        Some(bytes) => Some(RegionWrite { offset: 0, bytes }),
    }
}

/// Offset of ring slot `write_idx mod ring_slot_count`.
pub open spec fn ring_slot_offset(cfg: IvshmemConfig, write_idx: u32) -> int {
    cfg.slot_size + RING_HEADER_SIZE + (write_idx as int % cfg.ring_slot_count as int)
        * cfg.slot_size
}

/// The two writes that append `payload` to the crash ring at write index
/// `write_idx`: its frame into slot `write_idx mod ring_slot_count`, then the
/// ring header's magic and incremented (wrapping) write index. Nothing when
/// the frame does not fit a slot.
pub fn ring_slot_writes(cfg: &IvshmemConfig, write_idx: u32, payload: &[u8]) -> (w: Option<
    (RegionWrite, RegionWrite),
>)
    requires
        cfg.ring_slot_count > 0,
        layout_size(*cfg) <= usize::MAX,
        payload@.len() + HEADER_SIZE <= usize::MAX,
    ensures
        (payload@.len() + HEADER_SIZE > cfg.slot_size) ==> w is None,
        (payload@.len() + HEADER_SIZE <= cfg.slot_size) ==> (w matches Some(x) && {
            &&& x.0.offset == ring_slot_offset(*cfg, write_idx)
            &&& x.0.bytes@ == frame_of(payload@)
            &&& x.1.offset == cfg.slot_size
            &&& x.1.bytes@ == le_u32(RING_MAGIC) + le_u32(write_idx.wrapping_add(1))
        }),
{
    let bytes = match frame(payload, cfg.slot_size) {
        None => {
            return None;
        },
        Some(b) => b,
    };
    let slot = (write_idx as usize) % cfg.ring_slot_count;
    proof {
        let s = cfg.slot_size as int;
        let c = cfg.ring_slot_count as int;
        assert(slot * s + s <= c * s) by (nonlinear_arith)
            requires
                0 <= slot < c,
                s >= 0,
        ;
        assert(c * s + s == s * (1 + c)) by (nonlinear_arith);
    }
    let offset = cfg.slot_size + RING_HEADER_SIZE + slot * cfg.slot_size;
    let mut header = le_bytes(RING_MAGIC);
    let mut idx_bytes = le_bytes(write_idx.wrapping_add(1));
    header.append(&mut idx_bytes);
    Some((RegionWrite { offset, bytes }, RegionWrite { offset: cfg.slot_size, bytes: header }))
}

/// Where the crash ring puts the input of each write index: write index 0
/// in the first slot, right after the ring header; each next write index in
/// the next slot, and after the last slot back in the first; so two write
/// indices share a slot exactly when they are congruent modulo the number of
/// slots, and every slot lies within the layout, after the header.
pub proof fn law_ring_slot_placement(cfg: IvshmemConfig, i: u32, j: u32)
    requires
        cfg.ring_slot_count > 0,
        cfg.slot_size > 0,
    ensures
        ring_slot_offset(cfg, 0) == cfg.slot_size + RING_HEADER_SIZE,
        i < u32::MAX && (i + 1) % (cfg.ring_slot_count as int) != 0 ==> ring_slot_offset(
            cfg,
            (i + 1) as u32,
        ) == ring_slot_offset(cfg, i) + cfg.slot_size,
        i < u32::MAX && (i + 1) % (cfg.ring_slot_count as int) == 0 ==> ring_slot_offset(
            cfg,
            (i + 1) as u32,
        ) == ring_slot_offset(cfg, 0),
        (ring_slot_offset(cfg, i) == ring_slot_offset(cfg, j)) <==> (i as int % (
        cfg.ring_slot_count as int) == j as int % (cfg.ring_slot_count as int)),
        cfg.slot_size + RING_HEADER_SIZE <= ring_slot_offset(cfg, i),
        ring_slot_offset(cfg, i) + cfg.slot_size <= layout_size(cfg),
{
    let c = cfg.ring_slot_count as int;
    let s = cfg.slot_size as int;
    let a = i as int % c;
    let b = j as int % c;
    assert(0 <= a < c && 0 <= b < c);
    assert(0int % c == 0) by {
        vstd::arithmetic::div_mod::lemma_fundamental_div_mod_converse(0, c, 0, 0);
    }
    assert(0 * s == 0);
    assert((a == b) <==> (a * s == b * s)) by (nonlinear_arith)
        requires
            s > 0,
    ;
    assert(0 <= a * s) by (nonlinear_arith)
        requires
            s > 0,
            a >= 0,
    ;
    assert(a * s + s <= c * s) by (nonlinear_arith)
        requires
            s > 0,
            0 <= a < c,
    ;
    assert(c * s + s == s * (1 + c)) by (nonlinear_arith);
    if i < u32::MAX {
        let n = i as int + 1;
        let q = i as int / c;
        assert(i as int == q * c + a) by {
            vstd::arithmetic::div_mod::lemma_fundamental_div_mod(i as int, c);
            assert(c * q == q * c) by (nonlinear_arith);
        }
        if a + 1 < c {
            vstd::arithmetic::div_mod::lemma_fundamental_div_mod_converse(n, c, q, a + 1);
        } else {
            assert(n == (q + 1) * c + 0) by (nonlinear_arith)
                requires
                    n == q * c + a + 1,
                    a + 1 == c,
            ;
            vstd::arithmetic::div_mod::lemma_fundamental_div_mod_converse(n, c, q + 1, 0);
        }
        if n % c != 0 {
            assert((a + 1) * s == a * s + s) by (nonlinear_arith);
        }
    }
}

/// Whether the manager has acknowledged the crash epoch: the ack epoch has
/// caught up with it, compared on the wrapping `u32` circle.
pub fn ack_caught_up(crash_epoch: u32, ack_epoch: u32) -> (b: bool)
    ensures
        b == (ack_epoch.wrapping_sub(crash_epoch) <= u32::MAX / 2),
{
    ack_epoch.wrapping_sub(crash_epoch) <= u32::MAX / 2
}

/// The stop-and-drain state of the crash ring.
pub struct RingControl {
    frozen: bool,
}

impl RingControl {
    /// Whether the ring is frozen (no appends until the manager acks).
    pub closed spec fn is_frozen(&self) -> bool {
        self.frozen
    }

    /// An unfrozen ring.
    pub fn new() -> (r: Self)
        ensures
            !r.is_frozen(),
    {
        RingControl { frozen: false }
    }

    /// Whether appends are suspended.
    pub fn frozen(&self) -> (b: bool)
        ensures
            b == self.is_frozen(),
    {
        self.frozen
    }

    /// Freezes the ring after a crash, given the crash epoch read from the
    /// ring header (when the region exists); returns the header write of the
    /// bumped (wrapping) crash epoch at bytes 8..12 of the header.
    pub fn freeze(&mut self, cfg: &IvshmemConfig, crash_epoch: Option<u32>) -> (w: Option<RegionWrite>)
        requires
            cfg.slot_size + 8 <= usize::MAX,
        ensures
            final(self).is_frozen(),
            crash_epoch is None ==> w is None,
            crash_epoch matches Some(e) ==> (w matches Some(x) && x.offset == cfg.slot_size + 8
                && x.bytes@ == le_u32(e.wrapping_add(1))),
    {
        let w = match crash_epoch {
            None => None,
            Some(e) => Some(RegionWrite { offset: cfg.slot_size + 8, bytes: le_bytes(e.wrapping_add(1)) }),
        };
        self.frozen = true;
        w
    }

    /// Before a ring append: when frozen and the manager has acknowledged
    /// the crash epoch, unfreezes and returns the header write that resets
    /// the write index (ring magic, then index 0). Otherwise changes nothing.
    pub fn maybe_unfreeze(&mut self, cfg: &IvshmemConfig, crash_epoch: u32, ack_epoch: u32) -> (w:
        Option<RegionWrite>)
        ensures
            (old(self).is_frozen() && ack_epoch.wrapping_sub(crash_epoch) <= u32::MAX / 2) ==> (
            !final(self).is_frozen() && (w matches Some(x) && x.offset == cfg.slot_size
                && x.bytes@ == le_u32(RING_MAGIC) + le_u32(0))),
            !(old(self).is_frozen() && ack_epoch.wrapping_sub(crash_epoch) <= u32::MAX / 2) ==> (
            final(self).is_frozen() == old(self).is_frozen() && w is None),
    {
        if !self.frozen {
            return None;
        }
        if ack_caught_up(crash_epoch, ack_epoch) {
            let mut header = le_bytes(RING_MAGIC);
            let mut zero = le_bytes(0);
            header.append(&mut zero);
            self.frozen = false;
            Some(RegionWrite { offset: cfg.slot_size, bytes: header })
        } else {
            None
        }
    }
}

/// The stop-and-drain handshake: after a freeze bumps the crash epoch from
/// `e` to `e + 1` (wrapping), the manager's acknowledgement of the new epoch
/// lets the ring resume, while an acknowledgement still at the old epoch
/// keeps it frozen — across the wrap of the `u32` counter too.
pub proof fn law_ack_of_bumped_epoch(e: u32)
    ensures
        e.wrapping_add(1).wrapping_sub(e.wrapping_add(1)) <= u32::MAX / 2,
        !(e.wrapping_sub(e.wrapping_add(1)) <= u32::MAX / 2),
{
    assert(e.wrapping_add(1).wrapping_sub(e.wrapping_add(1)) == 0) by (bit_vector);
    assert(e.wrapping_sub(e.wrapping_add(1)) == u32::MAX) by (bit_vector);
}

} // verus!
