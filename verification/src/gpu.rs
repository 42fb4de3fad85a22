//! The handoff of a triple-buffered GPU region between a producer and a
//! consumer: which slot each side uses, and what the header records.

use vstd::prelude::*;

verus! {

/// Bytes of the header in front of the slots.
pub const GPU_HEADER_SIZE: u64 = 64;

/// Slots in the handoff ring.
pub const GPU_SLOTS: u64 = 3;

/// The header of a shared GPU region: for each of the three slots whether
/// a frame is ready in it and which frame, the consumer's and the
/// producer's counters, and the size of a slot.
#[derive(Debug, Clone, Copy)]
pub struct SharedGpuBufferHeader {
    pub write_ready: [bool; 3],
    pub frames: [u64; 3],
    pub read_slot: u64,
    pub write_slot: u64,
    pub size: u64,
}

impl SharedGpuBufferHeader {
    /// A fresh header: nothing ready, counters at zero.
    pub fn new(size: u64) -> (h: Self)
        ensures
            h.write_ready@ == seq![false, false, false],
            h.frames@ == seq![0u64, 0, 0],
            h.read_slot == 0,
            h.write_slot == 0,
            h.size == size,
    {
        let h = SharedGpuBufferHeader {
            write_ready: [false, false, false],
            frames: [0, 0, 0],
            read_slot: 0,
            write_slot: 0,
            size,
        };
        proof {
            assert(h.write_ready@ =~= seq![false, false, false]);
            assert(h.frames@ =~= seq![0u64, 0, 0]);
        }
        h
    }

    /// The slot the producer's next write goes to; the counter moves on.
    /// The producer may use it once the slot is no longer marked ready.
    pub fn next_write_slot(&mut self) -> (slot: u64)
        ensures
            slot == old(self).write_slot % GPU_SLOTS,
            final(self).write_slot == (if old(self).write_slot == u64::MAX { 0 } else { old(self).write_slot + 1 }),
            final(self).write_ready == old(self).write_ready,
            final(self).frames == old(self).frames,
            final(self).read_slot == old(self).read_slot,
            final(self).size == old(self).size,
    {
        let slot = self.write_slot % GPU_SLOTS;
        self.write_slot = self.write_slot.wrapping_add(1);
        slot
    }

    /// Whether `slot` is free for the producer.
    pub fn slot_free(&self, slot: u64) -> (b: bool)
        requires
            slot < GPU_SLOTS,
        ensures
            b == !self.write_ready@[slot as int],
    {
        !self.write_ready[slot as usize]
    }

    /// The producer publishes `frame` in `slot`.
    pub fn end_write(&mut self, slot: u64, frame: u64)
        requires
            slot < GPU_SLOTS,
        ensures
            final(self).write_ready@ == old(self).write_ready@.update(slot as int, true),
            final(self).frames@ == old(self).frames@.update(slot as int, frame),
            final(self).read_slot == old(self).read_slot,
            final(self).write_slot == old(self).write_slot,
            final(self).size == old(self).size,
    {
        self.frames[slot as usize] = frame;
        self.write_ready[slot as usize] = true;
    }

    /// A write the producer abandons frees its slot.
    pub fn abandon_write(&mut self, slot: u64)
        requires
            slot < GPU_SLOTS,
        ensures
            final(self).write_ready@ == old(self).write_ready@.update(slot as int, false),
            final(self).frames == old(self).frames,
            final(self).read_slot == old(self).read_slot,
            final(self).write_slot == old(self).write_slot,
            final(self).size == old(self).size,
    {
        self.write_ready[slot as usize] = false;
    }

    /// The slot the consumer reads: the first ready one, looking from its
    /// counter onwards around the three slots.
    pub open spec fn spec_read_slot(&self) -> Option<u64> {
        let c = self.read_slot;
        if self.write_ready@[(c % 3) as int] {
            Some((c % 3) as u64)
        } else if self.write_ready@[((c + 1) % 3) as int] {
            Some(((c + 1) % 3) as u64)
        } else if self.write_ready@[((c + 2) % 3) as int] {
            Some(((c + 2) % 3) as u64)
        } else {
            None
        }
    }

    /// The slot and frame the consumer reads next, if any is ready.
    pub fn begin_read(&self) -> (r: Option<(u64, u64)>)
        ensures
            match self.spec_read_slot() {
                Some(s) => r == Some((s, self.frames@[s as int])),
                None => r is None,
            },
    {
        let c = self.read_slot;
        let s0 = c % 3;
        let s1 = (s0 + 1) % 3;
        let s2 = (s0 + 2) % 3;
        assert(s1 == (c as int + 1) % 3 && s2 == (c as int + 2) % 3) by (nonlinear_arith)
            requires
                s0 == c % 3,
                s1 == (s0 + 1) % 3,
                s2 == (s0 + 2) % 3,
        {
            vstd::arithmetic::div_mod::lemma_add_mod_noop(c as int, 1, 3);
            vstd::arithmetic::div_mod::lemma_add_mod_noop(c as int, 2, 3);
        }
        if self.write_ready[s0 as usize] {
            Some((s0, self.frames[s0 as usize]))
        } else if self.write_ready[s1 as usize] {
            Some((s1, self.frames[s1 as usize]))
        } else if self.write_ready[s2 as usize] {
            Some((s2, self.frames[s2 as usize]))
        } else {
            None
        }
    }

    /// The consumer is done with `slot`: it is free again and the
    /// consumer's counter moves on.
    pub fn end_read(&mut self, slot: u64)
        requires
            slot < GPU_SLOTS,
        ensures
            final(self).write_ready@ == old(self).write_ready@.update(slot as int, false),
            final(self).read_slot == (if old(self).read_slot == u64::MAX { 0 } else { old(self).read_slot + 1 }),
            final(self).frames == old(self).frames,
            final(self).write_slot == old(self).write_slot,
            final(self).size == old(self).size,
    {
        self.write_ready[slot as usize] = false;
        self.read_slot = self.read_slot.wrapping_add(1);
    }
}

/// A frame the producer publishes in a slot while the other slots are
/// free is the frame the consumer reads next: `after` is the header once
/// `end_write(slot, frame)` ran on `before`.
pub proof fn lemma_published_frame_is_read(
    before: SharedGpuBufferHeader,
    after: SharedGpuBufferHeader,
    slot: u64,
    frame: u64,
)
    requires
        slot < GPU_SLOTS,
        forall|k: int| 0 <= k < 3 && k != slot ==> !before.write_ready@[k],
        after.write_ready@ == before.write_ready@.update(slot as int, true),
        after.frames@ == before.frames@.update(slot as int, frame),
        after.read_slot == before.read_slot,
    ensures
        after.spec_read_slot() == Some(slot),
        after.frames@[slot as int] == frame,
{
    let c = after.read_slot;
    assert(c % 3 < 3);
    assert((c + 1) % 3 < 3);
    assert((c + 2) % 3 < 3);
    assert(slot == c % 3 || slot == (c + 1) % 3 || slot == (c + 2) % 3);
}

/// Bytes of a region with `slot_count` slots of `size` bytes behind the
/// header. Every slot of the handoff ring must fit, so a region holds at
/// least `GPU_SLOTS` slots.
pub fn region_size(size: u64, slot_count: u64) -> (r: u64)
    requires
        slot_count >= GPU_SLOTS,
        GPU_HEADER_SIZE + size * slot_count <= u64::MAX,
    ensures
        r == GPU_HEADER_SIZE + size * slot_count,
        forall|slot: u64| slot < GPU_SLOTS ==> GPU_HEADER_SIZE + #[trigger] (slot * size) + size <= r,
{
    assert forall|slot: u64| slot < GPU_SLOTS implies GPU_HEADER_SIZE + #[trigger] (slot * size) + size
        <= GPU_HEADER_SIZE + size * slot_count by {
        assert(slot * size + size <= size * slot_count) by (nonlinear_arith)
            requires
                slot < 3,
                slot_count >= 3,
        ;
    }
    GPU_HEADER_SIZE + size * slot_count
}

/// Where slot `slot` starts, counted from the end of the header.
pub fn slot_offset(slot: u64, size: u64) -> (r: u64)
    requires
        slot < GPU_SLOTS,
        slot * size <= u64::MAX,
    ensures
        r == slot * size,
{
    slot * size
}

} // verus!
