//! The discipline of the shared memory ring: how a writer claims a slot,
//! where a reader finds the next message, and how much it releases.
//!
//! Positions grow without bound; a position's place in the data region is
//! the position modulo the capacity. Every slot is a 64-byte header followed
//! by the payload rounded up to 16 bytes. A slot that does not fit before the
//! end of the region starts over at offset 0; the writer then marks the
//! skipped tail with a sentinel word so the reader knows to skip it too.

use vstd::prelude::*;
use crate::error::CellError;

verus! {

/// Size of a slot header.
pub const HEADER_SIZE: u64 = 64;
/// Payloads are padded to multiples of this.
pub const ALIGNMENT: u64 = 16;
/// Largest payload a single slot may carry (16 MiB).
pub const MAX_ALLOC_SIZE: u64 = 16777216;
/// The word that marks a skipped tail of the region.
pub const PADDING_SENTINEL: u32 = 0xFFFF_FFFF;
/// Bytes reserved in front of the data region for the control block.
pub const DATA_OFFSET: u64 = 128;

/// `n` rounded up to a multiple of 16.
pub open spec fn align_up(n: int) -> int {
    ((n + 15) / 16) * 16
}

pub fn align16(n: u64) -> (r: u64)
    requires
        n <= u64::MAX - 15,
    ensures
        r == align_up(n as int),
{
    (n + 15) / 16 * 16
}

/// The bytes a slot for an `n`-byte payload occupies.
pub open spec fn slot_size(n: int) -> int {
    HEADER_SIZE + align_up(n)
}

/// Where a claimed slot lies.
#[derive(Debug, Clone, Copy, PartialEq, Eq, Structural)]
pub struct AllocPlan {
    /// Offset of the slot header in the data region
    pub offset: u64,
    /// Bytes skipped at the end of the region (0 when the slot fits)
    pub wrap_padding: u64,
    /// The write position after the claim
    pub new_write: u64,
    /// The position readers will see as the slot's epoch
    pub epoch_claim: u64,
}

/// A ring state: the reader never passes the writer, and at most a
/// capacity's worth of bytes is outstanding.
pub open spec fn ring_positions_ok(write: u64, read: u64, capacity: u64) -> bool {
    &&& capacity > 0
    &&& read <= write
    &&& write - read <= capacity
}

/// Positions low enough that no claim can overflow them.
pub open spec fn positions_bounded(write: u64, capacity: u64) -> bool {
    write + capacity + HEADER_SIZE + MAX_ALLOC_SIZE + ALIGNMENT <= u64::MAX
}

/// The claim for a payload of `size` bytes at write position `write`, with
/// `read` the reader's position: none when the payload is too large or the
/// ring lacks room (counting the skipped tail when the slot must wrap).
pub open spec fn spec_plan_alloc(write: u64, read: u64, capacity: u64, size: u64) -> Option<AllocPlan> {
    if size > MAX_ALLOC_SIZE {
        None
    } else {
        let total = slot_size(size as int);
        let used = write - read;
        if used + total > capacity {
            None
        } else {
            let write_idx = write % capacity;
            let space_at_end = capacity - write_idx;
            if space_at_end >= total {
                Some(AllocPlan {
                    offset: write_idx as u64,
                    wrap_padding: 0,
                    new_write: (write + total) as u64,
                    epoch_claim: write,
                })
            } else if used + space_at_end + total > capacity {
                None
            } else {
                Some(AllocPlan {
                    offset: 0,
                    wrap_padding: space_at_end as u64,
                    new_write: (write + space_at_end + total) as u64,
                    epoch_claim: (write + space_at_end) as u64,
                })
            }
        }
    }
}

pub fn plan_alloc(write: u64, read: u64, capacity: u64, size: u64) -> (r: Option<AllocPlan>)
    requires
        ring_positions_ok(write, read, capacity),
        positions_bounded(write, capacity),
    ensures
        r == spec_plan_alloc(write, read, capacity, size),
{
    if size > MAX_ALLOC_SIZE {
        return None;
    }
    let total = HEADER_SIZE + align16(size);
    let used = write - read;
    if used + total > capacity {
        return None;
    }
    let write_idx = write % capacity;
    let space_at_end = capacity - write_idx;
    if space_at_end >= total {
        Some(AllocPlan { offset: write_idx, wrap_padding: 0, new_write: write + total, epoch_claim: write })
    } else if used + space_at_end + total > capacity {
        None
    } else {
        Some(AllocPlan {
            offset: 0,
            wrap_padding: space_at_end,
            new_write: write + space_at_end + total,
            epoch_claim: write + space_at_end,
        })
    }
}

/// Whether the writer marks the skipped tail with the sentinel word (only
/// when there is room for the word).
pub open spec fn writes_sentinel(plan: AllocPlan) -> bool {
    plan.wrap_padding > 0 && plan.wrap_padding >= 4
}

/// Where the reader finds the slot at read position `read`, given the word
/// stored at that position.
#[derive(Debug, Clone, Copy, PartialEq, Eq, Structural)]
pub struct ReadPlan {
    /// Offset of the slot header in the data region
    pub header_at: u64,
    /// Offset of the payload
    pub data_at: u64,
    /// Bytes released before the payload (skipped tail and header)
    pub skip: u64,
    /// The epoch a ready slot carries
    pub expected_epoch: u64,
}

pub open spec fn spec_plan_read(read: u64, capacity: u64, first_word: u32) -> ReadPlan {
    let read_idx = read % capacity;
    if first_word == PADDING_SENTINEL {
        ReadPlan {
            header_at: 0,
            data_at: HEADER_SIZE,
            skip: (capacity - read_idx + HEADER_SIZE) as u64,
            expected_epoch: (read + (capacity - read_idx)) as u64,
        }
    } else {
        ReadPlan {
            header_at: read_idx as u64,
            data_at: (read_idx + HEADER_SIZE) as u64,
            skip: HEADER_SIZE,
            expected_epoch: read,
        }
    }
}

pub fn plan_read(read: u64, capacity: u64, first_word: u32) -> (r: ReadPlan)
    requires
        capacity > 0,
        capacity + HEADER_SIZE <= u64::MAX,
        read + capacity <= u64::MAX,
    ensures
        r == spec_plan_read(read, capacity, first_word),
{
    let read_idx = read % capacity;
    if first_word == PADDING_SENTINEL {
        ReadPlan {
            header_at: 0,
            data_at: HEADER_SIZE,
            skip: capacity - read_idx + HEADER_SIZE,
            expected_epoch: read + (capacity - read_idx),
        }
    } else {
        ReadPlan {
            header_at: read_idx,
            data_at: read_idx + HEADER_SIZE,
            skip: HEADER_SIZE,
            expected_epoch: read,
        }
    }
}

/// What the reader does with the slot it found.
#[derive(Debug, Clone, Copy, PartialEq, Eq, Structural)]
pub enum ReadDecision {
    /// No message is waiting
    Empty,
    /// The slot is claimed but not yet committed
    NotReady,
    /// Another reader holds the slot
    Busy,
    /// Take the `len`-byte payload; releasing it frees `consumed` bytes.
    /// `reclaimed` tells whether a dead owner's hold was cleared first.
    Take { len: u32, consumed: u64, reclaimed: bool },
}

/// The reader's decision, from the header it found: the slot must carry the
/// expected epoch and a committed length; a hold by a dead owner is
/// cleared; a slot still held is left alone.
pub open spec fn spec_read_decision(
    read: u64,
    write: u64,
    plan: ReadPlan,
    epoch: u64,
    len: u32,
    refcount: u32,
    owner_pid: u32,
    owner_alive: bool,
) -> ReadDecision {
    if read == write {
        ReadDecision::Empty
    } else if epoch != plan.expected_epoch || len == 0 {
        ReadDecision::NotReady
    } else {
        let reclaimed = owner_pid > 0 && !owner_alive;
        let rc = if reclaimed { 0 } else { refcount };
        if rc != 0 {
            ReadDecision::Busy
        } else {
            ReadDecision::Take {
                len,
                consumed: (plan.skip + align_up(len as int)) as u64,
                reclaimed,
            }
        }
    }
}

pub fn read_decision(
    read: u64,
    write: u64,
    plan: &ReadPlan,
    epoch: u64,
    len: u32,
    refcount: u32,
    owner_pid: u32,
    owner_alive: bool,
) -> (d: ReadDecision)
    requires
        plan.skip + u32::MAX + 16 <= u64::MAX,
    ensures
        d == spec_read_decision(read, write, *plan, epoch, len, refcount, owner_pid, owner_alive),
{
    if read == write {
        return ReadDecision::Empty;
    }
    if epoch != plan.expected_epoch || len == 0 {
        return ReadDecision::NotReady;
    }
    let reclaimed = owner_pid > 0 && !owner_alive;
    let rc = if reclaimed { 0 } else { refcount };
    if rc != 0 {
        ReadDecision::Busy
    } else {
        ReadDecision::Take { len, consumed: plan.skip + align16(len as u64), reclaimed }
    }
}

/// A slot held by a live reader is never handed to another.
pub proof fn lemma_held_slot_not_taken(
    read: u64,
    write: u64,
    plan: ReadPlan,
    epoch: u64,
    len: u32,
    refcount: u32,
    owner_pid: u32,
    owner_alive: bool,
)
    requires
        refcount != 0,
        owner_pid == 0 || owner_alive,
    ensures
        !(spec_read_decision(read, write, plan, epoch, len, refcount, owner_pid, owner_alive) is Take),
{
}

/// A message is delivered once: after the reader takes a slot and moves on
/// by the bytes it frees, the header it took, still stamped with its epoch,
/// is never taken again, whatever the reader finds at its new position.
pub proof fn lemma_no_redelivery(
    read: u64,
    write: u64,
    capacity: u64,
    first_word: u32,
    epoch: u64,
    len: u32,
    refcount: u32,
    owner_pid: u32,
    owner_alive: bool,
    next_read: u64,
    next_first_word: u32,
    len2: u32,
    refcount2: u32,
    owner_pid2: u32,
    owner_alive2: bool,
)
    requires
        capacity > 0,
        read + 2 * capacity + 2 * HEADER_SIZE + 2 * (u32::MAX + 16) <= u64::MAX,
        spec_read_decision(
            read,
            write,
            spec_plan_read(read, capacity, first_word),
            epoch,
            len,
            refcount,
            owner_pid,
            owner_alive,
        ) matches ReadDecision::Take { consumed, .. } && next_read == read + consumed,
    ensures
        !(spec_read_decision(
            next_read,
            write,
            spec_plan_read(next_read, capacity, next_first_word),
            epoch,
            len2,
            refcount2,
            owner_pid2,
            owner_alive2,
        ) is Take),
{
    let plan = spec_plan_read(read, capacity, first_word);
    assert(align_up(len as int) >= 0) by (nonlinear_arith)
        requires
            align_up(len as int) == ((len + 15) / 16) * 16,
            len >= 0,
    ;
    assert(plan.skip >= plan.expected_epoch - read + HEADER_SIZE);
    assert(next_read > epoch);
}

/// The word a reader finds at the start of a freshly claimed slot: the
/// sentinel when the slot wrapped (and the tail had room for it), otherwise
/// the header's hold count, which a claim resets to zero.
pub open spec fn first_word_after_claim(plan: AllocPlan) -> u32 {
    if writes_sentinel(plan) { PADDING_SENTINEL } else { 0 }
}

/// On the 16-byte grid: a rounded-up payload size, and the index of an
/// aligned position in a ring whose capacity is aligned.
proof fn lemma_grid(write: u64, capacity: u64, size: u64)
    requires
        capacity > 0,
        capacity % ALIGNMENT == 0,
        write % ALIGNMENT == 0,
    ensures
        align_up(size as int) % 16 == 0,
        (write % capacity) % 16 == 0,
{
    let write_idx = write % capacity;
    assert(align_up(size as int) % 16 == 0) by (nonlinear_arith)
        requires
            align_up(size as int) == ((size + 15) / 16) * 16,
    ;
    assert(write_idx % 16 == 0) by (nonlinear_arith)
        requires
            capacity % 16 == 0,
            write % 16 == 0,
            write_idx == write % capacity,
            capacity > 0,
    {
        assert(write == (write / capacity) * capacity + write_idx);
        let q = capacity / 16;
        assert(capacity == q * 16);
        assert(write_idx == write - (write / capacity) * (q * 16));
        assert((write / capacity) * (q * 16) == ((write / capacity) * q) * 16);
    }
}

/// The bytes a reader releases for a committed slot are the bytes the
/// writer's claim reserved, and the reader looks for the header where the
/// writer put it, with the epoch the writer stamped: when the reader has
/// caught up with the writer (`read == write`) and the payload committed is
/// the one claimed.
pub proof fn lemma_read_matches_claim(write: u64, capacity: u64, size: u64)
    requires
        ring_positions_ok(write, write, capacity),
        positions_bounded(write, capacity),
        capacity % ALIGNMENT == 0,
        write % ALIGNMENT == 0,
        spec_plan_alloc(write, write, capacity, size) is Some,
    ensures
        ({
            let p = spec_plan_alloc(write, write, capacity, size)->0;
            let rp = spec_plan_read(write, capacity, first_word_after_claim(p));
            &&& rp.header_at == p.offset
            &&& rp.expected_epoch == p.epoch_claim
            &&& rp.data_at == p.offset + HEADER_SIZE
            &&& rp.skip + align_up(size as int) == p.new_write - write
        }),
{
    let p = spec_plan_alloc(write, write, capacity, size)->0;
    let total = slot_size(size as int);
    let write_idx = write % capacity;
    lemma_grid(write, capacity, size);
    if p.wrap_padding > 0 {
        // the tail is a positive multiple of 16, hence holds the sentinel
        assert((capacity - write_idx) % 16 == 0);
        assert(p.wrap_padding >= 4);
    }
}

/// Releasing a slot never lets the reader pass the writer, and a claim
/// keeps at most a capacity's worth of bytes outstanding.
pub proof fn lemma_claim_keeps_positions(write: u64, read: u64, capacity: u64, size: u64)
    requires
        ring_positions_ok(write, read, capacity),
        positions_bounded(write, capacity),
        spec_plan_alloc(write, read, capacity, size) is Some,
    ensures
        ring_positions_ok(spec_plan_alloc(write, read, capacity, size)->0.new_write, read, capacity),
        spec_plan_alloc(write, read, capacity, size)->0.offset + slot_size(size as int) <= capacity,
{
}

/// The claims a writer at `write` makes for payloads of `sizes`, one after
/// the other, while the reader stays at `read`: none when one of them does
/// not fit.
pub open spec fn claim_all(write: u64, read: u64, capacity: u64, sizes: Seq<u64>) -> Option<Seq<AllocPlan>>
    decreases sizes.len(),
{
    if sizes.len() == 0 {
        Some(Seq::empty())
    } else {
        match spec_plan_alloc(write, read, capacity, sizes[0]) {
            None => None,
            Some(p) => match claim_all(p.new_write, read, capacity, sizes.drop_first()) {
                None => None,
                Some(rest) => Some(seq![p] + rest),
            },
        }
    }
}

/// Where the reader stands before slot `k` of `plans`, having started at
/// `write`.
pub open spec fn reader_position(write: u64, plans: Seq<AllocPlan>, k: int) -> u64 {
    if k == 0 { write } else { plans[k - 1].new_write }
}

/// A claim's outcome does not depend on where the reader stands, as long
/// as the slot fits.
proof fn lemma_claim_ignores_reader(write: u64, read: u64, read2: u64, capacity: u64, size: u64)
    requires
        ring_positions_ok(write, read, capacity),
        read <= read2 <= write,
        spec_plan_alloc(write, read, capacity, size) is Some,
    ensures
        spec_plan_alloc(write, read2, capacity, size) == spec_plan_alloc(write, read, capacity, size),
{
}

/// Every claim keeps positions on the 16-byte grid.
proof fn lemma_claim_aligned(write: u64, read: u64, capacity: u64, size: u64)
    requires
        ring_positions_ok(write, read, capacity),
        positions_bounded(write, capacity),
        capacity % ALIGNMENT == 0,
        write % ALIGNMENT == 0,
        spec_plan_alloc(write, read, capacity, size) is Some,
    ensures
        spec_plan_alloc(write, read, capacity, size)->0.new_write % ALIGNMENT == 0,
{
    lemma_grid(write, capacity, size);
}

/// Messages come out of the ring in the order they went in, each where it
/// was put: after a writer that the reader had caught up with claims slots
/// for `sizes` one after the other, the reader, moving from slot to slot by
/// the bytes each release frees, finds every slot at the offset the writer
/// chose, with the epoch the writer stamped, and ends where the writer did.
pub proof fn lemma_reader_follows_writer(write: u64, capacity: u64, sizes: Seq<u64>)
    requires
        ring_positions_ok(write, write, capacity),
        positions_bounded((write + capacity) as u64, capacity),
        write + capacity <= u64::MAX,
        capacity % ALIGNMENT == 0,
        write % ALIGNMENT == 0,
        claim_all(write, write, capacity, sizes) is Some,
    ensures
        ({
            let plans = claim_all(write, write, capacity, sizes)->0;
            &&& plans.len() == sizes.len()
            &&& forall|k: int| 0 <= k < sizes.len() ==> {
                let pos = reader_position(write, plans, k);
                let rp = spec_plan_read(pos, capacity, first_word_after_claim(#[trigger] plans[k]));
                &&& rp.header_at == plans[k].offset
                &&& rp.expected_epoch == plans[k].epoch_claim
                &&& rp.data_at == plans[k].offset + HEADER_SIZE
                &&& pos + rp.skip + align_up(sizes[k] as int) == plans[k].new_write
            }
        }),
{
    lemma_follow_from(write, write, capacity, sizes);
}

proof fn lemma_follow_from(write: u64, read: u64, capacity: u64, sizes: Seq<u64>)
    requires
        ring_positions_ok(write, read, capacity),
        positions_bounded((read + capacity) as u64, capacity),
        read + capacity <= u64::MAX,
        capacity % ALIGNMENT == 0,
        write % ALIGNMENT == 0,
        claim_all(write, read, capacity, sizes) is Some,
    ensures
        ({
            let plans = claim_all(write, read, capacity, sizes)->0;
            &&& plans.len() == sizes.len()
            &&& forall|k: int| 0 <= k < sizes.len() ==> {
                let pos = reader_position(write, plans, k);
                let rp = spec_plan_read(pos, capacity, first_word_after_claim(#[trigger] plans[k]));
                &&& rp.header_at == plans[k].offset
                &&& rp.expected_epoch == plans[k].epoch_claim
                &&& rp.data_at == plans[k].offset + HEADER_SIZE
                &&& pos + rp.skip + align_up(sizes[k] as int) == plans[k].new_write
            }
        }),
    decreases sizes.len(),
{
    if sizes.len() > 0 {
        let p = spec_plan_alloc(write, read, capacity, sizes[0])->0;
        assert(positions_bounded(write, capacity));
        lemma_claim_keeps_positions(write, read, capacity, sizes[0]);
        lemma_claim_aligned(write, read, capacity, sizes[0]);
        lemma_claim_ignores_reader(write, read, write, capacity, sizes[0]);
        lemma_read_matches_claim(write, capacity, sizes[0]);
        lemma_follow_from(p.new_write, read, capacity, sizes.drop_first());
        let rest = claim_all(p.new_write, read, capacity, sizes.drop_first())->0;
        let plans = claim_all(write, read, capacity, sizes)->0;
        assert(plans == seq![p] + rest);
        assert forall|k: int| 0 <= k < sizes.len() implies {
            let pos = reader_position(write, plans, k);
            let rp = spec_plan_read(pos, capacity, first_word_after_claim(#[trigger] plans[k]));
            &&& rp.header_at == plans[k].offset
            &&& rp.expected_epoch == plans[k].epoch_claim
            &&& rp.data_at == plans[k].offset + HEADER_SIZE
            &&& pos + rp.skip + align_up(sizes[k] as int) == plans[k].new_write
        } by {
            if k > 0 {
                assert(plans[k] == rest[k - 1]);
                assert(sizes[k] == sizes.drop_first()[k - 1]);
                assert(reader_position(write, plans, k) == reader_position(p.new_write, rest, k - 1));
            }
        }
    }
}

/// Errors of the shared memory ring.
#[derive(Debug, Clone, PartialEq, Eq)]
pub enum ShmError {
    MappingFailed(String),
    CapacityExceeded,
    Corruption(String),
    GenerationMismatch,
    StaleProcess(u32),
    Serialization(String),
    Deserialization(String),
}

/// The cell error a ring error stands for.
pub open spec fn spec_shm_cell_error(e: ShmError) -> CellError {
    match e {
        ShmError::Corruption(_) | ShmError::GenerationMismatch => CellError::Corruption,
        ShmError::Serialization(_) => CellError::SerializationFailure,
        ShmError::Deserialization(_) => CellError::DeserializationFailure,
        ShmError::CapacityExceeded => CellError::ResourceExhausted,
        ShmError::StaleProcess(_) => CellError::ConnectionReset,
        ShmError::MappingFailed(_) => CellError::IoError,
    }
}

impl ShmError {
    pub fn to_cell_error(&self) -> (c: CellError)
        ensures
            c == spec_shm_cell_error(*self),
    {
        match self {
            ShmError::Corruption(_) | ShmError::GenerationMismatch => CellError::Corruption,
            ShmError::Serialization(_) => CellError::SerializationFailure,
            ShmError::Deserialization(_) => CellError::DeserializationFailure,
            ShmError::CapacityExceeded => CellError::ResourceExhausted,
            ShmError::StaleProcess(_) => CellError::ConnectionReset,
            ShmError::MappingFailed(_) => CellError::IoError,
        }
    }
}

/// The smallest power of two that is at least `n` (1 for 0).
pub open spec fn next_pow2(n: nat) -> nat
    decreases n,
{
    if n <= 1 { 1 } else { 2 * next_pow2(((n + 1) / 2) as nat) }
}

proof fn lemma_next_pow2_bound(n: nat)
    ensures
        next_pow2(n) >= n,
        next_pow2(n) >= 1,
        n >= 1 ==> next_pow2(n) < 2 * n,
    decreases n,
{
    if n > 1 {
        lemma_next_pow2_bound(((n + 1) / 2) as nat);
    }
}

/// The size of a ring's mapping for a requested size: the next power of
/// two, and at least 1 MiB.
pub open spec fn spec_ring_size(requested: nat) -> nat {
    let p = next_pow2(requested);
    if p < 1048576 { 1048576 } else { p }
}

fn next_power_of_two(n: u64) -> (r: u64)
    requires
        n <= 0x8000_0000_0000_0000,
    ensures
        r == next_pow2(n as nat),
    decreases n,
{
    proof {
        lemma_next_pow2_bound(n as nat);
    }
    if n <= 1 {
        1
    } else {
        let h = n / 2 + n % 2;
        assert(h == (n + 1) / 2);
        proof {
            lemma_next_pow2_bound(h as nat);
        }
        2 * next_power_of_two(h)
    }
}

pub fn ring_size(requested: u64) -> (r: u64)
    requires
        requested <= 0x8000_0000_0000_0000,
    ensures
        r == spec_ring_size(requested as nat),
{
    let p = next_power_of_two(requested);
    if p < 1048576 { 1048576 } else { p }
}

/// The bytes of a mapping left for slots once the control block is set
/// aside.
pub fn data_capacity(mapping_len: u64) -> (r: u64)
    ensures
        r == (if mapping_len >= DATA_OFFSET { mapping_len - DATA_OFFSET } else { 0 }),
{
    mapping_len.saturating_sub(DATA_OFFSET)
}

/// Whether a process counts as alive after probing it with a null signal:
/// only "no such process" means it is gone.
pub fn alive_after_probe(probe_ok: bool, no_such_process: bool) -> (b: bool)
    ensures
        b == (probe_ok || !no_such_process),
{
    probe_ok || !no_such_process
}

/// What a waiter does before its next try.
#[derive(Debug, Clone, Copy, PartialEq, Eq, Structural)]
pub enum WaitStep {
    /// Spin once
    Spin,
    /// Yield to the scheduler
    Yield,
    /// Sleep this many nanoseconds
    Sleep(u64),
}

/// The wait between tries on the ring: a hundred spins, then yields up to
/// the thousandth try, then sleeps that double from 1 ns, each at most
/// 1 ms long, while the doubling itself stops at 10 ms.
#[derive(Debug, Clone, Copy, PartialEq, Eq, Structural)]
pub struct WaitBackoff {
    pub spins: u32,
    pub backoff_ns: u64,
}

impl WaitBackoff {
    pub fn new() -> (w: Self)
        ensures
            w.spins == 0,
            w.backoff_ns == 1,
    {
        WaitBackoff { spins: 0, backoff_ns: 1 }
    }

    pub fn next_step(&mut self) -> (s: WaitStep)
        requires
            old(self).backoff_ns <= 10_000_000,
        ensures
            final(self).spins == (if old(self).spins == u32::MAX { u32::MAX } else { (old(self).spins + 1) as u32 }),
            final(self).spins < 100 ==> s == WaitStep::Spin && final(self).backoff_ns == old(self).backoff_ns,
            100 <= final(self).spins < 1000 ==> s == WaitStep::Yield && final(self).backoff_ns
                == old(self).backoff_ns,
            final(self).spins >= 1000 ==> {
                &&& s == WaitStep::Sleep(if old(self).backoff_ns < 1_000_000 { old(self).backoff_ns } else { 1_000_000 })
                &&& final(self).backoff_ns == (if 2 * old(self).backoff_ns < 10_000_000 {
                    2 * old(self).backoff_ns
                } else {
                    10_000_000
                })
            },
            final(self).backoff_ns <= 10_000_000,
    {
        self.spins = self.spins.saturating_add(1);
        if self.spins < 100 {
            WaitStep::Spin
        } else if self.spins < 1000 {
            WaitStep::Yield
        } else {
            let d = if self.backoff_ns < 1_000_000 { self.backoff_ns } else { 1_000_000 };
            self.backoff_ns = if 2 * self.backoff_ns < 10_000_000 { 2 * self.backoff_ns } else { 10_000_000 };
            WaitStep::Sleep(d)
        }
    }
}

/// A payload written into a slot must fit the claimed size.
pub fn fits_slot(data_len: u64, claimed: u64) -> (b: bool)
    ensures
        b == (data_len <= claimed),
{
    data_len <= claimed
}

} // verus!
