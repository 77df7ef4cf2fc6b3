//! NVMe: the controller's register base from its PCI base address
//! registers, the doorbell offsets under the controller's doorbell stride,
//! and the admin command that creates an I/O submission queue with the
//! admin queue's tail moving round its ring. Register and queue memory
//! accesses are the caller's.
use vstd::prelude::*;

verus! {

pub const CAP_OFF: usize = 0x00;
pub const VS_OFF: usize = 0x08;
pub const CC_OFF: usize = 0x14;
pub const CSTS_OFF: usize = 0x1C;
pub const AQA_OFF: usize = 0x24;
pub const ASQ_OFF: usize = 0x28;
pub const ACQ_OFF: usize = 0x30;

/// Entries of a queue.
pub const QUEUE_ENTRIES: u64 = 64;

/// Bytes of a submission queue entry.
pub const SQ_ENTRY_SIZE: u64 = 64;

/// The admin opcode that creates an I/O submission queue.
pub const OPC_CREATE_IO_SQ: u32 = 0x01;

/// The controller's register base: the second base address register as the
/// upper half, the first with its four flag bits cleared as the lower.
pub fn nvme_base(bar0: u32, bar1: u32) -> (r: u64)
    ensures
        r == ((bar1 as u64) << 32u64) | ((bar0 & 0xFFFF_FFF0) as u64),
{
    let lo = (bar0 & 0xFFFF_FFF0) as u64;
    let hi = (bar1 as u64) << 32;
    hi | lo
}

/// The doorbell stride exponent from the capabilities register.
pub fn doorbell_stride(cap: u64) -> (r: u64)
    ensures
        r == (cap >> 32u64) & 0xF,
        r < 16,
{
    let r = (cap >> 32) & 0xF;
    assert((cap >> 32u64) & 0xFu64 < 16) by (bit_vector);
    r
}

/// The distance between doorbells, `4 << dstrd` bytes.
pub open spec fn stride_bytes(dstrd: u64) -> u64 {
    4u64 << dstrd
}

/// The offset of the submission queue tail doorbell of queue `qi`.
pub open spec fn sq_tail_doorbell_spec(qi: u64, dstrd: u64) -> int {
    0x1000 + (2 * qi) * stride_bytes(dstrd)
}

/// The offset of the completion queue head doorbell of queue `qi`.
pub open spec fn cq_head_doorbell_spec(qi: u64, dstrd: u64) -> int {
    0x1000 + (2 * qi + 1) * stride_bytes(dstrd)
}

fn stride(dstrd: u64) -> (r: u64)
    requires
        dstrd < 16,
    ensures
        r == stride_bytes(dstrd),
        4 <= r <= 0x20000,
{
    assert(dstrd < 16 ==> 4u64 <= (4u64 << dstrd) && (4u64 << dstrd) <= 0x20000u64) by (bit_vector);
    4u64 << dstrd
}

pub fn sq_tail_doorbell(queue_index: u64, dstrd: u64) -> (r: u64)
    requires
        queue_index < 0x1_0000_0000,
        dstrd < 16,
    ensures
        r == sq_tail_doorbell_spec(queue_index, dstrd),
{
    let s = stride(dstrd);
    assert((2 * queue_index) * s <= 0x2_0000_0000 * 0x20000) by (nonlinear_arith)
        requires queue_index < 0x1_0000_0000, s <= 0x20000;
    0x1000 + (2 * queue_index) * s
}

pub fn cq_head_doorbell(queue_index: u64, dstrd: u64) -> (r: u64)
    requires
        queue_index < 0x1_0000_0000,
        dstrd < 16,
    ensures
        r == cq_head_doorbell_spec(queue_index, dstrd),
{
    let s = stride(dstrd);
    assert((2 * queue_index + 1) * s <= 0x2_0000_0001 * 0x20000) by (nonlinear_arith)
        requires queue_index < 0x1_0000_0000, s <= 0x20000;
    0x1000 + (2 * queue_index + 1) * s
}

/// A queue pair: where its submission and completion rings are, its
/// submission tail, its completion head and its id.
#[derive(Debug, Clone, Copy, PartialEq, Eq, Structural)]
pub struct NvmeQueue {
    pub sq: u64,
    pub cq: u64,
    pub sq_tail: u64,
    pub cq_head: u64,
    pub qid: u64,
}

/// The first twelve dwords of a Create I/O Submission Queue command for a
/// queue `qid` of 64 entries whose ring is at `sq_phys`, completing on the
/// completion queue with the same id; the command id is `qid` too.
pub open spec fn create_sq_words(qid: u64, sq_phys: u64) -> Seq<u32> {
    let q = qid as u32;
    seq![
        OPC_CREATE_IO_SQ | (q << 16u32),
        0u32,
        0u32,
        0u32,
        0u32,
        0u32,
        sq_phys as u32,
        (sq_phys >> 32u64) as u32,
        0u32,
        0u32,
        q | (63u32 << 16u32),
        (q << 16u32) | 1u32,
    ]
}

/// What submitting one admin command takes: the dwords written at
/// `slot_offset` in the admin submission ring, then `doorbell_value`
/// written at the register offset `doorbell`.
pub struct AdminSubmission {
    pub slot_offset: u64,
    pub words: [u32; 12],
    pub doorbell: u64,
    pub doorbell_value: u32,
}

/// Queues the creation of the I/O submission queue `new_sq` on the admin
/// queue: the command goes in the slot at the admin tail, the tail moves on
/// round the ring, and the admin tail doorbell is rung with the new tail.
pub fn create_sub_queue(admin_sq: &mut NvmeQueue, new_sq: &NvmeQueue, cap: u64) -> (r: AdminSubmission)
    requires
        old(admin_sq).sq_tail < QUEUE_ENTRIES,
    ensures
        r.slot_offset == old(admin_sq).sq_tail * SQ_ENTRY_SIZE,
        r.words@ == create_sq_words(new_sq.qid, new_sq.sq),
        final(admin_sq).sq_tail == (old(admin_sq).sq_tail + 1) % (QUEUE_ENTRIES as int),
        *final(admin_sq) == (NvmeQueue { sq_tail: final(admin_sq).sq_tail, ..*old(admin_sq) }),
        r.doorbell == sq_tail_doorbell_spec(0, (cap >> 32u64) & 0xF),
        r.doorbell_value == final(admin_sq).sq_tail,
{
    let dstrd = doorbell_stride(cap);
    let slot_offset = admin_sq.sq_tail * SQ_ENTRY_SIZE;
    let q = new_sq.qid as u32;
    let sq_phys = new_sq.sq;
    let qsize: u32 = 63;
    let words: [u32; 12] = [
        OPC_CREATE_IO_SQ | (q << 16),
        0,
        0,
        0,
        0,
        0,
        sq_phys as u32,
        (sq_phys >> 32) as u32,
        0,
        0,
        q | (qsize << 16),
        (q << 16) | 0x1,
    ];
    assert(words@ =~= create_sq_words(new_sq.qid, new_sq.sq));
    admin_sq.sq_tail = (admin_sq.sq_tail + 1) % QUEUE_ENTRIES;
    let doorbell = sq_tail_doorbell(0, dstrd);
    AdminSubmission { slot_offset, words, doorbell, doorbell_value: admin_sq.sq_tail as u32 }
}

} // verus!
