//! Interrupt descriptors and the timer interrupt: the 16-byte descriptor written
//! for a raw handler address, the vectors the kernel uses, and what the
//! timer interrupt does (count the tick, then let the thread scheduler pick
//! the stack to return on). Installing the table and acknowledging the
//! interrupt are the caller's.
use vstd::prelude::*;
use crate::thread::{schedule_outcome, ScheduleOutcome, ThreadTable};

verus! {

pub const APIC_TIMER_VECTOR: u8 = 32;
pub const IDE_PRIMARY_VECTOR: u8 = 33;
pub const IDE_SECONDARY_VECTOR: u8 = 34;

pub const IDE_PRIMARY_IRQ: u8 = 14;
pub const IDE_SECONDARY_IRQ: u8 = 15;

/// The kernel code segment selector.
pub const KERNEL_CODE_SELECTOR: u64 = 0x08;

/// The descriptor type and attributes: present, ring 0, 64-bit interrupt handler.
pub const INTERRUPT_DESCRIPTOR_TYPE: u64 = 0x8E00;

/// The low eight bytes of the descriptor for a handler at `handler_addr`.
pub open spec fn descriptor_low(handler_addr: u64) -> u64 {
    (handler_addr & 0xFFFF) | (KERNEL_CODE_SELECTOR << 16u64) | (INTERRUPT_DESCRIPTOR_TYPE << 32u64) | ((handler_addr
        & 0xFFFF_0000) << 32u64)
}

/// The high eight bytes: the upper half of the handler address.
pub open spec fn descriptor_high(handler_addr: u64) -> u64 {
    handler_addr >> 32u64
}

/// The two words of the interrupt descriptor of a handler at `handler_addr`, as
/// written at entry `2 * index` and `2 * index + 1` of the table.
pub fn set_raw_idt_entry(handler_addr: u64) -> (r: (u64, u64))
    ensures
        r.0 == descriptor_low(handler_addr),
        r.1 == descriptor_high(handler_addr),
{
    let low = (handler_addr & 0xFFFF) | (KERNEL_CODE_SELECTOR << 16) | (INTERRUPT_DESCRIPTOR_TYPE << 32) | ((handler_addr
        & 0xFFFF_0000) << 32);
    let high = handler_addr >> 32;
    (low, high)
}

/// The index of the first of the two words of descriptor `vector` in the table.
pub fn idt_word_index(vector: u8) -> (r: usize)
    ensures
        r == 2 * vector,
{
    vector as usize * 2
}

/// A descriptor gives back its handler address, the kernel code selector and the
/// interrupt descriptor type.
pub proof fn law_descriptor_fields(handler_addr: u64)
    ensures
        ({
            let lo = descriptor_low(handler_addr);
            let hi = descriptor_high(handler_addr);
            &&& (lo & 0xFFFF) | ((lo >> 48u64) << 16u64) | (hi << 32u64) == handler_addr
            &&& (lo >> 16u64) & 0xFFFF == KERNEL_CODE_SELECTOR
            &&& (lo >> 32u64) & 0xFFFF == INTERRUPT_DESCRIPTOR_TYPE
        }),
{
    assert({
        let lo = (handler_addr & 0xFFFF) | (0x08u64 << 16u64) | (0x8E00u64 << 32u64) | ((handler_addr & 0xFFFF_0000)
            << 32u64);
        let hi = handler_addr >> 32u64;
        &&& (lo & 0xFFFF) | ((lo >> 48u64) << 16u64) | (hi << 32u64) == handler_addr
        &&& (lo >> 16u64) & 0xFFFF == 0x08u64
        &&& (lo >> 32u64) & 0xFFFF == 0x8E00u64
    }) by (bit_vector);
}

/// The timer's tick count and what the last tick saw of the scheduler.
pub struct TimerState {
    ticks: u64,
    dbg_count: usize,
    dbg_old: usize,
    dbg_new: usize,
}

impl TimerState {
    pub closed spec fn ticks(&self) -> u64 {
        self.ticks
    }

    /// The thread count and the current index before and after the last
    /// tick's scheduling.
    pub closed spec fn dbg(&self) -> (usize, usize, usize) {
        (self.dbg_count, self.dbg_old, self.dbg_new)
    }

    pub fn new() -> (r: Self)
        ensures
            r.ticks() == 0,
            r.dbg() == (0usize, 0usize, 0usize),
    {
        TimerState { ticks: 0, dbg_count: 0, dbg_old: 0, dbg_new: 0 }
    }

    pub fn get_timer_ticks(&self) -> (r: u64)
        ensures
            r == self.ticks(),
    {
        self.ticks
    }

    pub fn get_dbg(&self) -> (r: (usize, usize, usize))
        ensures
            r == self.dbg(),
    {
        (self.dbg_count, self.dbg_old, self.dbg_new)
    }

    /// One timer interrupt taken on the stack `rsp`: the tick is counted
    /// (wrapping), and the scheduler decides the stack to return on.
    pub fn apic_timer_interrupt_handler(&mut self, threads: &mut ThreadTable, rsp: u64) -> (r: ScheduleOutcome)
        requires
            old(threads).wf(),
            old(threads).enabled() && old(threads)@.len() >= 2 ==> old(threads).current_index() < old(threads)@.len()
                && old(threads).tick_count() < usize::MAX,
        ensures
            final(self).ticks() == old(self).ticks().wrapping_add(1),
            final(self).dbg() == (
                old(threads)@.len() as usize,
                old(threads).current_index(),
                final(threads).current_index(),
            ),
            final(threads).wf(),
            final(threads).enabled() == old(threads).enabled(),
            schedule_outcome(old(threads), final(threads), rsp, r),
    {
        self.ticks = self.ticks.wrapping_add(1);
        self.dbg_count = threads.get_thread_count();
        self.dbg_old = threads.get_current_index();
        let r = threads.schedule(rsp);
        self.dbg_new = threads.get_current_index();
        r
    }
}

} // verus!
