//! Local APIC and I/O APIC register values: the APIC base MSR, the
//! spurious vector register, the timer's local vector and its calibration
//! against the PIT, and the I/O APIC redirection table entries. Reading and
//! writing the registers, the MSR and the PIT ports is the caller's.
use vstd::prelude::*;
use crate::ahci::{join_addr, join_spec, split_addr, split_spec};

verus! {

pub const APIC_BASE_MSR: u32 = 0x1B;
pub const APIC_BASE_MSR_ENABLE: u64 = 0x800;
pub const APIC_SPURIOUS_INTERRUPT_VECTOR: usize = 0xF0;
pub const APIC_SOFTWARE_ENABLE: u32 = 0x100;
pub const APIC_TIMER_LVT: usize = 0x320;
pub const APIC_TIMER_INITIAL_COUNT: usize = 0x380;
pub const APIC_TIMER_CURRENT_COUNT: usize = 0x390;
pub const APIC_TIMER_DIVIDE_CONFIG: usize = 0x3E0;
pub const APIC_EOI: usize = 0xB0;

pub const IOAPIC_IOREGSEL: usize = 0x00;
pub const IOAPIC_IOWIN: usize = 0x10;
pub const IOAPIC_ID: u32 = 0x00;
pub const IOAPIC_VER: u32 = 0x01;
pub const IOAPIC_REDTBL_BASE: u32 = 0x10;

pub const IOAPIC_MASKED: u64 = 0x10000;
pub const IOAPIC_LEVEL_TRIGGERED: u64 = 0x8000;
pub const IOAPIC_ACTIVE_LOW: u64 = 0x2000;

/// The timer's divide configuration: divide by 16.
pub const APIC_TIMER_DIVIDE_BY_16: u32 = 0x3;

/// The timer's local vector bit for periodic mode.
pub const APIC_TIMER_PERIODIC: u32 = 0x20000;

/// The timer's local vector bit that masks its interrupt.
pub const APIC_LVT_MASKED: u32 = 0x10000;

pub const PIT_FREQUENCY: u64 = 1_193_182;

/// How long the calibration counts, in milliseconds.
pub const CALIBRATION_MS: u64 = 10;

/// The physical base of the local APIC from the base MSR.
pub fn get_apic_base(msr_value: u64) -> (r: u64)
    ensures
        r == msr_value & 0xfffff000,
{
    msr_value & 0xfffff000
}

/// The base MSR value that places the local APIC at `apic` and enables it.
pub fn set_apic_base(apic: u64) -> (r: u64)
    ensures
        r == (apic & 0xfffff000) | APIC_BASE_MSR_ENABLE,
        r < 0x1_0000_0000,
{
    let r = (apic & 0xfffff000) | APIC_BASE_MSR_ENABLE;
    assert((apic & 0xfffff000u64) | 0x800u64 < 0x1_0000_0000u64) by (bit_vector);
    r
}

/// Where the local APIC and the I/O APIC registers are mapped.
pub struct ApicBases {
    pub apic_virt_base: u64,
    pub ioapic_virt_base: u64,
}

impl ApicBases {
    pub fn new() -> (r: Self)
        ensures
            r.apic_virt_base == 0 && r.ioapic_virt_base == 0,
    {
        ApicBases { apic_virt_base: 0, ioapic_virt_base: 0 }
    }

    pub fn set_apic_virt_base(&mut self, virt_addr: u64)
        ensures
            final(self).apic_virt_base == virt_addr,
            final(self).ioapic_virt_base == old(self).ioapic_virt_base,
    {
        self.apic_virt_base = virt_addr;
    }

    pub fn set_ioapic_virt_base(&mut self, virt_addr: u64)
        ensures
            final(self).ioapic_virt_base == virt_addr,
            final(self).apic_virt_base == old(self).apic_virt_base,
    {
        self.ioapic_virt_base = virt_addr;
    }

    /// The address of the local APIC register at `offset`.
    pub fn apic_register_address(&self, offset: usize) -> (r: u64)
        requires
            self.apic_virt_base + offset <= u64::MAX,
        ensures
            r == self.apic_virt_base + offset,
    {
        self.apic_virt_base + offset as u64
    }

    /// The addresses of the I/O APIC's register select and window
    /// registers.
    pub fn ioapic_register_addresses(&self) -> (r: (u64, u64))
        requires
            self.ioapic_virt_base + IOAPIC_IOWIN <= u64::MAX,
        ensures
            r.0 == self.ioapic_virt_base + IOAPIC_IOREGSEL,
            r.1 == self.ioapic_virt_base + IOAPIC_IOWIN,
    {
        (self.ioapic_virt_base + IOAPIC_IOREGSEL as u64, self.ioapic_virt_base + IOAPIC_IOWIN as u64)
    }
}

/// The two writes that enable the local APIC: the base MSR value keeping
/// its base with the enable bit set, and the spurious vector register with
/// software enable set. The CPU must have an APIC.
pub fn enable_apic(apic_supported: bool, msr_value: u64, svr: u32) -> (r: (u64, u32))
    requires
        apic_supported,
    ensures
        r.0 == (msr_value & 0xfffff000 & 0xfffff000) | APIC_BASE_MSR_ENABLE,
        r.1 == svr | APIC_SOFTWARE_ENABLE,
{
    let base = get_apic_base(msr_value);
    (set_apic_base(base), apic_software_enable(svr))
}

/// The register writes that start the timer: divide by 16, periodic on
/// `interrupt_vector`, counting down from `initial_count`.
pub fn init_apic_timer(interrupt_vector: u8, initial_count: u32) -> (r: [(usize, u32); 3])
    ensures
        r@ == seq![
            (APIC_TIMER_DIVIDE_CONFIG, APIC_TIMER_DIVIDE_BY_16),
            (APIC_TIMER_LVT, (interrupt_vector as u32) | APIC_TIMER_PERIODIC),
            (APIC_TIMER_INITIAL_COUNT, initial_count),
        ],
{
    let r = [
        (APIC_TIMER_DIVIDE_CONFIG, APIC_TIMER_DIVIDE_BY_16),
        (APIC_TIMER_LVT, apic_timer_lvt(interrupt_vector)),
        (APIC_TIMER_INITIAL_COUNT, initial_count),
    ];
    assert(r@ =~= seq![
        (APIC_TIMER_DIVIDE_CONFIG, APIC_TIMER_DIVIDE_BY_16),
        (APIC_TIMER_LVT, (interrupt_vector as u32) | APIC_TIMER_PERIODIC),
        (APIC_TIMER_INITIAL_COUNT, initial_count),
    ]);
    r
}

/// The write that signals the end of an interrupt.
pub fn apic_eoi() -> (r: (usize, u32))
    ensures
        r == (APIC_EOI, 0u32),
{
    (APIC_EOI, 0)
}

/// The register writes that start the timer for calibration: divide by 16,
/// masked, counting down from `u32::MAX`.
pub fn calibration_timer_writes() -> (r: [(usize, u32); 3])
    ensures
        r@ == seq![
            (APIC_TIMER_DIVIDE_CONFIG, APIC_TIMER_DIVIDE_BY_16),
            (APIC_TIMER_LVT, APIC_LVT_MASKED),
            (APIC_TIMER_INITIAL_COUNT, u32::MAX),
        ],
{
    let r = [
        (APIC_TIMER_DIVIDE_CONFIG, APIC_TIMER_DIVIDE_BY_16),
        (APIC_TIMER_LVT, APIC_LVT_MASKED),
        (APIC_TIMER_INITIAL_COUNT, u32::MAX),
    ];
    assert(r@ =~= seq![
        (APIC_TIMER_DIVIDE_CONFIG, APIC_TIMER_DIVIDE_BY_16),
        (APIC_TIMER_LVT, APIC_LVT_MASKED),
        (APIC_TIMER_INITIAL_COUNT, u32::MAX),
    ]);
    r
}

/// The spurious interrupt vector register with the APIC software-enabled.
pub fn apic_software_enable(svr: u32) -> (r: u32)
    ensures
        r == svr | APIC_SOFTWARE_ENABLE,
{
    svr | APIC_SOFTWARE_ENABLE
}

/// The timer's local vector: periodic, delivered to `interrupt_vector`.
pub fn apic_timer_lvt(interrupt_vector: u8) -> (r: u32)
    ensures
        r == (interrupt_vector as u32) | APIC_TIMER_PERIODIC,
{
    (interrupt_vector as u32) | APIC_TIMER_PERIODIC
}

/// The I/O APIC registers holding the low and the high half of the
/// redirection entry of `irq`.
pub fn redtbl_registers(irq: u8) -> (r: (u32, u32))
    ensures
        r.0 == IOAPIC_REDTBL_BASE + 2 * irq,
        r.1 == IOAPIC_REDTBL_BASE + 2 * irq + 1,
{
    let lo = IOAPIC_REDTBL_BASE + (irq as u32) * 2;
    (lo, lo + 1)
}

/// A redirection entry from its two register halves.
pub fn redtbl_entry(lo: u32, hi: u32) -> (r: u64)
    ensures
        r == join_spec(lo, hi),
        split_spec(r) == (lo, hi),
{
    join_addr(lo, hi)
}

/// The two register halves of a redirection entry.
pub fn redtbl_halves(entry: u64) -> (r: (u32, u32))
    ensures
        r == split_spec(entry),
        join_spec(r.0, r.1) == entry,
{
    split_addr(entry)
}

/// A redirection entry delivering to `vector` on the CPU whose local APIC
/// id is `dest_apic_id`: fixed delivery, physical destination, unmasked,
/// with the trigger mode and polarity asked for.
pub open spec fn redirection_entry(vector: u8, dest_apic_id: u8, level_triggered: bool, active_low: bool) -> u64 {
    let e0 = vector as u64;
    let e1 = if level_triggered { e0 | IOAPIC_LEVEL_TRIGGERED } else { e0 };
    let e2 = if active_low { e1 | IOAPIC_ACTIVE_LOW } else { e1 };
    e2 | ((dest_apic_id as u64) << 56u64)
}

pub fn ioapic_set_irq_entry(vector: u8, dest_apic_id: u8, level_triggered: bool, active_low: bool) -> (r: u64)
    ensures
        r == redirection_entry(vector, dest_apic_id, level_triggered, active_low),
        r & IOAPIC_MASKED == 0,
        r & 0xFF == vector,
        r >> 56u64 == dest_apic_id,
        (r & IOAPIC_LEVEL_TRIGGERED != 0) == level_triggered,
        (r & IOAPIC_ACTIVE_LOW != 0) == active_low,
{
    let mut entry = vector as u64;
    if level_triggered {
        entry = entry | IOAPIC_LEVEL_TRIGGERED;
    }
    if active_low {
        entry = entry | IOAPIC_ACTIVE_LOW;
    }
    entry = entry | ((dest_apic_id as u64) << 56);
    proof {
        lemma_redirection_fields(vector, dest_apic_id, level_triggered, active_low);
    }
    entry
}

proof fn lemma_redirection_fields(v: u8, d: u8, level: bool, low: bool)
    ensures
        ({
            let r = redirection_entry(v, d, level, low);
            &&& r & IOAPIC_MASKED == 0
            &&& r & 0xFF == v
            &&& r >> 56u64 == d
            &&& (r & IOAPIC_LEVEL_TRIGGERED != 0) == level
            &&& (r & IOAPIC_ACTIVE_LOW != 0) == low
        }),
{
    let (vv, dd) = (v as u64, d as u64);
    assert({
        let e1 = if level { vv | 0x8000u64 } else { vv };
        let e2 = if low { e1 | 0x2000u64 } else { e1 };
        let r = e2 | (dd << 56u64);
        &&& r & 0x10000u64 == 0
        &&& r & 0xFFu64 == vv
        &&& r >> 56u64 == dd
        &&& (r & 0x8000u64 != 0) == level
        &&& (r & 0x2000u64 != 0) == low
    }) by (bit_vector)
        requires vv < 0x100, dd < 0x100;
}

/// A redirection entry with its interrupt masked.
pub fn ioapic_masked_entry(entry: u64) -> (r: u64)
    ensures
        r == entry | IOAPIC_MASKED,
{
    entry | IOAPIC_MASKED
}

/// A redirection entry with its interrupt unmasked.
pub fn ioapic_unmasked_entry(entry: u64) -> (r: u64)
    ensures
        r == entry & !IOAPIC_MASKED,
{
    entry & !IOAPIC_MASKED
}

/// Masking an entry sets its mask bit and nothing else; unmasking clears
/// it and nothing else; so unmasking a masked entry gives the entry back
/// with its mask bit clear.
pub proof fn law_mask_unmask(entry: u64)
    ensures
        (entry | IOAPIC_MASKED) & IOAPIC_MASKED != 0,
        (entry & !IOAPIC_MASKED) & IOAPIC_MASKED == 0,
        forall|b: u64| b < 64 && b != 16 ==> ((entry | IOAPIC_MASKED) >> b) & 1 == (entry >> b) & 1,
        forall|b: u64| b < 64 && b != 16 ==> ((entry & !IOAPIC_MASKED) >> b) & 1 == (entry >> b) & 1,
        (entry | IOAPIC_MASKED) & !IOAPIC_MASKED == entry & !IOAPIC_MASKED,
{
    assert({
        &&& (entry | 0x10000u64) & 0x10000u64 != 0
        &&& (entry & !0x10000u64) & 0x10000u64 == 0
        &&& forall|b: u64| b < 64 && b != 16 ==> ((entry | 0x10000u64) >> b) & 1 == (entry >> b) & 1
        &&& forall|b: u64| b < 64 && b != 16 ==> ((entry & !0x10000u64) >> b) & 1 == (entry >> b) & 1
        &&& (entry | 0x10000u64) & !0x10000u64 == entry & !0x10000u64
    }) by (bit_vector);
}

/// The register writes that program the redirection entry of `irq` (low
/// half, then high half) to `entry`.
pub fn write_ioapic_redtbl(irq: u8, entry: u64) -> (r: [(u32, u32); 2])
    ensures
        r@[0] == ((IOAPIC_REDTBL_BASE + 2 * irq) as u32, split_spec(entry).0),
        r@[1] == ((IOAPIC_REDTBL_BASE + 2 * irq + 1) as u32, split_spec(entry).1),
{
    let (lo_reg, hi_reg) = redtbl_registers(irq);
    let (lo, hi) = redtbl_halves(entry);
    [(lo_reg, lo), (hi_reg, hi)]
}

/// Programs `irq` to deliver `vector` to the CPU with local APIC id
/// `dest_apic_id` (see `redirection_entry`), unmasked.
pub fn ioapic_set_irq(irq: u8, vector: u8, dest_apic_id: u8, level_triggered: bool, active_low: bool) -> (r: [(
    u32,
    u32,
); 2])
    ensures
        r@[0] == ((IOAPIC_REDTBL_BASE + 2 * irq) as u32, split_spec(redirection_entry(vector, dest_apic_id, level_triggered, active_low)).0),
        r@[1] == ((IOAPIC_REDTBL_BASE + 2 * irq + 1) as u32, split_spec(redirection_entry(vector, dest_apic_id, level_triggered, active_low)).1),
{
    let entry = ioapic_set_irq_entry(vector, dest_apic_id, level_triggered, active_low);
    write_ioapic_redtbl(irq, entry)
}

/// Masks `irq`, whose entry reads `lo` and `hi`.
pub fn ioapic_mask_irq(irq: u8, lo: u32, hi: u32) -> (r: [(u32, u32); 2])
    ensures
        r@[0] == ((IOAPIC_REDTBL_BASE + 2 * irq) as u32, split_spec(join_spec(lo, hi) | IOAPIC_MASKED).0),
        r@[1] == ((IOAPIC_REDTBL_BASE + 2 * irq + 1) as u32, split_spec(join_spec(lo, hi) | IOAPIC_MASKED).1),
{
    let entry = ioapic_masked_entry(redtbl_entry(lo, hi));
    write_ioapic_redtbl(irq, entry)
}

/// Unmasks `irq`, whose entry reads `lo` and `hi`.
pub fn ioapic_unmask_irq(irq: u8, lo: u32, hi: u32) -> (r: [(u32, u32); 2])
    ensures
        r@[0] == ((IOAPIC_REDTBL_BASE + 2 * irq) as u32, split_spec(join_spec(lo, hi) & !IOAPIC_MASKED).0),
        r@[1] == ((IOAPIC_REDTBL_BASE + 2 * irq + 1) as u32, split_spec(join_spec(lo, hi) & !IOAPIC_MASKED).1),
{
    let entry = ioapic_unmasked_entry(redtbl_entry(lo, hi));
    write_ioapic_redtbl(irq, entry)
}

/// How many redirection entries `init_ioapic` masks, from the version
/// register: all of them, the last index being in bits 16 to 23.
pub fn init_ioapic(ver: u32) -> (r: u32)
    ensures
        r == ((ver >> 16u32) & 0xFF) as u8 + 1,
{
    let (_, max_redir) = ioapic_version(ver);
    max_redir as u32 + 1
}

/// The I/O APIC id from its id register.
pub fn ioapic_id(reg: u32) -> (r: u8)
    ensures
        r == ((reg >> 24u32) & 0xF) as u8,
{
    ((reg >> 24) & 0xF) as u8
}

/// The I/O APIC version and the index of its last redirection entry, from
/// its version register.
pub fn ioapic_version(ver: u32) -> (r: (u8, u8))
    ensures
        r.0 == (ver & 0xFF) as u8,
        r.1 == ((ver >> 16u32) & 0xFF) as u8,
{
    let version = (ver & 0xFF) as u8;
    let max_redir = ((ver >> 16) & 0xFF) as u8;
    (version, max_redir)
}

/// The PIT count that lasts the calibration interval.
pub open spec fn pit_ticks_spec() -> u16 {
    (PIT_FREQUENCY * CALIBRATION_MS / 1000) as u16
}

/// The PIT count loaded for calibration, with its low and high bytes.
pub fn pit_calibration_count() -> (r: (u16, u8, u8))
    ensures
        r.0 == pit_ticks_spec(),
        r.0 == 11931,
        r.1 == r.0 % 256,
        r.2 == r.0 / 256,
{
    let ticks = (PIT_FREQUENCY * CALIBRATION_MS / 1000) as u16;
    (ticks, (ticks % 256) as u8, (ticks / 256) as u8)
}

/// Whether the PIT's channel 2 output, bit 5 of port 0x61, has gone high:
/// the calibration interval is over.
pub fn pit_expired(port61: u8) -> (r: bool)
    ensures
        r == (port61 & 0x20 != 0),
{
    port61 & 0x20 != 0
}

/// The port 0x61 value that switches PIT channel 2 on with the speaker off.
pub fn pit_channel2_enable(port61: u8) -> (r: u8)
    ensures
        r == (port61 & 0xFC) | 0x01,
{
    (port61 & 0xFC) | 0x01
}

/// The initial count that makes the APIC timer fire `target_hz` times a
/// second, from the current count read when the calibration interval ended
/// (the timer having started at `u32::MAX`): the ticks counted in the
/// interval scaled to one second, divided by the rate, truncated to 32
/// bits.
pub open spec fn timer_initial_count(current_count: u32, target_hz: u64) -> u32 {
    (((u32::MAX - current_count) * (1000u64 / CALIBRATION_MS)) / (target_hz as int)) as u32
}

pub fn calibrate_apic_timer(current_count: u32, target_hz: u64) -> (r: u32)
    requires
        target_hz > 0,
    ensures
        r == timer_initial_count(current_count, target_hz),
{
    let elapsed = u32::MAX - current_count;
    let per_second: u64 = 1000 / CALIBRATION_MS;
    assert(per_second == 100);
    assert((elapsed as u64) * per_second <= 0xFFFF_FFFFu64 * 100) by (nonlinear_arith)
        requires per_second == 100, elapsed <= 0xFFFF_FFFFu64;
    let apic_freq = (elapsed as u64) * per_second;
    let initial = apic_freq / target_hz;
    initial as u32
}

} // verus!
