//! USB host controller (xHCI) bring-up: the register base from the PCI base
//! address registers, the addresses the controller's memory is mapped at,
//! the event ring segment table entry and the Enable Slot command placed on
//! the command ring. The register accesses and waits are the caller's.
use vstd::prelude::*;

verus! {

pub const PAGE_SIZE: u64 = 0x1000;

/// Where physical memory is mapped in the kernel's address space.
pub const HHDM_OFFSET: u64 = 0xFFFF_8000_0000_0000;

/// Whether a base address register decodes I/O space rather than memory.
pub open spec fn bar_is_io(bar0: u32) -> bool {
    bar0 & 1 != 0
}

/// Whether a memory base address register is 64 bits wide, so that the
/// next register holds the upper half of the address.
pub open spec fn bar_is_64(bar0: u32) -> bool {
    (bar0 >> 1u32) & 3 == 2
}

/// Whether the controller's registers need the second base address
/// register too.
pub fn xhci_needs_bar1(bar0: u32) -> (r: bool)
    ensures
        r == (!bar_is_io(bar0) && bar_is_64(bar0)),
{
    bar0 & 1 == 0 && (bar0 >> 1) & 3 == 2
}

/// The physical base of the controller's registers: none for an I/O base
/// address register, else the address in the first register with its four
/// flag bits cleared, joined with the second register as the upper half
/// when the first says it is 64 bits wide.
pub open spec fn xhci_base_spec(bar0: u32, bar1: u32) -> Option<u64> {
    if bar_is_io(bar0) {
        None
    } else if bar_is_64(bar0) {
        Some(((bar0 & 0xFFFFFFF0u32) as u64) | ((bar1 as u64) << 32u64))
    } else {
        Some((bar0 & 0xFFFFFFF0u32) as u64)
    }
}

pub fn xhci_mmio_base(bar0: u32, bar1: u32) -> (r: Option<u64>)
    ensures
        r == xhci_base_spec(bar0, bar1),
{
    if bar0 & 0x1 != 0 {
        return None;
    }
    let bar_type = (bar0 >> 1) & 0x3;
    let mut phys_base = (bar0 & 0xFFFFFFF0) as u64;
    if bar_type == 0x2 {
        phys_base = phys_base | ((bar1 as u64) << 32);
    }
    Some(phys_base)
}

/// The kernel address at which the controller's memory at `phys` is
/// mapped: the physical address with the direct-map offset bits set.
pub fn usb_map_address(phys: u64) -> (r: u64)
    ensures
        r == phys | HHDM_OFFSET,
{
    phys | HHDM_OFFSET
}

/// The size of a transfer request block, `xhci::ring::trb::BYTES`, which
/// that crate defines as 16.
#[verifier::external_body]
fn trb_bytes() -> (r: usize)
    ensures
        r == 16,
{
    xhci::ring::trb::BYTES
}

/// The raw words of an Enable Slot command with its cycle bit set, made
/// with `xhci::ring::trb::command::EnableSlot::new`, `set_cycle_bit` and
/// `into_raw`. `new` zeroes the four words and writes the TRB type (9 for
/// Enable Slot) into bits 10 to 15 of the last; `set_cycle_bit` sets bit 0
/// of the last word.
#[verifier::external_body]
fn enable_slot_raw() -> (r: [u32; 4])
    ensures
        r@ == seq![0u32, 0u32, 0u32, 0x2401u32],
{
    let mut trb = xhci::ring::trb::command::EnableSlot::new();
    trb.set_cycle_bit();
    trb.into_raw()
}

/// The Enable Slot command placed first on the command ring, its cycle bit
/// set.
pub fn enable_slot_command() -> (r: [u32; 4])
    ensures
        r@ == seq![0u32, 0u32, 0u32, (9u32 << 10u32) | 1u32],
{
    let r = enable_slot_raw();
    assert((9u32 << 10u32) | 1u32 == 0x2401u32) by (bit_vector);
    r
}

/// An event ring segment table entry.
#[derive(Debug, Clone, Copy, PartialEq, Eq, Structural)]
pub struct ErstEntry {
    /// The physical base of the segment.
    pub ring_segment_base: u64,
    /// How many TRBs the segment holds.
    pub ring_segment_size: u32,
    pub reserved: u32,
}

/// The one entry of the event ring segment table: the event ring's page,
/// holding a page's worth of TRBs.
pub fn erst_entry(event_ring_phys: u64) -> (r: ErstEntry)
    ensures
        r.ring_segment_base == event_ring_phys,
        r.ring_segment_size == PAGE_SIZE / 16,
        r.reserved == 0,
{
    let seg_size = (PAGE_SIZE as usize / trb_bytes()) as u32;
    ErstEntry { ring_segment_base: event_ring_phys, ring_segment_size: seg_size, reserved: 0 }
}

} // verus!
