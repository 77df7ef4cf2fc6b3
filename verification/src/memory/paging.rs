use vstd::prelude::*;
use crate::memory::addr::PhysAddr;

verus! {

/// Entries in one page table.
pub const ENTRIES_PER_TABLE: usize = 512;

/// The bits of an entry that hold the physical frame address.
pub const ADDR_MASK: u64 = 0x000F_FFFF_FFFF_F000;

pub const PRESENT: u64 = 1;
pub const WRITABLE: u64 = 2;
pub const USER: u64 = 4;
pub const WRITE_THROUGH: u64 = 8;
pub const NO_CACHE: u64 = 16;
pub const ACCESSED: u64 = 32;
pub const DIRTY: u64 = 64;
pub const HUGE: u64 = 128;
pub const GLOBAL: u64 = 256;
pub const NO_EXECUTE: u64 = 0x8000_0000_0000_0000;

/// A page-table entry.
#[derive(Clone, Copy)]
pub struct PageTableEntry(u64);

impl PageTableEntry {
    pub closed spec fn view(self) -> u64 {
        self.0
    }

    /// An empty (not present) entry.
    pub fn new() -> (r: Self)
        ensures
            r@ == 0,
    {
        PageTableEntry(0)
    }

    pub fn is_present(&self) -> (r: bool)
        ensures
            r == (self@ & PRESENT != 0),
    {
        (self.0 & PRESENT) != 0
    }

    /// Points the entry at the frame of `addr` with `flags`.
    pub fn set_addr(&mut self, addr: PhysAddr, flags: u64)
        ensures
            final(self)@ == (addr@ & ADDR_MASK) | flags,
    {
        self.0 = (addr.as_u64() & ADDR_MASK) | flags;
    }

    /// The frame address the entry points at.
    pub fn get_addr(&self) -> (r: PhysAddr)
        ensures
            r@ == self@ & ADDR_MASK,
    {
        PhysAddr::new(self.0 & ADDR_MASK)
    }

    pub fn clear(&mut self)
        ensures
            final(self)@ == 0,
    {
        self.0 = 0;
    }
}

/// An entry set to `addr` with flags outside the address bits points back at
/// the frame of `addr`, and is present exactly when the flags say so.
pub proof fn law_entry_round_trip(addr: u64, flags: u64)
    requires
        flags & ADDR_MASK == 0,
    ensures
        ((addr & ADDR_MASK) | flags) & ADDR_MASK == addr & ADDR_MASK,
        (((addr & ADDR_MASK) | flags) & PRESENT != 0) == (flags & PRESENT != 0),
{
    assert(((addr & 0x000F_FFFF_FFFF_F000u64) | flags) & 0x000F_FFFF_FFFF_F000u64 == addr & 0x000F_FFFF_FFFF_F000u64)
        by (bit_vector)
        requires flags & 0x000F_FFFF_FFFF_F000u64 == 0;
    assert((((addr & 0x000F_FFFF_FFFF_F000u64) | flags) & 1u64 != 0) == (flags & 1u64 != 0)) by (bit_vector);
}

/// A table of `ENTRIES_PER_TABLE` entries.
pub struct PageTable {
    pub entries: [PageTableEntry; 512],
}

impl PageTable {
    /// A table of empty entries.
    pub fn new() -> (r: Self)
        ensures
            r.entries@.len() == ENTRIES_PER_TABLE,
            forall|i: int| 0 <= i < ENTRIES_PER_TABLE ==> #[trigger] r.entries@[i]@ == 0,
    {
        let e = PageTableEntry::new();
        let entries: [PageTableEntry; 512] = [e; 512];
        PageTable { entries }
    }

    /// Clears every entry.
    pub fn zero(&mut self)
        ensures
            final(self).entries@.len() == ENTRIES_PER_TABLE,
            forall|i: int| 0 <= i < ENTRIES_PER_TABLE ==> #[trigger] final(self).entries@[i]@ == 0,
    {
        let mut i: usize = 0;
        while i < ENTRIES_PER_TABLE
            invariant
                i <= ENTRIES_PER_TABLE,
                self.entries@.len() == ENTRIES_PER_TABLE,
                forall|k: int| 0 <= k < i ==> #[trigger] self.entries@[k]@ == 0,
            decreases ENTRIES_PER_TABLE - i,
        {
            self.entries.set(i, PageTableEntry::new());
            i = i + 1;
        }
    }
}

} // verus!
