use vstd::prelude::*;

verus! {

/// Offset of the higher-half direct map of physical memory.
pub const HHDM_OFFSET: u64 = 0xFFFF800000000000;

/// The direct-map address of physical address `phys_addr`.
pub fn phys_to_virt(phys_addr: usize) -> (r: usize)
    requires
        phys_addr + HHDM_OFFSET <= usize::MAX,
    ensures
        r == phys_addr + HHDM_OFFSET,
{
    phys_addr + HHDM_OFFSET as usize
}

/// The physical address behind direct-map address `virt_addr`.
pub fn virt_to_phys(virt_addr: usize) -> (r: usize)
    requires
        virt_addr >= HHDM_OFFSET,
    ensures
        r == virt_addr - HHDM_OFFSET,
{
    virt_addr - HHDM_OFFSET as usize
}

/// Translating to the direct map and back gives the address back.
pub proof fn law_hhdm_round_trip(phys_addr: usize)
    requires
        phys_addr + HHDM_OFFSET <= usize::MAX,
    ensures
        (phys_addr + HHDM_OFFSET) - HHDM_OFFSET == phys_addr,
{
}

} // verus!
