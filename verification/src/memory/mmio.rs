use vstd::prelude::*;

verus! {

/// A window of virtual addresses handed out, page by page and never given
/// back, for device register mappings.
pub struct MmioWindow {
    lower: u64,
    upper: u64,
    current: u64,
}

/// The pages to map for one device region: `pages[i]` maps virtual
/// `virt + i * 0x1000` to physical `phys + i * 0x1000`.
pub struct MmioPlan {
    pub virt: u64,
    pub phys: u64,
    pub pages: u64,
}

/// Pages needed to cover `size` bytes.
pub open spec fn pages_for(size: u64) -> int {
    (size as int + 0xFFF) / 0x1000
}

impl MmioWindow {
    pub closed spec fn lower(&self) -> u64 {
        self.lower
    }

    pub closed spec fn upper(&self) -> u64 {
        self.upper
    }

    pub closed spec fn current(&self) -> u64 {
        self.current
    }

    pub fn new() -> (r: Self)
        ensures
            r.lower() == 0 && r.upper() == 0 && r.current() == 0,
    {
        MmioWindow { lower: 0, upper: 0, current: 0 }
    }

    /// Sets the window to `[lower, upper]` with nothing handed out.
    pub fn mmio_map_range(&mut self, lower: u64, upper: u64)
        ensures
            final(self).lower() == lower && final(self).upper() == upper && final(self).current() == lower,
    {
        self.lower = lower;
        self.upper = upper;
        self.current = lower;
    }

    /// Plans the mapping of `size` bytes of device memory at `phys_addr`:
    /// whole pages from the next free address of the window. Fails when they
    /// would go past the end of the window. Nothing is handed out until
    /// `commit` is called after every page was mapped.
    pub fn map_mmio(&self, phys_addr: u64, size: u64) -> (r: Result<MmioPlan, &'static str>)
        requires
            size + 0xFFF <= u64::MAX,
            self.current() + pages_for(size) * 0x1000 <= u64::MAX,
            phys_addr + pages_for(size) * 0x1000 <= u64::MAX,
        ensures
            self.current() + pages_for(size) * 0x1000 > self.upper() ==> (r matches Err(e) && e@
                == "MMIO region exhausted"@),
            self.current() + pages_for(size) * 0x1000 <= self.upper() ==> (r matches Ok(p) && p.virt
                == self.current() && p.phys == phys_addr && p.pages == pages_for(size)),
    {
        let pages_needed = (size + 0xFFF) / 0x1000;
        let total_size = pages_needed * 0x1000;
        if self.current + total_size > self.upper {
            return Err("MMIO region exhausted");
        }
        Ok(MmioPlan { virt: self.current, phys: phys_addr, pages: pages_needed })
    }

    /// Hands out the pages of a plan made on this window.
    pub fn commit(&mut self, plan: &MmioPlan)
        requires
            plan.virt == old(self).current(),
            old(self).current() + plan.pages * 0x1000 <= old(self).upper(),
        ensures
            final(self).current() == old(self).current() + plan.pages * 0x1000,
            final(self).lower() == old(self).lower(),
            final(self).upper() == old(self).upper(),
    {
        self.current = self.current + plan.pages * 0x1000;
    }

    /// Bytes left in the window.
    pub fn mmio_remaining(&self) -> (r: u64)
        ensures
            r == if self.upper() >= self.current() { self.upper() - self.current() } else { 0 },
    {
        self.upper.saturating_sub(self.current)
    }
}

} // verus!
