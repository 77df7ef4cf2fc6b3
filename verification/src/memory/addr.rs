use vstd::prelude::*;

verus! {

/// A physical address.
#[derive(Clone, Copy)]
pub struct PhysAddr(u64);

/// A virtual address.
#[derive(Clone, Copy)]
pub struct VirtAddr(u64);

/// The bit formula used to round `x` up to `align`.
pub open spec fn round_up(x: u64, align: u64) -> u64 {
    ((x + (align - 1)) as u64) & !((align - 1) as u64)
}

/// The bit formula used to round `x` down to `align`.
pub open spec fn round_down(x: u64, align: u64) -> u64 {
    x & !((align - 1) as u64)
}

/// `x` has none of the low bits of the mask `align - 1` set (for a power of
/// two this means `x` is a multiple of `align`).
pub open spec fn is_aligned(x: u64, align: u64) -> bool {
    x & ((align - 1) as u64) == 0
}

/// Rounding up gives an aligned value in `[x, x + align)`.
pub proof fn lemma_round_up(x: u64, align: u64)
    requires
        align >= 1,
        x + (align - 1) <= u64::MAX,
    ensures
        is_aligned(round_up(x, align), align),
        x <= round_up(x, align),
        round_up(x, align) < x + align,
{
    let m = (align - 1) as u64;
    let s = (x + m) as u64;
    assert((s & !m) & m == 0) by (bit_vector);
    assert(s & !m <= s) by (bit_vector);
    assert(s - (s & !m) <= m) by (bit_vector);
}

/// Rounding down gives an aligned value in `(x - align, x]`.
pub proof fn lemma_round_down(x: u64, align: u64)
    requires
        align >= 1,
    ensures
        is_aligned(round_down(x, align), align),
        round_down(x, align) <= x,
        x < round_down(x, align) + align,
{
    let m = (align - 1) as u64;
    assert((x & !m) & m == 0) by (bit_vector);
    assert(x & !m <= x) by (bit_vector);
    assert(x - (x & !m) <= m) by (bit_vector);
}

impl PhysAddr {
    pub closed spec fn view(self) -> u64 {
        self.0
    }

    pub fn new(addr: u64) -> (r: Self)
        ensures
            r@ == addr,
    {
        PhysAddr(addr)
    }

    pub fn as_u64(&self) -> (r: u64)
        ensures
            r == self@,
    {
        self.0
    }

    /// Rounds up to `align`: for a power of two, the least multiple of `align`
    /// at or above the address.
    pub fn align_up(&self, align: u64) -> (r: Self)
        requires
            align >= 1,
            self@ + (align - 1) <= u64::MAX,
        ensures
            r@ == round_up(self@, align),
            is_aligned(r@, align),
            self@ <= r@ < self@ + align,
    {
        proof { lemma_round_up(self.0, align); }
        PhysAddr((self.0 + (align - 1)) & !(align - 1))
    }

    /// Rounds down to `align`: for a power of two, the greatest multiple of
    /// `align` at or below the address.
    pub fn align_down(&self, align: u64) -> (r: Self)
        requires
            align >= 1,
        ensures
            r@ == round_down(self@, align),
            is_aligned(r@, align),
            r@ <= self@ < r@ + align,
    {
        proof { lemma_round_down(self.0, align); }
        PhysAddr(self.0 & !(align - 1))
    }
}

/// The 9-bit page-table index of `addr` whose lowest bit has weight `unit`.
pub open spec fn table_index(addr: u64, unit: int) -> int {
    (addr as int / unit) % 512
}

impl VirtAddr {
    pub closed spec fn view(self) -> u64 {
        self.0
    }

    pub fn new(addr: u64) -> (r: Self)
        ensures
            r@ == addr,
    {
        VirtAddr(addr)
    }

    pub fn as_u64(&self) -> (r: u64)
        ensures
            r == self@,
    {
        self.0
    }

    /// The offset of the address inside its 4 KiB page.
    pub fn page_offset(&self) -> (r: usize)
        ensures
            r as int == self@ % 4096,
    {
        let x = self.0;
        assert(x & 0xFFF == x % 4096) by (bit_vector);
        (x & 0xFFF) as usize
    }

    /// Index into the level-4 table (bits 39..47).
    pub fn p4_index(&self) -> (r: usize)
        ensures
            r as int == table_index(self@, 0x8000000000),
            r < 512,
    {
        let x = self.0;
        assert(((x >> 39u64) & 0x1FF) == (x / 0x8000000000) % 512) by (bit_vector);
        ((x >> 39) & 0x1FF) as usize
    }

    /// Index into the level-3 table (bits 30..38).
    pub fn p3_index(&self) -> (r: usize)
        ensures
            r as int == table_index(self@, 0x40000000),
            r < 512,
    {
        let x = self.0;
        assert(((x >> 30u64) & 0x1FF) == (x / 0x40000000) % 512) by (bit_vector);
        ((x >> 30) & 0x1FF) as usize
    }

    /// Index into the level-2 table (bits 21..29).
    pub fn p2_index(&self) -> (r: usize)
        ensures
            r as int == table_index(self@, 0x200000),
            r < 512,
    {
        let x = self.0;
        assert(((x >> 21u64) & 0x1FF) == (x / 0x200000) % 512) by (bit_vector);
        ((x >> 21) & 0x1FF) as usize
    }

    /// Index into the level-1 table (bits 12..20).
    pub fn p1_index(&self) -> (r: usize)
        ensures
            r as int == table_index(self@, 0x1000),
            r < 512,
    {
        let x = self.0;
        assert(((x >> 12u64) & 0x1FF) == (x / 0x1000) % 512) by (bit_vector);
        ((x >> 12) & 0x1FF) as usize
    }

    /// Rounds up to `align` (see `PhysAddr::align_up`).
    pub fn align_up(&self, align: u64) -> (r: Self)
        requires
            align >= 1,
            self@ + (align - 1) <= u64::MAX,
        ensures
            r@ == round_up(self@, align),
            is_aligned(r@, align),
            self@ <= r@ < self@ + align,
    {
        proof { lemma_round_up(self.0, align); }
        VirtAddr((self.0 + (align - 1)) & !(align - 1))
    }

    /// Rounds down to `align` (see `PhysAddr::align_down`).
    pub fn align_down(&self, align: u64) -> (r: Self)
        requires
            align >= 1,
        ensures
            r@ == round_down(self@, align),
            is_aligned(r@, align),
            r@ <= self@ < r@ + align,
    {
        proof { lemma_round_down(self.0, align); }
        VirtAddr(self.0 & !(align - 1))
    }
}

} // verus!
