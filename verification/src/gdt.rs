//! The global descriptor table: code and data segment descriptors, the
//! 16-byte task state segment descriptor, the table pointer loaded with
//! `lgdt`, and the task state segment with its stack pointers. Loading the
//! table and the task register is the caller's.
use vstd::prelude::*;

verus! {

pub const GDT_ENTRIES: usize = 9;

/// The size of a descriptor in bytes.
pub const GDT_ENTRY_SIZE: usize = 8;

/// The size of the task state segment in bytes.
pub const TSS_SIZE: usize = 104;

/// The size of each kernel stack the task state segment points at.
pub const STACK_SIZE: u64 = 4096 * 4;

/// The index of the task state segment descriptor (selector 0x28).
pub const TSS_INDEX: usize = 5;

/// One 8-byte segment descriptor, field by field.
#[derive(Debug, Clone, Copy, PartialEq, Eq, Structural)]
pub struct GdtEntry {
    pub limit_low: u16,
    pub base_low: u16,
    pub base_middle: u8,
    pub access: u8,
    pub granularity: u8,
    pub base_high: u8,
}

pub open spec fn zero_entry() -> GdtEntry {
    GdtEntry { limit_low: 0, base_low: 0, base_middle: 0, access: 0, granularity: 0, base_high: 0 }
}

/// The descriptor of a segment at `base` with the 20-bit `limit`, the
/// access byte `access` and the flags in the high nibble of `granularity`.
pub open spec fn segment_entry(base: u32, limit: u32, access: u8, granularity: u8) -> GdtEntry {
    GdtEntry {
        limit_low: (limit & 0xFFFF) as u16,
        base_low: (base & 0xFFFF) as u16,
        base_middle: ((base >> 16u32) & 0xFF) as u8,
        access,
        granularity: (((limit >> 16u32) & 0x0F) as u8) | (granularity & 0xF0),
        base_high: ((base >> 24u32) & 0xFF) as u8,
    }
}

pub fn gdt_entry(base: u32, limit: u32, access: u8, granularity: u8) -> (r: GdtEntry)
    ensures
        r == segment_entry(base, limit, access, granularity),
{
    GdtEntry {
        limit_low: (limit & 0xFFFF) as u16,
        base_low: (base & 0xFFFF) as u16,
        base_middle: ((base >> 16) & 0xFF) as u8,
        access,
        granularity: (((limit >> 16) & 0x0F) as u8) | (granularity & 0xF0),
        base_high: ((base >> 24) & 0xFF) as u8,
    }
}

/// The descriptor whose eight bytes are the little-endian bytes of `raw`.
pub open spec fn entry_from_raw(raw: u64) -> GdtEntry {
    GdtEntry {
        limit_low: (raw & 0xFFFF) as u16,
        base_low: ((raw >> 16u64) & 0xFFFF) as u16,
        base_middle: ((raw >> 32u64) & 0xFF) as u8,
        access: ((raw >> 40u64) & 0xFF) as u8,
        granularity: ((raw >> 48u64) & 0xFF) as u8,
        base_high: (raw >> 56u64) as u8,
    }
}

pub fn gdt_entry_from_raw(raw: u64) -> (r: GdtEntry)
    ensures
        r == entry_from_raw(raw),
{
    GdtEntry {
        limit_low: (raw & 0xFFFF) as u16,
        base_low: ((raw >> 16) & 0xFFFF) as u16,
        base_middle: ((raw >> 32) & 0xFF) as u8,
        access: ((raw >> 40) & 0xFF) as u8,
        granularity: ((raw >> 48) & 0xFF) as u8,
        base_high: (raw >> 56) as u8,
    }
}

/// The low eight bytes of a system segment descriptor at `base`.
pub open spec fn tss_desc_low(base: u64, limit: u32, access: u8, granularity: u8) -> u64 {
    ((limit & 0xFFFF) as u64) | ((((limit >> 16u32) & 0x0F) as u64) << 48u64) | (((base & 0xFFFF) as u64)
        << 16u64) | ((((base >> 16u64) & 0xFF) as u64) << 32u64) | ((((base >> 24u64) & 0xFF) as u64) << 56u64)
        | ((access as u64) << 40u64) | ((((granularity >> 4u8) & 0x0F) as u64) << 52u64)
}

/// The high eight bytes of a system segment descriptor at `base`: the
/// upper half of the address.
pub open spec fn tss_desc_high(base: u64) -> u64 {
    (base >> 32u64) & 0xFFFFFFFF
}

pub fn gdt_tss_descriptor(base: u64, limit: u32, access: u8, granularity: u8) -> (r: (u64, u64))
    ensures
        r.0 == tss_desc_low(base, limit, access, granularity),
        r.1 == tss_desc_high(base),
{
    let mut desc_low: u64 = 0;
    desc_low = desc_low | (limit & 0xFFFF) as u64;
    desc_low = desc_low | (((limit >> 16) & 0x0F) as u64) << 48;
    desc_low = desc_low | ((base & 0xFFFF) as u64) << 16;
    desc_low = desc_low | (((base >> 16) & 0xFF) as u64) << 32;
    desc_low = desc_low | (((base >> 24) & 0xFF) as u64) << 56;
    desc_low = desc_low | (access as u64) << 40;
    desc_low = desc_low | (((granularity >> 4) & 0x0F) as u64) << 52;
    let desc_high: u64 = (base >> 32) & 0xFFFFFFFF;
    proof {
        lemma_or_zero(tss_desc_low(base, limit, access, granularity), limit, base, access, granularity);
    }
    (desc_low, desc_high)
}

proof fn lemma_or_zero(x: u64, limit: u32, base: u64, access: u8, granularity: u8)
    requires
        x == tss_desc_low(base, limit, access, granularity),
    ensures
        (0u64 | ((limit & 0xFFFF) as u64) | ((((limit >> 16u32) & 0x0F) as u64) << 48u64) | (((base & 0xFFFF) as u64)
            << 16u64) | ((((base >> 16u64) & 0xFF) as u64) << 32u64) | ((((base >> 24u64) & 0xFF) as u64) << 56u64)
            | ((access as u64) << 40u64) | ((((granularity >> 4u8) & 0x0F) as u64) << 52u64)) == x,
{
    let a = ((limit & 0xFFFF) as u64);
    assert(0u64 | a == a) by (bit_vector);
}

/// A system segment descriptor gives back the base address, limit and
/// access byte it was made from, for a limit of at most 20 bits.
pub proof fn law_tss_descriptor_fields(base: u64, limit: u32, access: u8, granularity: u8)
    requires
        limit < 0x100000,
    ensures
        ({
            let lo = tss_desc_low(base, limit, access, granularity);
            let hi = tss_desc_high(base);
            &&& ((lo >> 16u64) & 0xFFFF) | (((lo >> 32u64) & 0xFF) << 16u64) | (((lo >> 56u64) & 0xFF) << 24u64) | (hi
                << 32u64) == base
            &&& (lo & 0xFFFF) | (((lo >> 48u64) & 0x0F) << 16u64) == limit
            &&& (lo >> 40u64) & 0xFF == access
        }),
{
    let (l, a, g) = (limit as u64, access as u64, granularity as u64);
    assert({
        let lo = (l & 0xFFFF) | (((l >> 16u64) & 0x0F) << 48u64) | ((base & 0xFFFF) << 16u64) | (((base >> 16u64)
            & 0xFF) << 32u64) | (((base >> 24u64) & 0xFF) << 56u64) | (a << 40u64) | (((g >> 4u64) & 0x0F) << 52u64);
        let hi = (base >> 32u64) & 0xFFFFFFFF;
        &&& ((lo >> 16u64) & 0xFFFF) | (((lo >> 32u64) & 0xFF) << 16u64) | (((lo >> 56u64) & 0xFF) << 24u64) | (hi
            << 32u64) == base
        &&& (lo & 0xFFFF) | (((lo >> 48u64) & 0x0F) << 16u64) == l
        &&& (lo >> 40u64) & 0xFF == a
    }) by (bit_vector)
        requires l < 0x100000, a < 0x100, g < 0x100;
    assert(tss_desc_low(base, limit, access, granularity) == (l & 0xFFFF) | (((l >> 16u64) & 0x0F) << 48u64) | ((
    base & 0xFFFF) << 16u64) | (((base >> 16u64) & 0xFF) << 32u64) | (((base >> 24u64) & 0xFF) << 56u64) | (a
        << 40u64) | (((g >> 4u64) & 0x0F) << 52u64)) by (bit_vector)
        requires l == limit as u64, a == access as u64, g == granularity as u64;
}

/// The operand of `lgdt`.
#[derive(Debug, Clone, Copy, PartialEq, Eq, Structural)]
pub struct GdtPtr {
    pub limit: u16,
    pub base: u64,
}

/// The task state segment: the stack pointers the CPU switches to.
#[derive(Debug, Clone, Copy, PartialEq, Eq, Structural)]
pub struct Tss {
    pub rsp0: u64,
    pub rsp1: u64,
    pub rsp2: u64,
    pub ist1: u64,
    pub ist2: u64,
    pub ist3: u64,
    pub ist4: u64,
    pub ist5: u64,
    pub ist6: u64,
    pub ist7: u64,
    pub iopb_offset: u16,
}

/// The table, with its task state segment.
pub struct Gdt {
    pub entries: [GdtEntry; GDT_ENTRIES],
    pub tss: Tss,
}

impl Gdt {
    /// An all-zero table and task state segment.
    pub fn new() -> (r: Self)
        ensures
            forall|i: int| 0 <= i < GDT_ENTRIES ==> r.entries@[i] == zero_entry(),
            r.tss == (Tss {
                rsp0: 0,
                rsp1: 0,
                rsp2: 0,
                ist1: 0,
                ist2: 0,
                ist3: 0,
                ist4: 0,
                ist5: 0,
                ist6: 0,
                ist7: 0,
                iopb_offset: 0,
            }),
    {
        let z = GdtEntry { limit_low: 0, base_low: 0, base_middle: 0, access: 0, granularity: 0, base_high: 0 };
        Gdt {
            entries: [z, z, z, z, z, z, z, z, z],
            tss: Tss {
                rsp0: 0,
                rsp1: 0,
                rsp2: 0,
                ist1: 0,
                ist2: 0,
                ist3: 0,
                ist4: 0,
                ist5: 0,
                ist6: 0,
                ist7: 0,
                iopb_offset: 0,
            },
        }
    }

    /// Sets descriptor `index` to a segment at `base` with `limit`.
    pub fn gdt_set_entry(&mut self, index: usize, base: u32, limit: u32, access: u8, granularity: u8)
        requires
            index < GDT_ENTRIES,
        ensures
            final(self).entries@ == old(self).entries@.update(
                index as int,
                segment_entry(base, limit, access, granularity),
            ),
            final(self).tss == old(self).tss,
    {
        self.entries[index] = gdt_entry(base, limit, access, granularity);
    }

    /// Writes the 16-byte system descriptor of a task state segment at
    /// `base` into descriptors `index` and `index + 1`.
    pub fn gdt_set_tss(&mut self, index: usize, base: u64, limit: u32, access: u8, granularity: u8)
        requires
            index + 1 < GDT_ENTRIES,
        ensures
            final(self).entries@ == old(self).entries@.update(
                index as int,
                entry_from_raw(tss_desc_low(base, limit, access, granularity)),
            ).update(index + 1, entry_from_raw(tss_desc_high(base))),
            final(self).tss == old(self).tss,
    {
        let (low, high) = gdt_tss_descriptor(base, limit, access, granularity);
        self.entries[index] = gdt_entry_from_raw(low);
        self.entries[index + 1] = gdt_entry_from_raw(high);
    }

    /// Sets the stack the CPU switches to on entry to ring 0.
    pub fn write_tss_rsp0(&mut self, rsp0: u64)
        ensures
            final(self).tss == (Tss { rsp0, ..old(self).tss }),
            final(self).entries@ == old(self).entries@,
    {
        self.tss.rsp0 = rsp0;
    }
}

/// The table pointer for a table at `base`.
pub fn gdt_pointer(base: u64) -> (r: GdtPtr)
    ensures
        r.limit == GDT_ENTRY_SIZE * GDT_ENTRIES - 1,
        r.base == base,
{
    GdtPtr { limit: (GDT_ENTRY_SIZE * GDT_ENTRIES - 1) as u16, base }
}

/// The table the kernel runs with: the null descriptor, kernel code and
/// data, user code and data, and the task state segment at `tss_addr`
/// whose ring-0 stack and double-fault stack end at `kernel_stack_top` and
/// `ist_stack_top`.
pub fn gdt_init(tss_addr: u64, kernel_stack_top: u64, ist_stack_top: u64) -> (r: Gdt)
    ensures
        r.entries@[0] == segment_entry(0, 0, 0, 0),
        r.entries@[1] == segment_entry(0, 0xFFFFF, 0x9A, 0xAF),
        r.entries@[2] == segment_entry(0, 0xFFFFF, 0x92, 0xCF),
        r.entries@[3] == segment_entry(0, 0xFFFFF, 0xFA, 0xAF),
        r.entries@[4] == segment_entry(0, 0xFFFFF, 0xF2, 0xCF),
        r.entries@[5] == entry_from_raw(tss_desc_low(tss_addr, (TSS_SIZE - 1) as u32, 0x89, 0x00)),
        r.entries@[6] == entry_from_raw(tss_desc_high(tss_addr)),
        r.entries@[7] == zero_entry(),
        r.entries@[8] == zero_entry(),
        r.tss.rsp0 == kernel_stack_top,
        r.tss.ist1 == ist_stack_top,
        r.tss.iopb_offset == TSS_SIZE,
        r.tss.rsp1 == 0 && r.tss.rsp2 == 0,
        r.tss.ist2 == 0 && r.tss.ist3 == 0 && r.tss.ist4 == 0 && r.tss.ist5 == 0 && r.tss.ist6 == 0 && r.tss.ist7
            == 0,
{
    let mut gdt = Gdt::new();
    gdt.gdt_set_entry(0, 0, 0, 0, 0);
    gdt.gdt_set_entry(1, 0, 0xFFFFF, 0x9A, 0xAF);
    gdt.gdt_set_entry(2, 0, 0xFFFFF, 0x92, 0xCF);
    gdt.gdt_set_entry(3, 0, 0xFFFFF, 0xFA, 0xAF);
    gdt.gdt_set_entry(4, 0, 0xFFFFF, 0xF2, 0xCF);
    gdt.tss.rsp0 = kernel_stack_top;
    gdt.tss.ist1 = ist_stack_top;
    gdt.tss.iopb_offset = TSS_SIZE as u16;
    gdt.gdt_set_tss(TSS_INDEX, tss_addr, (TSS_SIZE - 1) as u32, 0x89, 0x00);
    gdt
}

} // verus!
