use eucalypt::memory::addr::{PhysAddr, VirtAddr};
use eucalypt::memory::allocator::{heap_region, heap_regions_check, LinkAllocator, BLOCK_HEADER};
use eucalypt::memory::frame_allocator::{FrameAllocator, MemoryRegion, PAGE_SIZE};
use eucalypt::memory::hhdm::{phys_to_virt, virt_to_phys, HHDM_OFFSET};
use eucalypt::memory::mmio::MmioWindow;
use eucalypt::memory::paging::{PageTableEntry, NO_EXECUTE, PRESENT, WRITABLE};

#[test]
fn phys_addr_alignment() {
    let a = PhysAddr::new(0x1234);
    assert_eq!(a.as_u64(), 0x1234);
    assert_eq!(a.align_down(0x1000).as_u64(), 0x1000);
    assert_eq!(a.align_up(0x1000).as_u64(), 0x2000);
    let b = PhysAddr::new(0x3000);
    assert_eq!(b.align_up(0x1000).as_u64(), 0x3000);
    assert_eq!(b.align_down(0x1000).as_u64(), 0x3000);
}

#[test]
fn virt_addr_table_indices() {
    // 0xFFFF_8000_0020_1123: p4 256, p3 0, p2 1, p1 1, offset 0x123
    let v = VirtAddr::new(0xFFFF_8000_0020_1123);
    assert_eq!(v.p4_index(), 256);
    assert_eq!(v.p3_index(), 0);
    assert_eq!(v.p2_index(), 1);
    assert_eq!(v.p1_index(), 1);
    assert_eq!(v.page_offset(), 0x123);
    let w = VirtAddr::new(0x0000_7FFF_FFFF_F000);
    assert_eq!(w.p4_index(), 255);
    assert_eq!(w.p3_index(), 511);
    assert_eq!(w.p2_index(), 511);
    assert_eq!(w.p1_index(), 511);
    assert_eq!(w.page_offset(), 0);
}

#[test]
fn virt_addr_alignment() {
    let v = VirtAddr::new(0x5001);
    assert_eq!(v.align_up(0x1000).as_u64(), 0x6000);
    assert_eq!(v.align_down(0x1000).as_u64(), 0x5000);
}

#[test]
fn hhdm_round_trip() {
    let p: usize = 0x1234_5000;
    let v = phys_to_virt(p);
    assert_eq!(v as u64, 0x1234_5000u64 + HHDM_OFFSET);
    assert_eq!(virt_to_phys(v), p);
}

#[test]
fn page_table_entry_round_trip() {
    let mut e = PageTableEntry::new();
    assert!(!e.is_present());
    e.set_addr(PhysAddr::new(0x0012_3000), PRESENT | WRITABLE | NO_EXECUTE);
    assert!(e.is_present());
    assert_eq!(e.get_addr().as_u64(), 0x0012_3000);
    e.clear();
    assert!(!e.is_present());
    assert_eq!(e.get_addr().as_u64(), 0);
}

#[test]
fn page_table_entry_drops_low_address_bits() {
    let mut e = PageTableEntry::new();
    e.set_addr(PhysAddr::new(0x0012_3456), PRESENT);
    assert_eq!(e.get_addr().as_u64(), 0x0012_3000);
}

#[test]
fn frame_allocator_free_then_alloc() {
    let mut fa = FrameAllocator::new();
    assert!(fa.alloc_frame().is_none());
    fa.free_frame(PhysAddr::new(0x5000));
    fa.free_frame(PhysAddr::new(0x9000));
    assert_eq!(fa.free_count(), 2);
    assert_eq!(fa.alloc_frame().unwrap().as_u64(), 0x9000);
    assert_eq!(fa.free_count(), 1);
    assert_eq!(fa.alloc_frame().unwrap().as_u64(), 0x5000);
    assert!(fa.alloc_frame().is_none());
}

#[test]
fn frame_allocator_init_from_regions() {
    let regions = vec![
        MemoryRegion { base: 0x1000, length: 2 * PAGE_SIZE, usable: true },
        MemoryRegion { base: 0x10000, length: PAGE_SIZE, usable: false },
        MemoryRegion { base: 0x20000, length: PAGE_SIZE, usable: true },
    ];
    let mut fa = FrameAllocator::new();
    fa.init_frame_allocator(&regions);
    assert_eq!(fa.free_count(), 3);
    let mut got = Vec::new();
    while let Some(f) = fa.alloc_frame() {
        got.push(f.as_u64());
    }
    got.sort();
    assert_eq!(got, vec![0x1000, 0x2000, 0x20000]);
}

#[test]
fn heap_sbrk_moves_break() {
    let mut heap = LinkAllocator::new();
    assert_eq!(heap.sbrk(16), None);
    heap.init(0x10_0000, 0x1000);
    assert_eq!(heap.brk_current(), Some(0x10_0000));
    assert_eq!(heap.sbrk(0x100), Some(0x10_0000));
    assert_eq!(heap.brk_current(), Some(0x10_0100));
    assert_eq!(heap.sbrk(-0x100), Some(0x10_0100));
    assert_eq!(heap.brk_current(), Some(0x10_0000));
    assert_eq!(heap.sbrk(-1), None);
    assert_eq!(heap.sbrk(0x1001), None);
}

#[test]
fn heap_allocate_and_reuse() {
    let mut heap = LinkAllocator::new();
    heap.init(0x10_0000, 0x1000);
    let a = heap.allocate(32, 8).unwrap();
    assert_eq!(a, 0x10_0000 + BLOCK_HEADER);
    let b = heap.allocate(16, 8).unwrap();
    assert_eq!(b, 0x10_0000 + BLOCK_HEADER + 32 + BLOCK_HEADER);
    heap.dealloc(a);
    // a freed block large enough is handed out again
    let c = heap.allocate(20, 8).unwrap();
    assert_eq!(c, a);
    // nothing fits past the end of the heap
    assert!(heap.allocate(0x2000, 8).is_none());
}

#[test]
fn heap_without_region_refuses() {
    let mut heap = LinkAllocator::new();
    assert!(heap.allocate(8, 8).is_none());
    assert_eq!(heap.brk_current(), None);
}

#[test]
fn heap_region_takes_largest_usable() {
    let regions = vec![
        MemoryRegion { base: 0x1000, length: 0x10_0000, usable: true },
        MemoryRegion { base: 0x100_0000, length: 0x200_0000, usable: true },
        MemoryRegion { base: 0x400_0000, length: 0x800_0000, usable: false },
    ];
    // the bitmap covers frames up to 0xC00_0000: 0xC000 bits, 0x1800
    // bytes, one page and a half rounded to two pages
    assert_eq!(
        heap_region(&regions),
        Some((0x100_0000 + 0x2000 + 0xFFFF_8000_0000_0000, 0x200_0000 - 0x2000))
    );
    let small = vec![MemoryRegion { base: 0x1000, length: 0x10_0000, usable: true }];
    assert_eq!(heap_region(&small), None);
    assert!(heap_regions_check(&regions));
    assert!(heap_regions_check(&small));
    let too_high = vec![MemoryRegion { base: 0x4000_0000_0000, length: 0x1000, usable: true }];
    assert!(!heap_regions_check(&too_high));
    // a large usable region too small for the bitmap of all memory below 2^46
    let sparse = vec![
        MemoryRegion { base: 0x100_0000, length: 0x100_1000, usable: true },
        MemoryRegion { base: 0x3FFF_0000_0000, length: 0x1000, usable: false },
    ];
    assert!(!heap_regions_check(&sparse));
}

#[test]
fn init_allocator_places_heap() {
    let regions = vec![MemoryRegion { base: 0x100_0000, length: 0x200_0000, usable: true }];
    let mut heap = LinkAllocator::new();
    heap.init_allocator(&regions);
    // frames up to 0x300_0000: 0x3000 bits, 0x600 bytes, one page
    assert_eq!(heap.brk_current(), Some(0xFFFF_8000_0100_1000));
}

#[test]
fn mmio_window_hands_out_pages() {
    let mut w = MmioWindow::new();
    w.mmio_map_range(0xFFFF_8000_0000_0000, 0xFFFF_8000_0000_3000);
    assert_eq!(w.mmio_remaining(), 0x3000);
    let plan = w.map_mmio(0xFEE0_0000, 0x1000).unwrap();
    assert_eq!(plan.virt, 0xFFFF_8000_0000_0000);
    assert_eq!(plan.phys, 0xFEE0_0000);
    assert_eq!(plan.pages, 1);
    w.commit(&plan);
    assert_eq!(w.mmio_remaining(), 0x2000);
    let plan2 = w.map_mmio(0xFEC0_0000, 0x1001).unwrap();
    assert_eq!(plan2.pages, 2);
    assert_eq!(plan2.virt, 0xFFFF_8000_0000_1000);
    w.commit(&plan2);
    assert_eq!(w.map_mmio(0x1000, 1).err(), Some("MMIO region exhausted"));
}

#[test]
fn heap_allocations_are_aligned() {
    let mut heap = LinkAllocator::new();
    heap.init(0x10_0000, 0x1000);
    let a = heap.allocate(16, 32).unwrap();
    assert_eq!(a, 0x10_0020);
    assert_eq!(a % 32, 0);
    let b = heap.allocate(8, 64).unwrap();
    assert_eq!(b % 64, 0);
    assert_eq!(b, 0x10_0080);
    heap.dealloc(a);
    // the freed block's payload is not aligned to 64, so a new block is carved
    let c = heap.allocate(8, 64).unwrap();
    assert_eq!(c, 0x10_00C0);
    // but it serves a request it is aligned for
    assert_eq!(heap.allocate(8, 16), Some(a));
}

#[test]
fn heap_break_after_shrinking() {
    let mut heap = LinkAllocator::new();
    heap.init(0x10_0000, 0x1000);
    let a = heap.allocate(0x100, 8).unwrap();
    assert_eq!(a, 0x10_0000 + BLOCK_HEADER);
    assert_eq!(heap.sbrk(-0x80), Some(0x10_0000 + BLOCK_HEADER + 0x100));
    assert_eq!(heap.brk_current(), Some(0x10_0000 + BLOCK_HEADER + 0x80));
    // a new block is carved at the moved break
    assert_eq!(heap.allocate(8, 8), Some(0x10_0000 + 2 * BLOCK_HEADER + 0x80));
    assert_eq!(heap.brk_current(), Some(0x10_0000 + 2 * BLOCK_HEADER + 0x88));
}

#[test]
fn page_table_has_512_empty_entries() {
    let mut t = eucalypt::memory::paging::PageTable::new();
    assert_eq!(t.entries.len(), 512);
    assert!(t.entries.iter().all(|e| !e.is_present() && e.get_addr().as_u64() == 0));
    t.entries[3].set_addr(PhysAddr::new(0x5000), PRESENT | WRITABLE);
    assert!(t.entries[3].is_present());
    t.zero();
    assert!(t.entries.iter().all(|e| !e.is_present() && e.get_addr().as_u64() == 0));
}
