use eucalypt::apic::{
    apic_eoi, apic_software_enable, apic_timer_lvt, calibrate_apic_timer, calibration_timer_writes, enable_apic,
    get_apic_base, init_apic_timer, init_ioapic, ioapic_id, ioapic_mask_irq, ioapic_masked_entry, ioapic_set_irq,
    ioapic_set_irq_entry, ioapic_unmask_irq, ioapic_unmasked_entry, ioapic_version, pit_calibration_count,
    pit_channel2_enable, pit_expired, redtbl_entry, redtbl_halves, redtbl_registers, set_apic_base, write_ioapic_redtbl,
    ApicBases,
};
use eucalypt::gdt::{gdt_entry, gdt_entry_from_raw, gdt_init, gdt_pointer, gdt_tss_descriptor, Gdt, GdtEntry};
use eucalypt::idt::{idt_word_index, set_raw_idt_entry};
use eucalypt::memory::allocator::LinkAllocator;
use eucalypt::nvme::{
    create_sub_queue, cq_head_doorbell, doorbell_stride, nvme_base, sq_tail_doorbell, NvmeQueue,
};
use eucalypt::syscall::{FramebufferGeometry, Syscall, SyscallAction, SyscallHandler, ENOSYS};
use eucalypt::usb::{enable_slot_command, erst_entry, usb_map_address, xhci_mmio_base, xhci_needs_bar1};

#[test]
fn apic_base_msr_values() {
    assert_eq!(get_apic_base(0xFEE0_0900), 0xFEE0_0000);
    assert_eq!(set_apic_base(0xFEE0_0000), 0xFEE0_0800);
    assert_eq!(set_apic_base(0xFEE0_0ABC), 0xFEE0_0800);
    assert_eq!(enable_apic(true, 0xFEE0_0900, 0x0FF), (0xFEE0_0800, 0x1FF));
    assert_eq!(apic_software_enable(0x0F0), 0x1F0);
}

#[test]
fn apic_timer_register_writes() {
    assert_eq!(apic_timer_lvt(32), 0x2_0020);
    assert_eq!(init_apic_timer(32, 1000), [(0x3E0, 3), (0x320, 0x2_0020), (0x380, 1000)]);
    assert_eq!(apic_eoi(), (0xB0, 0));
    assert_eq!(calibration_timer_writes(), [(0x3E0, 3), (0x320, 0x1_0000), (0x380, u32::MAX)]);
}

#[test]
fn apic_register_addresses() {
    let mut bases = ApicBases::new();
    bases.set_apic_virt_base(0xFFFF_8000_FEE0_0000);
    bases.set_ioapic_virt_base(0xFFFF_8000_FEC0_0000);
    assert_eq!(bases.apic_register_address(0xB0), 0xFFFF_8000_FEE0_00B0);
    assert_eq!(bases.ioapic_register_addresses(), (0xFFFF_8000_FEC0_0000, 0xFFFF_8000_FEC0_0010));
    assert_eq!(bases.apic_virt_base, 0xFFFF_8000_FEE0_0000);
}

#[test]
fn ioapic_redirection_entries() {
    assert_eq!(redtbl_registers(1), (0x12, 0x13));
    assert_eq!(ioapic_set_irq_entry(33, 2, true, true), 0x0200_0000_0000_A021);
    assert_eq!(ioapic_set_irq_entry(33, 0, false, false), 33);
    assert_eq!(ioapic_set_irq(14, 33, 0, false, false), [(0x2C, 33), (0x2D, 0)]);
    assert_eq!(ioapic_set_irq(15, 34, 1, false, false), [(0x2E, 34), (0x2F, 0x0100_0000)]);
    assert_eq!(write_ioapic_redtbl(0, 0x0100_0000_0001_0020), [(0x10, 0x1_0020), (0x11, 0x0100_0000)]);
    assert_eq!(ioapic_mask_irq(1, 0x21, 0), [(0x12, 0x1_0021), (0x13, 0)]);
    assert_eq!(ioapic_unmask_irq(1, 0x1_0021, 0x0100_0000), [(0x12, 0x21), (0x13, 0x0100_0000)]);
    assert_eq!(redtbl_entry(0x21, 0x0100_0000), 0x0100_0000_0000_0021);
    assert_eq!(redtbl_halves(0x0100_0000_0000_0021), (0x21, 0x0100_0000));
}

#[test]
fn ioapic_mask_then_unmask_restores_entry() {
    let e = ioapic_set_irq_entry(40, 3, true, false);
    let masked = ioapic_masked_entry(e);
    assert_ne!(masked, e);
    assert_eq!(masked & 0x1_0000, 0x1_0000);
    assert_eq!(ioapic_unmasked_entry(masked), e);
}

#[test]
fn ioapic_identity_registers() {
    assert_eq!(init_ioapic(0x0017_0011), 24);
    assert_eq!(ioapic_version(0x0017_0011), (0x11, 0x17));
    assert_eq!(ioapic_id(0x0200_0000), 2);
    assert_eq!(ioapic_id(0xF200_0000), 2);
}

#[test]
fn pit_calibration_values() {
    assert_eq!(pit_calibration_count(), (11931, 155, 46));
    assert!(pit_expired(0x20));
    assert!(!pit_expired(0x1F));
    assert_eq!(pit_channel2_enable(0xFF), 0xFD);
    assert_eq!(pit_channel2_enable(0x00), 0x01);
}

#[test]
fn apic_timer_calibration() {
    // 10 000 ticks in 10 ms: 1 000 000 ticks a second, 10 000 per tick at 100 Hz.
    assert_eq!(calibrate_apic_timer(u32::MAX - 10_000, 100), 10_000);
    assert_eq!(calibrate_apic_timer(0, 1000), 429_496_729);
    assert_eq!(calibrate_apic_timer(u32::MAX, 100), 0);
}

#[test]
fn gdt_segment_descriptors() {
    let code = gdt_entry(0, 0xFFFFF, 0x9A, 0xAF);
    assert_eq!(
        code,
        GdtEntry { limit_low: 0xFFFF, base_low: 0, base_middle: 0, access: 0x9A, granularity: 0xAF, base_high: 0 }
    );
    let e = gdt_entry(0x1234_5678, 0x12345, 0x92, 0xC0);
    assert_eq!(
        e,
        GdtEntry {
            limit_low: 0x2345,
            base_low: 0x5678,
            base_middle: 0x34,
            access: 0x92,
            granularity: 0xC1,
            base_high: 0x12
        }
    );
    assert_eq!(gdt_entry_from_raw(0x00AF_9A00_0000_FFFF), code);
}

#[test]
fn gdt_system_descriptor_words() {
    let (low, high) = gdt_tss_descriptor(0xFFFF_8000_1234_5678, 103, 0x89, 0);
    assert_eq!(low, 0x1200_8934_5678_0067);
    assert_eq!(high, 0xFFFF_8000);
    assert_eq!(gdt_pointer(0x1000).limit, 71);
    assert_eq!(gdt_pointer(0x1000).base, 0x1000);
}

#[test]
fn gdt_kernel_table() {
    let gdt = gdt_init(0x1_2345_6780, 0x9000, 0xA000);
    assert_eq!(gdt.entries[0], gdt_entry(0, 0, 0, 0));
    assert_eq!(gdt.entries[1], gdt_entry(0, 0xFFFFF, 0x9A, 0xAF));
    assert_eq!(gdt.entries[2], gdt_entry(0, 0xFFFFF, 0x92, 0xCF));
    assert_eq!(gdt.entries[3].access, 0xFA);
    assert_eq!(gdt.entries[4].access, 0xF2);
    assert_eq!(
        gdt.entries[5],
        GdtEntry { limit_low: 0x67, base_low: 0x6780, base_middle: 0x45, access: 0x89, granularity: 0, base_high: 0x23 }
    );
    assert_eq!(
        gdt.entries[6],
        GdtEntry { limit_low: 1, base_low: 0, base_middle: 0, access: 0, granularity: 0, base_high: 0 }
    );
    assert_eq!(gdt.tss.rsp0, 0x9000);
    assert_eq!(gdt.tss.ist1, 0xA000);
    assert_eq!(gdt.tss.iopb_offset, 104);
    let mut g = Gdt::new();
    g.write_tss_rsp0(0x7000);
    assert_eq!(g.tss.rsp0, 0x7000);
    g.gdt_set_entry(2, 0, 0xFFFFF, 0x92, 0xCF);
    assert_eq!(g.entries[2].granularity, 0xCF);
    g.gdt_set_tss(5, 0x2000, 103, 0x89, 0);
    assert_eq!(g.entries[5].base_low, 0x2000);
    assert_eq!(g.entries[6], gdt_entry(0, 0, 0, 0));
}

#[test]
fn idt_descriptor_words() {
    let (low, high) = set_raw_idt_entry(0xFFFF_FFFF_8000_1234);
    assert_eq!(low, 0x8000_8E00_0008_1234);
    assert_eq!(high, 0xFFFF_FFFF);
    assert_eq!(idt_word_index(32), 64);
    assert_eq!(idt_word_index(0), 0);
}

#[test]
fn nvme_registers_and_doorbells() {
    assert_eq!(nvme_base(0xFEBF_2004, 0x1), 0x1_FEBF_2000);
    assert_eq!(doorbell_stride(0x0000_0003_0000_00FF), 3);
    assert_eq!(doorbell_stride(0x0000_00F0_FFFF_FFFF), 0);
    assert_eq!(sq_tail_doorbell(0, 0), 0x1000);
    assert_eq!(cq_head_doorbell(0, 0), 0x1004);
    assert_eq!(sq_tail_doorbell(1, 0), 0x1008);
    assert_eq!(cq_head_doorbell(1, 0), 0x100C);
    assert_eq!(sq_tail_doorbell(1, 1), 0x1010);
}

#[test]
fn nvme_create_submission_queue() {
    let mut admin = NvmeQueue { sq: 0x10_0000, cq: 0x11_0000, sq_tail: 63, cq_head: 0, qid: 0 };
    let io = NvmeQueue { sq: 0x1_2000_3000, cq: 0x1_2000_4000, sq_tail: 0, cq_head: 0, qid: 1 };
    let sub = create_sub_queue(&mut admin, &io, 0);
    assert_eq!(sub.slot_offset, 63 * 64);
    assert_eq!(sub.words, [0x1_0001, 0, 0, 0, 0, 0, 0x2000_3000, 1, 0, 0, 0x3F_0001, 0x1_0001]);
    assert_eq!(admin.sq_tail, 0);
    assert_eq!(admin.sq, 0x10_0000);
    assert_eq!(sub.doorbell, 0x1000);
    assert_eq!(sub.doorbell_value, 0);
    let sub2 = create_sub_queue(&mut admin, &io, 0x0000_0001_0000_0000);
    assert_eq!(sub2.slot_offset, 0);
    assert_eq!(sub2.doorbell_value, 1);
    assert_eq!(sub2.doorbell, 0x1000);
}

#[test]
fn xhci_register_base() {
    assert!(xhci_needs_bar1(0x4));
    assert!(!xhci_needs_bar1(0x0));
    assert!(!xhci_needs_bar1(0x5));
    assert_eq!(xhci_mmio_base(0xFEA0_0004, 0x1), Some(0x1_FEA0_0000));
    assert_eq!(xhci_mmio_base(0xFEA0_0000, 0x7), Some(0xFEA0_0000));
    assert_eq!(xhci_mmio_base(0xC001, 0), None);
    assert_eq!(usb_map_address(0x1000), 0xFFFF_8000_0000_1000);
}

#[test]
fn xhci_command_and_event_ring() {
    assert_eq!(enable_slot_command(), [0, 0, 0, 0x2401]);
    let e = erst_entry(0x5000);
    assert_eq!(e.ring_segment_base, 0x5000);
    assert_eq!(e.ring_segment_size, 256);
    assert_eq!(e.reserved, 0);
}

fn handler() -> SyscallHandler {
    SyscallHandler::new(Some(FramebufferGeometry { width: 640, height: 480, pitch: 2560, bpp: 32 }))
}

#[test]
fn syscall_numbers() {
    assert_eq!(Syscall::from_u64(0), Some(Syscall::PlotPoint));
    assert_eq!(Syscall::from_u64(1), Some(Syscall::FramebufferInfo));
    assert_eq!(Syscall::from_u64(2), Some(Syscall::Print));
    assert_eq!(Syscall::from_u64(5), Some(Syscall::Sbrk));
    assert_eq!(Syscall::from_u64(3), None);
}

#[test]
fn syscall_plot_point() {
    let h = handler();
    assert_eq!(h.plot_point(10, 2, 0xFF00FF), (0, SyscallAction::Plot { offset: 2 * 2560 + 40, color: 0xFF00FF }));
    assert_eq!(h.plot_point(-1, 0, 1), (-1, SyscallAction::Nothing));
    assert_eq!(h.plot_point(640, 0, 1), (-1, SyscallAction::Nothing));
    assert_eq!(h.plot_point(0, 480, 1), (-1, SyscallAction::Nothing));
    let none = SyscallHandler::new(None);
    assert_eq!(none.plot_point(1, 1, 1), (0, SyscallAction::Nothing));
}

#[test]
fn syscall_framebuffer_info_and_print() {
    let h = handler();
    assert_eq!(h.framebuffer_info(0), 640);
    assert_eq!(h.framebuffer_info(1), 480);
    assert_eq!(h.framebuffer_info(2), 2560);
    assert_eq!(h.framebuffer_info(3), 32);
    assert_eq!(h.framebuffer_info(9), 0);
    assert_eq!(SyscallHandler::new(None).framebuffer_info(0), 0);
    assert_eq!(h.print(0x1000, 5), (0, SyscallAction::Print { ptr: 0x1000, len: 5 }));
    assert_eq!(h.print(0, 5), (0, SyscallAction::Nothing));
    assert_eq!(h.print(0x1000, 0), (0, SyscallAction::Nothing));
}

#[test]
fn syscall_dispatch() {
    let h = handler();
    let mut heap = LinkAllocator::new();
    assert_eq!(h.handle(&mut heap, 7, 0, 0, 0), (ENOSYS, SyscallAction::Nothing));
    assert_eq!(h.handle(&mut heap, 5, 16, 0, 0), (-1, SyscallAction::Nothing));
    heap.init(0x40_0000, 0x1000);
    assert_eq!(h.handle(&mut heap, 5, 0x100, 0, 0), (0x40_0000, SyscallAction::Nothing));
    assert_eq!(h.sbrk(&mut heap, 0), 0x40_0100);
    assert_eq!(h.sbrk(&mut heap, 0x1000), -1);
    assert_eq!(h.handle(&mut heap, 1, 1, 0, 0), (480, SyscallAction::Nothing));
    assert_eq!(h.handle(&mut heap, 2, 0x2000, 3, 0), (0, SyscallAction::Print { ptr: 0x2000, len: 3 }));
    assert_eq!(h.handle(&mut heap, 0, 1, 1, 7), (0, SyscallAction::Plot { offset: 2564, color: 7 }));
}
