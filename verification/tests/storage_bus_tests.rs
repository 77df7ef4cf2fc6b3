use eucalypt::ahci::{
    abar_base, ahci_identify, ahci_identify_setup, ahci_read, ahci_write, build_fis, check_type, cmd_running,
    command_succeeded, find_cmdslot, fis_running, ghc_enable_ahci, identify_sector_count, is_drive, issue_bit,
    join_addr, poll_step, port_implemented, rebased_header, sectors_to_bytes, split_addr, start_cmd_values,
    stop_cmd_value, stop_fis_value, AhciDrive, AhciDrives, FisRegH2D, HbaPort, PollOutcome, AHCI_DEV_NULL,
    AHCI_DEV_PM, AHCI_DEV_SATA, AHCI_DEV_SATAPI, AHCI_DEV_SEMB, ATA_CMD_IDENTIFY, ATA_CMD_READ_DMA_EX,
    ATA_CMD_WRITE_DMA_EX, HBA_PORT_SIG_ATA, HBA_PORT_SIG_ATAPI, HBA_PORT_SIG_PM, HBA_PORT_SIG_SEMB,
};
use eucalypt::pci::{
    device_present, get_device_id, get_vendor_id, is_multifunction, is_pci_bridge, pci_bar_offset,
    pci_config_address, pci_config_read_byte, pci_config_read_word, pci_config_write_byte, pci_config_write_word,
    pci_disable_bus_master, pci_enable_bus_master, pci_enable_io_space, pci_enable_memory_space, pci_get_bar_size,
    pci_get_interrupt_line, pci_get_interrupt_pin, pci_read_byte, pci_read_word, PCIDevice, PciRegistry,
};
use eucalypt::pci_scan::{
    check_all_buses, check_bus, check_device, pci_config_read_dword, pci_config_write_dword, pci_read_bar,
    pci_read_dword, pci_write_bar, PciScan,
};

fn zero_port() -> HbaPort {
    HbaPort {
        clbl: 0,
        clbu: 0,
        fbl: 0,
        fbu: 0,
        is: 0,
        ie: 0,
        cmd: 0,
        tfd: 0,
        sig: 0,
        ssts: 0,
        sctl: 0,
        serr: 0,
        sact: 0,
        ci: 0,
        sntf: 0,
        fbs: 0,
    }
}

#[test]
fn config_address_layout() {
    assert_eq!(pci_config_address(0, 3, 0, 0x10), 0x8000_1810);
    assert_eq!(pci_config_address(1, 2, 3, 0x3E), 0x8001_133C);
    assert_eq!(pci_config_address(0, 0, 0, 0), 0x8000_0000);
    let r = pci_config_read_dword(1, 2, 3, 0x3E);
    assert_eq!(r.address_port, 0xCF8);
    assert_eq!(r.data_port, 0xCFC);
    assert_eq!(r.address, 0x8001_133C);
    assert_eq!(pci_read_dword(1, 2, 3, 0x3E), r);
    let w = pci_config_write_dword(0, 1, 0, 0x04, 0x0000_0007);
    assert_eq!(w.address, 0x8000_0804);
    assert_eq!(w.value, 7);
}

#[test]
fn config_words_and_bytes() {
    let d: u32 = 0x1234_ABCD;
    assert_eq!(pci_config_read_word(d, 0), 0xABCD);
    assert_eq!(pci_config_read_word(d, 2), 0x1234);
    assert_eq!(pci_read_word(d, 2), 0x1234);
    assert_eq!(pci_config_read_byte(d, 0), 0xCD);
    assert_eq!(pci_config_read_byte(d, 1), 0xAB);
    assert_eq!(pci_config_read_byte(d, 2), 0x34);
    assert_eq!(pci_config_read_byte(d, 3), 0x12);
    assert_eq!(pci_read_byte(d, 0x3F), 0x12);
    assert_eq!(get_vendor_id(0x1237_8086), 0x8086);
    assert_eq!(get_device_id(0x1237_8086), 0x1237);
    assert_eq!(pci_get_interrupt_line(0x0000_010B), 0x0B);
    assert_eq!(pci_get_interrupt_pin(0x0000_010B), 0x01);
}

#[test]
fn config_writes_keep_other_lanes() {
    let d: u32 = 0x1234_ABCD;
    assert_eq!(pci_config_write_word(d, 0, 0x5555), 0x1234_5555);
    assert_eq!(pci_config_write_word(d, 2, 0x5555), 0x5555_ABCD);
    assert_eq!(pci_config_write_byte(d, 0, 0xEE), 0x1234_ABEE);
    assert_eq!(pci_config_write_byte(d, 1, 0xEE), 0x1234_EECD);
    assert_eq!(pci_config_write_byte(d, 2, 0xEE), 0x12EE_ABCD);
    assert_eq!(pci_config_write_byte(d, 3, 0xEE), 0xEE34_ABCD);
}

#[test]
fn bars_and_command_bits() {
    assert_eq!(pci_bar_offset(0), 0x10);
    assert_eq!(pci_bar_offset(5), 0x24);
    // A 16 KiB memory BAR reads back 0xFFFF_C000 (plus its flag bits).
    assert_eq!(pci_get_bar_size(0xFEBF_0000, 0xFFFF_C004), 0x4000);
    // A 32-byte I/O BAR.
    assert_eq!(pci_get_bar_size(0xC001, 0xFFFF_FFE1), 0x20);
    assert_eq!(pci_read_bar(0, 3, 0, 5).address, 0x8000_1824);
    let w = pci_write_bar(0, 3, 0, 0, 0xFFFF_FFFF);
    assert_eq!(w.address, 0x8000_1810);
    assert_eq!(w.value, 0xFFFF_FFFF);
    assert_eq!(pci_enable_bus_master(0x0003), 0x0007);
    assert_eq!(pci_disable_bus_master(0x0007), 0x0003);
    assert_eq!(pci_enable_memory_space(0x0000), 0x0002);
    assert_eq!(pci_enable_io_space(0x0004), 0x0005);
    assert!(device_present(0x8086));
    assert!(!device_present(0xFFFF));
    assert!(is_multifunction(0x80));
    assert!(!is_multifunction(0x00));
    assert!(is_pci_bridge(0x06, 0x04));
    assert!(!is_pci_bridge(0x06, 0x00));
}

fn device(bus: u8, dev: u8, func: u8, vendor: u16, id: u16, class: u8, sub: u8, prog_if: u8) -> PCIDevice {
    let mut d = PCIDevice::new();
    d.bus = bus;
    d.device = dev;
    d.function = func;
    d.vendor_id = vendor;
    d.device_id = id;
    d.class_code = class;
    d.subclass = sub;
    d.prog_if = prog_if;
    d
}

#[test]
fn registry_finds_first_match() {
    let mut reg = PciRegistry::new();
    assert_eq!(reg.pci_get_device_count(), 0);
    assert!(reg.pci_find_ahci_controller().is_none());
    reg.pci_add_device(device(0, 0, 0, 0x8086, 0x1237, 0x06, 0x00, 0x00));
    reg.pci_add_device(device(0, 2, 0, 0x8086, 0x2922, 0x01, 0x06, 0x01));
    reg.pci_add_device(device(0, 3, 0, 0x1B36, 0x0010, 0x01, 0x06, 0x02));
    reg.pci_add_device(device(0, 4, 0, 0x1B36, 0x000D, 0x0C, 0x03, 0x30));
    reg.pci_add_device(device(0, 5, 0, 0x8086, 0x2922, 0x01, 0x06, 0x01));
    assert_eq!(reg.pci_get_device_count(), 5);
    assert_eq!(reg.pci_get_all_devices().len(), 5);
    let ahci = reg.pci_find_ahci_controller().unwrap();
    assert_eq!(ahci.device, 2);
    let nvme = reg.pci_find_nvme_controller().unwrap();
    assert_eq!(nvme.device, 3);
    let xhci = reg.pci_find_xhci_controller().unwrap();
    assert_eq!(xhci.device, 4);
    assert_eq!(reg.pci_find_device(0x8086, 0x2922).unwrap().device, 2);
    assert!(reg.pci_find_device(0x10EC, 0x8139).is_none());
    assert_eq!(reg.pci_find_class(0x06, 0x00).unwrap().device, 0);
    assert_eq!(reg.pci_find_class_prog_if(0x01, 0x06, 0x02).unwrap().vendor_id, 0x1B36);
}

#[test]
fn registry_stops_at_capacity() {
    let mut reg = PciRegistry::new();
    let mut i: u32 = 0;
    while i < 300 {
        reg.pci_add_device(device(0, (i % 32) as u8, 0, 0x1234, i as u16, 0x02, 0x00, 0x00));
        i += 1;
    }
    assert_eq!(reg.pci_get_device_count(), 256);
    assert_eq!(reg.pci_get_all_devices()[255].device_id, 255);
    assert!(reg.pci_find_device(0x1234, 256).is_none());
}

/// A small machine: bus 0 holds a host bridge (0:0.0), a multi-function
/// device with an AHCI controller at function 0 and an NVMe controller at
/// function 2 (0:1.x), and a PCI-to-PCI bridge (0:3.0) to bus 1, which
/// holds an xHCI controller (1:0.0).
fn config_space(bus: u8, dev: u8, func: u8, offset: u8) -> u32 {
    let off = offset & 0xFC;
    let f = |vendor: u32, id: u32, class: u32, sub: u32, pi: u32, header: u32, line: u32, bar0: u32, dword18: u32| -> u32 {
        match off {
            0x00 => (id << 16) | vendor,
            0x08 => (class << 24) | (sub << 16) | (pi << 8) | 0x01,
            0x0C => header << 16,
            0x10 => bar0,
            0x18 => dword18,
            0x3C => 0x0100 | line,
            _ => 0,
        }
    };
    match (bus, dev, func) {
        (0, 0, 0) => f(0x8086, 0x1237, 0x06, 0x00, 0x00, 0x00, 0x00, 0, 0),
        (0, 1, 0) => f(0x8086, 0x2922, 0x01, 0x06, 0x01, 0x80, 0x0B, 0xFEBF_1000, 0),
        (0, 1, 2) => f(0x1B36, 0x0010, 0x01, 0x06, 0x02, 0x80, 0x0A, 0xFEBF_2004, 0),
        (0, 3, 0) => f(0x1B36, 0x0001, 0x06, 0x04, 0x00, 0x01, 0x00, 0, 0x0001_0100),
        (1, 0, 0) => f(0x1B36, 0x000D, 0x0C, 0x03, 0x30, 0x00, 0x05, 0xFEA0_0004, 0),
        _ => 0xFFFF_FFFF,
    }
}

fn run_scan(mut scan: PciScan) -> PciScan {
    let mut reads = 0;
    while let Some((bus, dev, func, offset)) = scan.next_read() {
        scan.step(config_space(bus, dev, func, offset));
        reads += 1;
        assert!(reads < 10_000);
    }
    scan
}

#[test]
fn scan_walks_buses_depth_first() {
    let scan = run_scan(check_all_buses());
    let devs = scan.registry.pci_get_all_devices();
    let ids: Vec<(u8, u8, u8)> = devs.iter().map(|d| (d.bus, d.device, d.function)).collect();
    assert_eq!(ids, vec![(0, 0, 0), (0, 1, 0), (0, 1, 2), (0, 3, 0), (1, 0, 0)]);
    let ahci = scan.registry.pci_find_ahci_controller().unwrap();
    assert_eq!((ahci.vendor_id, ahci.device_id), (0x8086, 0x2922));
    assert_eq!(ahci.interrupt_line, 0x0B);
    assert_eq!(ahci.bar[0], 0xFEBF_1000);
    let nvme = scan.registry.pci_find_nvme_controller().unwrap();
    assert_eq!((nvme.bus, nvme.device, nvme.function), (0, 1, 2));
    assert_eq!(nvme.bar[0], 0xFEBF_2004);
    let xhci = scan.registry.pci_find_xhci_controller().unwrap();
    assert_eq!((xhci.bus, xhci.device, xhci.function), (1, 0, 0));
    assert_eq!(xhci.prog_if, 0x30);
    assert_eq!(xhci.interrupt_line, 5);
    assert_eq!(scan.registry.pci_get_device_count(), 5);
}

#[test]
fn scan_first_read_is_host_bridge_header() {
    let scan = check_all_buses();
    assert_eq!(scan.next_read(), Some((0, 0, 0, 0x0E)));
    let bus = check_bus(1);
    assert_eq!(bus.next_read(), Some((1, 0, 0, 0x00)));
    let dev = check_device(0, 3);
    assert_eq!(dev.next_read(), Some((0, 3, 0, 0x00)));
}

#[test]
fn scan_single_bus_and_device() {
    let bus1 = run_scan(check_bus(1));
    assert_eq!(bus1.registry.pci_get_device_count(), 1);
    assert_eq!(bus1.registry.pci_get_all_devices()[0].class_code, 0x0C);
    // Walking the bridge alone also walks the bus behind it.
    let bridge = run_scan(check_device(0, 3));
    let ids: Vec<(u8, u8, u8)> =
        bridge.registry.pci_get_all_devices().iter().map(|d| (d.bus, d.device, d.function)).collect();
    assert_eq!(ids, vec![(0, 3, 0), (1, 0, 0)]);
    let empty = run_scan(check_device(0, 7));
    assert_eq!(empty.registry.pci_get_device_count(), 0);
}

#[test]
fn ahci_address_halves_round_trip() {
    assert_eq!(split_addr(0x1_2345_6780), (0x2345_6780, 0x1));
    assert_eq!(join_addr(0x2345_6780, 0x1), 0x1_2345_6780);
    assert_eq!(join_addr(0xFFFF_FFFF, 0xFFFF_FFFF), u64::MAX);
    let mut port = zero_port();
    port.set_clb(0x2_0000_1000);
    assert_eq!((port.clbl, port.clbu), (0x1000, 2));
    assert_eq!(port.clb(), 0x2_0000_1000);
    port.set_fb(0x8000);
    assert_eq!(port.fb(), 0x8000);
    assert_eq!(port.clb(), 0x2_0000_1000);
}

#[test]
fn ahci_free_command_slot() {
    let mut port = zero_port();
    assert_eq!(find_cmdslot(&port), Some(0));
    port.sact = 0b0101;
    port.ci = 0b0010;
    assert_eq!(find_cmdslot(&port), Some(3));
    port.sact = 0xFFFF_FFFF;
    assert_eq!(find_cmdslot(&port), None);
    port.sact = 0x7FFF_FFFF;
    assert_eq!(find_cmdslot(&port), Some(31));
}

#[test]
fn ahci_port_device_types() {
    let mut port = zero_port();
    assert_eq!(check_type(&port), AHCI_DEV_NULL);
    port.ssts = 0x113;
    port.sig = HBA_PORT_SIG_ATA;
    assert_eq!(check_type(&port), AHCI_DEV_SATA);
    port.sig = HBA_PORT_SIG_ATAPI;
    assert_eq!(check_type(&port), AHCI_DEV_SATAPI);
    port.sig = HBA_PORT_SIG_SEMB;
    assert_eq!(check_type(&port), AHCI_DEV_SEMB);
    port.sig = HBA_PORT_SIG_PM;
    assert_eq!(check_type(&port), AHCI_DEV_PM);
    // Device present but the interface asleep.
    port.ssts = 0x623;
    assert_eq!(check_type(&port), AHCI_DEV_NULL);
    assert!(is_drive(AHCI_DEV_SATA));
    assert!(is_drive(AHCI_DEV_SATAPI));
    assert!(!is_drive(AHCI_DEV_PM));
}

#[test]
fn ahci_fis_bytes() {
    let mut fis = [0xAAu8; 64];
    build_fis(&mut fis, ATA_CMD_READ_DMA_EX, 0x0000_0605_0403_0201, 0x0102);
    assert_eq!(&fis[..14], &[0x27, 0x80, 0x25, 0x00, 0x01, 0x02, 0x03, 0x40, 0x04, 0x05, 0x06, 0x00, 0x02, 0x01]);
    assert!(fis[14..].iter().all(|b| *b == 0xAA));
    let h = FisRegH2D::from_bytes(&fis);
    assert_eq!(h.fis_type, 0x27);
    assert_eq!(h.command, ATA_CMD_READ_DMA_EX);
    assert_eq!(h.device, 0x40);
    assert_eq!((h.lba0, h.lba5), (0x01, 0x06));
    assert_eq!((h.countl, h.counth), (0x02, 0x01));
}

#[test]
fn ahci_read_write_setups() {
    let r = ahci_read(0x1_0000_2000, 0x10, 2, 0x3000);
    assert_eq!(r.header.flags, 5);
    assert_eq!(r.header.prdtl, 1);
    assert_eq!(r.header.prdbc, 0);
    assert_eq!((r.header.ctbal, r.header.ctbau), (0x2000, 1));
    assert_eq!((r.prdt.dbal, r.prdt.dbau), (0x3000, 0));
    assert_eq!(r.prdt.dbc, 1023);
    assert_eq!(r.fis[2], ATA_CMD_READ_DMA_EX);
    assert_eq!(r.fis[4], 0x10);
    assert_eq!(r.fis[12], 2);
    assert!(r.fis[14..].iter().all(|b| *b == 0));
    let w = ahci_write(0x4000, 7, 1, 0x5000);
    assert_eq!(w.header.flags, 0x45);
    assert_eq!(w.fis[2], ATA_CMD_WRITE_DMA_EX);
    assert_eq!(w.prdt.dbc, 511);
    let id = ahci_identify_setup(0x4000, 0x6000);
    assert_eq!(id.fis[2], ATA_CMD_IDENTIFY);
    assert_eq!(id.prdt.dbc, 511);
    assert_eq!(id.header.flags, 5);
    assert_eq!((id.fis[12], id.fis[13]), (0, 0));
}

#[test]
fn ahci_poll_outcomes() {
    assert_eq!(poll_step(0, 0, 0, 0), PollOutcome::TimedOut);
    assert_eq!(poll_step(5, 1 << 30, 0, 1), PollOutcome::DeviceError);
    assert_eq!(poll_step(5, 0, 0b100, 1), PollOutcome::Completed);
    assert_eq!(poll_step(5, 0, 0b010, 1), PollOutcome::Pending(4));
    assert!(command_succeeded(0));
    assert!(!command_succeeded(1 << 30));
    assert_eq!(issue_bit(3), 8);
    assert_eq!(issue_bit(31), 0x8000_0000);
}

#[test]
fn ahci_identify_sector_counts() {
    let mut buf = vec![0u8; 512];
    // Word 83 bit 10: 48-bit addressing; words 100..103 hold the count.
    buf[166] = 0x00;
    buf[167] = 0x04;
    buf[200] = 0x78;
    buf[201] = 0x56;
    buf[202] = 0x34;
    buf[203] = 0x12;
    assert_eq!(identify_sector_count(&buf), 0x1234_5678);
    assert_eq!(ahci_identify(true, &buf), Some(0x1234_5678));
    assert_eq!(ahci_identify(false, &buf), None);
    let mut old = vec![0u8; 512];
    old[120] = 0x01;
    old[122] = 0x02;
    assert_eq!(identify_sector_count(&old), 0x0002_0001);
}

#[test]
fn ahci_drive_table() {
    let mut drives = AhciDrives::new();
    assert_eq!(drives.get_drive_count(), 0);
    assert_eq!(drives.get_drive_sector_count(0), None);
    drives.push(AhciDrive { port: 2, port_type: AHCI_DEV_SATA, sector_count: 0x2_0000 });
    drives.push(AhciDrive { port: 5, port_type: AHCI_DEV_SATAPI, sector_count: 0 });
    assert_eq!(drives.get_drive_count(), 2);
    assert_eq!(drives.get_drive_sector_count(0), Some(0x2_0000));
    assert_eq!(drives.drive_port(1), Some(5));
    assert_eq!(drives.drive_port(2), None);
}

#[test]
fn ahci_register_values() {
    assert!(port_implemented(0b101, 2));
    assert!(!port_implemented(0b101, 1));
    assert_eq!(abar_base(0xFEBF_1004), 0xFEBF_1000);
    assert_eq!(ghc_enable_ahci(0x2), 0x8000_0002);
    assert_eq!(start_cmd_values(0), (0x10, 0x11));
    assert_eq!(stop_cmd_value(0x11), 0x10);
    assert_eq!(stop_fis_value(0x10), 0);
    assert!(cmd_running(0x8000));
    assert!(!cmd_running(0x4000));
    assert!(fis_running(0x4000));
    assert_eq!(sectors_to_bytes(3), 1536);
    let h = rebased_header(0x1_0000_0100);
    assert_eq!((h.prdtl, h.flags, h.ctbal, h.ctbau), (8, 0, 0x100, 1));
    assert_eq!(h.ctba(), 0x1_0000_0100);
}
