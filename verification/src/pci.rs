//! PCI configuration space: the address of a configuration dword, the
//! fields inside a dword, read-modify-write of words and bytes, the command
//! register bits, base address register sizing, and the table of devices
//! found on the buses. The port accesses themselves are the caller's: each
//! function here takes the dword it read and gives the dword to write.
use vstd::prelude::*;

verus! {

pub const PCI_CONFIG_ADDRESS: u16 = 0xCF8;
pub const PCI_CONFIG_DATA: u16 = 0xCFC;

/// Capacity of the device table.
pub const MAX_PCI_DEVICES: usize = 256;

pub const PCI_VENDOR_ID: u8 = 0x00;
pub const PCI_DEVICE_ID: u8 = 0x02;
pub const PCI_COMMAND: u8 = 0x04;
pub const PCI_CLASS_CODE: u8 = 0x0B;
pub const PCI_SUBCLASS: u8 = 0x0A;
pub const PCI_PROG_IF: u8 = 0x09;
pub const PCI_HEADER_TYPE: u8 = 0x0E;
pub const PCI_BAR0: u8 = 0x10;
pub const PCI_SECONDARY_BUS: u8 = 0x19;
pub const PCI_INTERRUPT_LINE: u8 = 0x3C;
pub const PCI_INTERRUPT_PIN: u8 = 0x3D;

pub const PCI_CLASS_BRIDGE: u8 = 0x06;
pub const PCI_SUBCLASS_PCI_BRIDGE: u8 = 0x04;

pub const PCI_CLASS_MASS_STORAGE: u8 = 0x01;
pub const PCI_SUBCLASS_SATA: u8 = 0x06;
pub const PCI_PROG_IF_AHCI: u8 = 0x01;
pub const PCI_PROG_IF_NVME: u8 = 0x02;

/// The value written to the address port to select the dword at `offset` of
/// the configuration space of `bus:device.function`.
pub open spec fn config_address(bus: u8, device: u8, function: u8, offset: u8) -> u32 {
    ((bus as u32) << 16u32) | ((device as u32) << 11u32) | ((function as u32) << 8u32) | ((offset as u32) & 0xFCu32)
        | 0x80000000u32
}

pub fn pci_config_address(bus: u8, device: u8, function: u8, offset: u8) -> (r: u32)
    ensures
        r == config_address(bus, device, function, offset),
        r & 0x80000000 != 0,
        r & 3 == 0,
{
    let b = bus as u32;
    let d = device as u32;
    let f = function as u32;
    let o = offset as u32;
    assert({
        let x = (b << 16u32) | (d << 11u32) | (f << 8u32) | (o & 0xFCu32) | 0x80000000u32;
        &&& x & 0x80000000u32 != 0
        &&& (b < 256 && f < 256 ==> x & 3u32 == 0)
    }) by (bit_vector);
    (b << 16) | (d << 11) | (f << 8) | (o & 0xFC) | 0x80000000
}

/// The 16-bit half of configuration dword `data` that holds `offset`.
pub open spec fn word_at(data: u32, offset: u8) -> u16 {
    if offset & 2 != 0 {
        (data >> 16u32) as u16
    } else {
        (data & 0xFFFFu32) as u16
    }
}

/// The byte of configuration dword `data` that holds `offset`.
pub open spec fn byte_at(data: u32, offset: u8) -> u8 {
    let k = offset & 3;
    (if k == 0 {
        data & 0xFFu32
    } else if k == 1 {
        (data >> 8u32) & 0xFFu32
    } else if k == 2 {
        (data >> 16u32) & 0xFFu32
    } else {
        data >> 24u32
    }) as u8
}

/// The word at `offset` from the dword `data` read at `offset`.
pub fn pci_config_read_word(data: u32, offset: u8) -> (r: u16)
    ensures
        r == word_at(data, offset),
{
    if offset & 2 != 0 {
        (data >> 16) as u16
    } else {
        (data & 0xFFFF) as u16
    }
}

/// The byte at `offset` from the dword `data` read at `offset`.
pub fn pci_config_read_byte(data: u32, offset: u8) -> (r: u8)
    ensures
        r == byte_at(data, offset),
{
    let k = offset & 3;
    (if k == 0 {
        data & 0xFF
    } else if k == 1 {
        (data >> 8) & 0xFF
    } else if k == 2 {
        (data >> 16) & 0xFF
    } else {
        data >> 24
    }) as u8
}

/// Masking one half of a dword and or-ing a word into it.
proof fn lemma_word_lanes(data: u32, v: u32)
    by (bit_vector)
    requires
        v < 0x10000,
    ensures
        ((data & 0xFFFFu32) | (v << 16u32)) >> 16u32 == v,
        ((data & 0xFFFFu32) | (v << 16u32)) & 0xFFFFu32 == data & 0xFFFFu32,
        ((data & 0xFFFF0000u32) | v) & 0xFFFFu32 == v,
        ((data & 0xFFFF0000u32) | v) >> 16u32 == data >> 16u32,
        forall|o: u8| #[trigger] (o & 2u8) == 0u8 || (o & 2u8) == 2u8,
{
}

/// The dword to write back so that the word at `offset` becomes `value`,
/// given the dword `data` read there; the other word keeps its value.
pub fn pci_config_write_word(data: u32, offset: u8, value: u16) -> (r: u32)
    ensures
        word_at(r, offset) == value,
        forall|o: u8| o & 2 != offset & 2 ==> word_at(r, o) == word_at(data, o),
{
    let v = value as u32;
    proof {
        lemma_word_lanes(data, v);
    }
    if offset & 2 != 0 {
        (data & 0xFFFF) | (v << 16)
    } else {
        (data & 0xFFFF0000) | v
    }
}

/// Masking one byte of a dword and or-ing a byte into it.
proof fn lemma_byte_lanes(data: u32, v: u32)
    by (bit_vector)
    requires
        v < 0x100,
    ensures
        ({
            let r = (data & 0xFFFFFF00u32) | v;
            &&& r & 0xFFu32 == v
            &&& (r >> 8u32) & 0xFFu32 == (data >> 8u32) & 0xFFu32
            &&& (r >> 16u32) & 0xFFu32 == (data >> 16u32) & 0xFFu32
            &&& r >> 24u32 == data >> 24u32
        }),
        ({
            let r = (data & 0xFFFF00FFu32) | (v << 8u32);
            &&& r & 0xFFu32 == data & 0xFFu32
            &&& (r >> 8u32) & 0xFFu32 == v
            &&& (r >> 16u32) & 0xFFu32 == (data >> 16u32) & 0xFFu32
            &&& r >> 24u32 == data >> 24u32
        }),
        ({
            let r = (data & 0xFF00FFFFu32) | (v << 16u32);
            &&& r & 0xFFu32 == data & 0xFFu32
            &&& (r >> 8u32) & 0xFFu32 == (data >> 8u32) & 0xFFu32
            &&& (r >> 16u32) & 0xFFu32 == v
            &&& r >> 24u32 == data >> 24u32
        }),
        ({
            let r = (data & 0x00FFFFFFu32) | (v << 24u32);
            &&& r & 0xFFu32 == data & 0xFFu32
            &&& (r >> 8u32) & 0xFFu32 == (data >> 8u32) & 0xFFu32
            &&& (r >> 16u32) & 0xFFu32 == (data >> 16u32) & 0xFFu32
            &&& r >> 24u32 == v
        }),
        forall|o: u8| #[trigger] (o & 3u8) < 4u8,
{
}

/// The dword to write back so that the byte at `offset` becomes `value`,
/// given the dword `data` read there; the other bytes keep their values.
pub fn pci_config_write_byte(data: u32, offset: u8, value: u8) -> (r: u32)
    ensures
        byte_at(r, offset) == value,
        forall|o: u8| o & 3 != offset & 3 ==> byte_at(r, o) == byte_at(data, o),
{
    let v = value as u32;
    proof {
        lemma_byte_lanes(data, v);
    }
    let k = offset & 3;
    if k == 0 {
        (data & 0xFFFFFF00) | v
    } else if k == 1 {
        (data & 0xFFFF00FF) | (v << 8)
    } else if k == 2 {
        (data & 0xFF00FFFF) | (v << 16)
    } else {
        (data & 0x00FFFFFF) | (v << 24)
    }
}

/// The vendor id from the dword at offset 0.
pub fn get_vendor_id(data: u32) -> (r: u16)
    ensures
        r == word_at(data, PCI_VENDOR_ID),
{
    pci_config_read_word(data, PCI_VENDOR_ID)
}

/// The device id from the dword at offset 0.
pub fn get_device_id(data: u32) -> (r: u16)
    ensures
        r == word_at(data, PCI_DEVICE_ID),
{
    pci_config_read_word(data, PCI_DEVICE_ID)
}

/// The configuration offset of base address register `bar_num`.
pub fn pci_bar_offset(bar_num: u8) -> (r: u8)
    requires
        bar_num < 6,
    ensures
        r == PCI_BAR0 + bar_num * 4,
{
    PCI_BAR0 + (bar_num * 4)
}

/// The size of the region a base address register decodes, from its
/// original value and the value read back after writing all ones: the type
/// bits (2 for I/O, 4 for memory) are masked off and the two's complement
/// taken.
pub fn pci_get_bar_size(original: u32, probed: u32) -> (r: u32)
    ensures
        r == (if original & 1 != 0 { !(probed & 0xFFFFFFFC) } else { !(probed & 0xFFFFFFF0) }).wrapping_add(1),
{
    let size = if (original & 0x1) != 0 { probed & 0xFFFFFFFC } else { probed & 0xFFFFFFF0 };
    (!size).wrapping_add(1)
}

/// The command register with bus mastering on.
pub fn pci_enable_bus_master(command: u16) -> (r: u16)
    ensures
        r == command | 4,
{
    command | 0x04
}

/// The command register with bus mastering off.
pub fn pci_disable_bus_master(command: u16) -> (r: u16)
    ensures
        r == command & !4u16,
{
    command & !0x04
}

/// The command register with memory space decoding on.
pub fn pci_enable_memory_space(command: u16) -> (r: u16)
    ensures
        r == command | 2,
{
    command | 0x02
}

/// The command register with I/O space decoding on.
pub fn pci_enable_io_space(command: u16) -> (r: u16)
    ensures
        r == command | 1,
{
    command | 0x01
}

/// The interrupt line from the dword at offset 0x3C.
pub fn pci_get_interrupt_line(data: u32) -> (r: u8)
    ensures
        r == byte_at(data, PCI_INTERRUPT_LINE),
{
    pci_config_read_byte(data, PCI_INTERRUPT_LINE)
}

/// The interrupt pin from the dword at offset 0x3C.
pub fn pci_get_interrupt_pin(data: u32) -> (r: u8)
    ensures
        r == byte_at(data, PCI_INTERRUPT_PIN),
{
    pci_config_read_byte(data, PCI_INTERRUPT_PIN)
}

/// Whether a vendor id read says a function is present.
pub fn device_present(vendor: u16) -> (r: bool)
    ensures
        r == (vendor != 0xFFFF),
{
    vendor != 0xFFFF
}

/// Whether a header type byte marks a multi-function device.
pub fn is_multifunction(header_type: u8) -> (r: bool)
    ensures
        r == (header_type & 0x80 != 0),
{
    (header_type & 0x80) != 0
}

/// Whether a class and subclass name a PCI-to-PCI bridge, whose secondary
/// bus is then scanned.
pub fn is_pci_bridge(class_code: u8, subclass: u8) -> (r: bool)
    ensures
        r == (class_code == PCI_CLASS_BRIDGE && subclass == PCI_SUBCLASS_PCI_BRIDGE),
{
    class_code == PCI_CLASS_BRIDGE && subclass == PCI_SUBCLASS_PCI_BRIDGE
}

/// A function found on the bus.
#[derive(Debug, Clone, Copy)]
pub struct PCIDevice {
    pub bus: u8,
    pub device: u8,
    pub function: u8,
    pub vendor_id: u16,
    pub device_id: u16,
    pub class_code: u8,
    pub subclass: u8,
    pub prog_if: u8,
    pub bar: [u32; 6],
    pub interrupt_line: u8,
}

impl PCIDevice {
    /// An all-zero record.
    pub fn new() -> (r: Self)
        ensures
            r.bus == 0 && r.device == 0 && r.function == 0 && r.vendor_id == 0 && r.device_id == 0,
            r.class_code == 0 && r.subclass == 0 && r.prog_if == 0 && r.interrupt_line == 0,
            forall|i: int| 0 <= i < 6 ==> r.bar@[i] == 0,
    {
        let r = PCIDevice {
            bus: 0,
            device: 0,
            function: 0,
            vendor_id: 0,
            device_id: 0,
            class_code: 0,
            subclass: 0,
            prog_if: 0,
            bar: [0u32, 0u32, 0u32, 0u32, 0u32, 0u32],
            interrupt_line: 0,
        };
        r
    }
}

/// The devices found, in the order they were found.
pub struct PciRegistry {
    devices: Vec<PCIDevice>,
}

/// `i` is the first device of `s` satisfying `p`.
pub open spec fn first_such(s: Seq<PCIDevice>, p: spec_fn(PCIDevice) -> bool, i: int) -> bool {
    &&& 0 <= i < s.len()
    &&& p(s[i])
    &&& forall|k: int| 0 <= k < i ==> !p(#[trigger] s[k])
}

/// The first device satisfying `p`, if any.
pub open spec fn find_first(s: Seq<PCIDevice>, p: spec_fn(PCIDevice) -> bool) -> Option<PCIDevice> {
    if exists|i: int| first_such(s, p, i) {
        Some(s[choose|i: int| first_such(s, p, i)])
    } else {
        None
    }
}

pub open spec fn class_is(c: u8, s: u8, pi: u8) -> spec_fn(PCIDevice) -> bool {
    |d: PCIDevice| d.class_code == c && d.subclass == s && d.prog_if == pi
}

pub open spec fn ids_are(vendor_id: u16, device_id: u16) -> spec_fn(PCIDevice) -> bool {
    |d: PCIDevice| d.vendor_id == vendor_id && d.device_id == device_id
}

pub open spec fn class_sub_is(c: u8, s: u8) -> spec_fn(PCIDevice) -> bool {
    |d: PCIDevice| d.class_code == c && d.subclass == s
}

impl PciRegistry {
    pub closed spec fn view(&self) -> Seq<PCIDevice> {
        self.devices@
    }

    pub open spec fn wf(&self) -> bool {
        self@.len() <= MAX_PCI_DEVICES
    }

    pub fn new() -> (r: Self)
        ensures
            r@ == Seq::<PCIDevice>::empty(),
            r.wf(),
    {
        PciRegistry { devices: Vec::new() }
    }

    /// Records a device unless the table is full.
    pub fn pci_add_device(&mut self, dev: PCIDevice)
        requires
            old(self).wf(),
        ensures
            final(self).wf(),
            old(self)@.len() >= MAX_PCI_DEVICES ==> final(self)@ == old(self)@,
            old(self)@.len() < MAX_PCI_DEVICES ==> final(self)@ == old(self)@.push(dev),
    {
        if self.devices.len() >= MAX_PCI_DEVICES {
            return;
        }
        self.devices.push(dev);
    }

    fn find(&self, Ghost(p): Ghost<spec_fn(PCIDevice) -> bool>, pred: impl Fn(&PCIDevice) -> bool) -> (r: Option<PCIDevice>)
        requires
            forall|d: &PCIDevice| call_requires(pred, (d,)),
            forall|d: &PCIDevice, b: bool| call_ensures(pred, (d,), b) ==> b == p(*d),
        ensures
            r == find_first(self@, p),
    {
        let mut i: usize = 0;
        while i < self.devices.len()
            invariant
                i <= self@.len(),
                forall|d: &PCIDevice| call_requires(pred, (d,)),
                forall|d: &PCIDevice, b: bool| call_ensures(pred, (d,), b) ==> b == p(*d),
                forall|k: int| 0 <= k < i ==> !p(#[trigger] self@[k]),
            decreases self@.len() - i,
        {
            if pred(&self.devices[i]) {
                proof {
                    assert(first_such(self@, p, i as int));
                    let c = choose|c: int| first_such(self@, p, c);
                    if c < i {
                        assert(!p(self@[c]));
                    } else if c > i {
                        assert(!p(self@[i as int]));
                    }
                }
                return Some(self.devices[i]);
            }
            i = i + 1;
        }
        proof {
            assert forall|c: int| !first_such(self@, p, c) by {
                if first_such(self@, p, c) {
                    assert(!p(self@[c]));
                }
            }
        }
        None
    }

    /// The first device with the given vendor and device id.
    pub fn pci_find_device(&self, vendor_id: u16, device_id: u16) -> (r: Option<PCIDevice>)
        ensures
            r == find_first(self@, ids_are(vendor_id, device_id)),
    {
        self.find(
            Ghost(ids_are(vendor_id, device_id)),
            |d: &PCIDevice| -> (b: bool)
                ensures b == (d.vendor_id == vendor_id && d.device_id == device_id)
                { d.vendor_id == vendor_id && d.device_id == device_id },
        )
    }

    /// The first device of the given class and subclass.
    pub fn pci_find_class(&self, class_code: u8, subclass: u8) -> (r: Option<PCIDevice>)
        ensures
            r == find_first(self@, class_sub_is(class_code, subclass)),
    {
        self.find(
            Ghost(class_sub_is(class_code, subclass)),
            |d: &PCIDevice| -> (b: bool)
                ensures b == (d.class_code == class_code && d.subclass == subclass)
                { d.class_code == class_code && d.subclass == subclass },
        )
    }

    /// The first device of the given class, subclass and programming interface.
    pub fn pci_find_class_prog_if(&self, class_code: u8, subclass: u8, prog_if: u8) -> (r: Option<PCIDevice>)
        ensures
            r == find_first(self@, class_is(class_code, subclass, prog_if)),
    {
        self.find(
            Ghost(class_is(class_code, subclass, prog_if)),
            |d: &PCIDevice| -> (b: bool)
                ensures b == (d.class_code == class_code && d.subclass == subclass && d.prog_if == prog_if)
                { d.class_code == class_code && d.subclass == subclass && d.prog_if == prog_if },
        )
    }

    /// The first USB xHCI controller (serial bus class, USB subclass,
    /// interface 0x30).
    pub fn pci_find_xhci_controller(&self) -> (r: Option<PCIDevice>)
        ensures
            r == find_first(self@, class_is(0x0C, 0x03, 0x30)),
    {
        self.pci_find_class_prog_if(0x0C, 0x03, 0x30)
    }

    /// The first AHCI controller.
    pub fn pci_find_ahci_controller(&self) -> (r: Option<PCIDevice>)
        ensures
            r == find_first(self@, class_is(PCI_CLASS_MASS_STORAGE, PCI_SUBCLASS_SATA, PCI_PROG_IF_AHCI)),
    {
        self.pci_find_class_prog_if(PCI_CLASS_MASS_STORAGE, PCI_SUBCLASS_SATA, PCI_PROG_IF_AHCI)
    }

    /// The first mass storage device of the SATA subclass with interface 2,
    /// taken as the NVMe controller.
    pub fn pci_find_nvme_controller(&self) -> (r: Option<PCIDevice>)
        ensures
            r == find_first(self@, class_is(PCI_CLASS_MASS_STORAGE, PCI_SUBCLASS_SATA, PCI_PROG_IF_NVME)),
    {
        self.pci_find_class_prog_if(PCI_CLASS_MASS_STORAGE, PCI_SUBCLASS_SATA, PCI_PROG_IF_NVME)
    }

    /// All devices found.
    pub fn pci_get_all_devices(&self) -> (r: &[PCIDevice])
        ensures
            r@ == self@,
    {
        self.devices.as_slice()
    }

    pub fn pci_get_device_count(&self) -> (r: u32)
        requires
            self.wf(),
        ensures
            r == self@.len(),
    {
        self.devices.len() as u32
    }
}

/// The word at `offset` from the dword read there.
pub fn pci_read_word(data: u32, offset: u8) -> (r: u16)
    ensures
        r == word_at(data, offset),
{
    pci_config_read_word(data, offset)
}

/// The byte at `offset` from the dword read there.
pub fn pci_read_byte(data: u32, offset: u8) -> (r: u8)
    ensures
        r == byte_at(data, offset),
{
    pci_config_read_byte(data, offset)
}

} // verus!
