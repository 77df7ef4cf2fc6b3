//! Enumerating the PCI buses as a sequence of configuration reads. The scan
//! visits buses, devices and functions depth first, in the order the
//! recursive walk over them takes: the host bridge's functions name the
//! root buses, each bus has 32 devices, a multi-function device has 8
//! functions, and a PCI-to-PCI bridge's secondary bus is walked as soon as
//! the bridge is found. Each step names the configuration dword to read
//! next; the caller reads it and hands the value back.
use vstd::prelude::*;
use crate::pci::{
    byte_at, config_address, pci_config_address, pci_config_read_byte, pci_config_read_word, word_at, PCIDevice,
    PciRegistry, PCI_BAR0, PCI_CLASS_BRIDGE, PCI_CLASS_CODE, PCI_CONFIG_ADDRESS, PCI_CONFIG_DATA, PCI_HEADER_TYPE,
    PCI_INTERRUPT_LINE, PCI_PROG_IF, PCI_SECONDARY_BUS, PCI_SUBCLASS, PCI_SUBCLASS_PCI_BRIDGE, PCI_VENDOR_ID,
};

verus! {

/// The port accesses of a configuration read: write `address` to the
/// address port, then read the data port.
#[derive(Debug, Clone, Copy, PartialEq, Eq, Structural)]
pub struct ConfigRead {
    pub address_port: u16,
    pub address: u32,
    pub data_port: u16,
}

/// The port accesses that read the configuration dword holding `offset` of
/// `bus:device.function`.
pub fn pci_config_read_dword(bus: u8, device: u8, function: u8, offset: u8) -> (r: ConfigRead)
    ensures
        r.address_port == PCI_CONFIG_ADDRESS,
        r.address == config_address(bus, device, function, offset),
        r.data_port == PCI_CONFIG_DATA,
{
    ConfigRead {
        address_port: PCI_CONFIG_ADDRESS,
        address: pci_config_address(bus, device, function, offset),
        data_port: PCI_CONFIG_DATA,
    }
}

/// The port accesses of a configuration write: write `address` to the
/// address port, then `value` to the data port.
#[derive(Debug, Clone, Copy, PartialEq, Eq, Structural)]
pub struct ConfigWrite {
    pub address_port: u16,
    pub address: u32,
    pub data_port: u16,
    pub value: u32,
}

pub fn pci_config_write_dword(bus: u8, device: u8, function: u8, offset: u8, value: u32) -> (r: ConfigWrite)
    ensures
        r.address_port == PCI_CONFIG_ADDRESS,
        r.address == config_address(bus, device, function, offset),
        r.data_port == PCI_CONFIG_DATA,
        r.value == value,
{
    ConfigWrite {
        address_port: PCI_CONFIG_ADDRESS,
        address: pci_config_address(bus, device, function, offset),
        data_port: PCI_CONFIG_DATA,
        value,
    }
}

/// The read of base address register `bar_num`.
pub fn pci_read_bar(bus: u8, device: u8, function: u8, bar_num: u8) -> (r: ConfigRead)
    requires
        bar_num < 6,
    ensures
        r.address == config_address(bus, device, function, (PCI_BAR0 + bar_num * 4) as u8),
        r.address_port == PCI_CONFIG_ADDRESS && r.data_port == PCI_CONFIG_DATA,
{
    pci_config_read_dword(bus, device, function, PCI_BAR0 + bar_num * 4)
}

/// The write of `value` to base address register `bar_num`.
pub fn pci_write_bar(bus: u8, device: u8, function: u8, bar_num: u8, value: u32) -> (r: ConfigWrite)
    requires
        bar_num < 6,
    ensures
        r.address == config_address(bus, device, function, (PCI_BAR0 + bar_num * 4) as u8),
        r.value == value,
        r.address_port == PCI_CONFIG_ADDRESS && r.data_port == PCI_CONFIG_DATA,
{
    pci_config_write_dword(bus, device, function, PCI_BAR0 + bar_num * 4, value)
}

/// The read of the configuration dword holding `offset`.
pub fn pci_read_dword(bus: u8, slot: u8, func: u8, offset: u8) -> (r: ConfigRead)
    ensures
        r.address == config_address(bus, slot, func, offset),
        r.address_port == PCI_CONFIG_ADDRESS && r.data_port == PCI_CONFIG_DATA,
{
    pci_config_read_dword(bus, slot, func, offset)
}

/// What is left to walk, innermost last.
#[derive(Debug, Clone, Copy, PartialEq, Eq, Structural)]
pub enum ScanTask {
    /// Read the host bridge's header type to learn whether there are
    /// several root buses.
    Start,
    /// Probe host bridge function `func`; if present, walk bus `func`.
    Root { func: u8 },
    /// Walk devices `dev` to 31 of `bus`.
    Bus { bus: u8, dev: u8 },
    /// Probe function 0 of `bus:dev`.
    Device { bus: u8, dev: u8 },
    /// Read the header type of `bus:dev` to learn whether it has more
    /// functions.
    Header { bus: u8, dev: u8 },
    /// Probe functions `func` to 7 of the multi-function `bus:dev`.
    MoreFunctions { bus: u8, dev: u8, func: u8 },
    /// Read function `bus:dev.func` into a record: `step` counts the reads
    /// done (identity, class, interrupt line, then the six base address
    /// registers), then the secondary bus of a bridge.
    Function { bus: u8, dev: u8, func: u8, step: u8 },
}

/// A configuration dword to read: bus, device, function, offset.
pub type ScanRead = (u8, u8, u8, u8);

/// The read a task needs next.
pub open spec fn task_read(t: ScanTask) -> ScanRead {
    match t {
        ScanTask::Start => (0, 0, 0, PCI_HEADER_TYPE),
        ScanTask::Root { func } => (0, 0, func, PCI_VENDOR_ID),
        ScanTask::Bus { bus, dev } => (bus, dev, 0, PCI_VENDOR_ID),
        ScanTask::Device { bus, dev } => (bus, dev, 0, PCI_VENDOR_ID),
        ScanTask::Header { bus, dev } => (bus, dev, 0, PCI_HEADER_TYPE),
        ScanTask::MoreFunctions { bus, dev, func } => (bus, dev, func, PCI_VENDOR_ID),
        ScanTask::Function { bus, dev, func, step } => (bus, dev, func, function_read_offset(step)),
    }
}

/// The offset read at each step of reading a function.
pub open spec fn function_read_offset(step: u8) -> u8 {
    if step == 0 {
        PCI_VENDOR_ID
    } else if step == 1 {
        0x08
    } else if step == 2 {
        PCI_INTERRUPT_LINE
    } else if step < 9 {
        (PCI_BAR0 + (step - 3) * 4) as u8
    } else {
        PCI_SECONDARY_BUS
    }
}

/// A well-formed task: device numbers below 32, function numbers below 8,
/// read steps up to the bridge's secondary bus.
pub open spec fn task_ok(t: ScanTask) -> bool {
    match t {
        ScanTask::Start => true,
        ScanTask::Root { func } => func < 8,
        ScanTask::Bus { dev, .. } => dev < 32,
        ScanTask::Device { dev, .. } => dev < 32,
        ScanTask::Header { dev, .. } => dev < 32,
        ScanTask::MoreFunctions { dev, func, .. } => dev < 32 && 1 <= func < 8,
        ScanTask::Function { dev, func, step, .. } => dev < 32 && func < 8 && step <= 9,
    }
}

/// The walk in progress: the tasks left, the record of the function being
/// read, and the devices found.
pub struct PciScan {
    pub tasks: Vec<ScanTask>,
    pub record: PCIDevice,
    pub registry: PciRegistry,
}

/// A scan starting at the host bridge.
pub fn check_all_buses() -> (r: PciScan)
    ensures
        r.tasks@ == seq![ScanTask::Start],
        r.registry@ == Seq::<PCIDevice>::empty(),
        r.registry.wf(),
{
    PciScan { tasks: vec![ScanTask::Start], record: PCIDevice::new(), registry: PciRegistry::new() }
}

/// A scan of bus `bus` alone.
pub fn check_bus(bus: u8) -> (r: PciScan)
    ensures
        r.tasks@ == seq![ScanTask::Bus { bus, dev: 0 }],
        r.registry@ == Seq::<PCIDevice>::empty(),
        r.registry.wf(),
{
    PciScan { tasks: vec![ScanTask::Bus { bus, dev: 0 }], record: PCIDevice::new(), registry: PciRegistry::new() }
}

/// A scan of device `device` of bus `bus` alone.
pub fn check_device(bus: u8, device: u8) -> (r: PciScan)
    requires
        device < 32,
    ensures
        r.tasks@ == seq![ScanTask::Device { bus, dev: device }],
        r.registry@ == Seq::<PCIDevice>::empty(),
        r.registry.wf(),
{
    PciScan {
        tasks: vec![ScanTask::Device { bus, dev: device }],
        record: PCIDevice::new(),
        registry: PciRegistry::new(),
    }
}

impl PciScan {
    pub open spec fn wf(&self) -> bool {
        &&& self.registry.wf()
        &&& forall|i: int| 0 <= i < self.tasks@.len() ==> task_ok(#[trigger] self.tasks@[i])
    }

    /// The read to do next, or none when the walk is over.
    pub fn next_read(&self) -> (r: Option<ScanRead>)
        requires
            self.wf(),
        ensures
            self.tasks@.len() == 0 ==> r is None,
            self.tasks@.len() > 0 ==> r == Some(task_read(self.tasks@.last())),
    {
        let n = self.tasks.len();
        if n == 0 {
            return None;
        }
        let t = self.tasks[n - 1];
        Some(
            match t {
                ScanTask::Start => (0, 0, 0, PCI_HEADER_TYPE),
                ScanTask::Root { func } => (0, 0, func, PCI_VENDOR_ID),
                ScanTask::Bus { bus, dev } => (bus, dev, 0, PCI_VENDOR_ID),
                ScanTask::Device { bus, dev } => (bus, dev, 0, PCI_VENDOR_ID),
                ScanTask::Header { bus, dev } => (bus, dev, 0, PCI_HEADER_TYPE),
                ScanTask::MoreFunctions { bus, dev, func } => (bus, dev, func, PCI_VENDOR_ID),
                ScanTask::Function { bus, dev, func, step } => (bus, dev, func, function_read_offset_of(step)),
            },
        )
    }

    /// Takes the dword `data` read for the current task and moves the walk
    /// on: a missing vendor (0xFFFF) ends the probe of a function; a bus
    /// walks its devices in order; a device present has function 0 read
    /// and, if its header type marks several functions, functions 1 to 7
    /// probed; a function present is read into a record that is added to
    /// the devices found, and a PCI-to-PCI bridge then has its secondary
    /// bus walked before anything else.
    pub fn step(&mut self, data: u32)
        requires
            old(self).wf(),
            old(self).tasks@.len() > 0,
        ensures
            final(self).wf(),
            step_spec(old(self).tasks@, old(self).record, old(self).registry@, data, final(self).tasks@,
                final(self).record, final(self).registry@),
    {
        let n = self.tasks.len();
        let t = self.tasks[n - 1];
        let ghost tasks0 = self.tasks@;
        let ghost reg0 = self.registry@;
        let ghost rec0 = self.record;
        match t {
            ScanTask::Start => {
                self.tasks.pop();
                if (pci_config_read_byte(data, PCI_HEADER_TYPE) & 0x80) == 0 {
                    self.tasks.push(ScanTask::Bus { bus: 0, dev: 0 });
                } else {
                    self.tasks.push(ScanTask::Root { func: 0 });
                }
            },
            ScanTask::Root { func } => {
                self.tasks.pop();
                if func + 1 < 8 {
                    self.tasks.push(ScanTask::Root { func: func + 1 });
                }
                if pci_config_read_word(data, PCI_VENDOR_ID) != 0xFFFF {
                    self.tasks.push(ScanTask::Bus { bus: func, dev: 0 });
                }
            },
            ScanTask::Bus { bus, dev } => {
                self.tasks.pop();
                if dev + 1 < 32 {
                    self.tasks.push(ScanTask::Bus { bus, dev: dev + 1 });
                }
                if pci_config_read_word(data, PCI_VENDOR_ID) != 0xFFFF {
                    self.tasks.push(ScanTask::Header { bus, dev });
                    self.tasks.push(ScanTask::Function { bus, dev, func: 0, step: 0 });
                }
            },
            ScanTask::Device { bus, dev } => {
                self.tasks.pop();
                if pci_config_read_word(data, PCI_VENDOR_ID) != 0xFFFF {
                    self.tasks.push(ScanTask::Header { bus, dev });
                    self.tasks.push(ScanTask::Function { bus, dev, func: 0, step: 0 });
                }
            },
            ScanTask::Header { bus, dev } => {
                self.tasks.pop();
                if (pci_config_read_byte(data, PCI_HEADER_TYPE) & 0x80) != 0 {
                    self.tasks.push(ScanTask::MoreFunctions { bus, dev, func: 1 });
                }
            },
            ScanTask::MoreFunctions { bus, dev, func } => {
                self.tasks.pop();
                if func + 1 < 8 {
                    self.tasks.push(ScanTask::MoreFunctions { bus, dev, func: func + 1 });
                }
                if pci_config_read_word(data, PCI_VENDOR_ID) != 0xFFFF {
                    self.tasks.push(ScanTask::Function { bus, dev, func, step: 0 });
                }
            },
            ScanTask::Function { bus, dev, func, step } => {
                self.tasks.pop();
                if step == 0 {
                    let vendor = pci_config_read_word(data, PCI_VENDOR_ID);
                    if vendor != 0xFFFF {
                        let mut rec = self.record;
                        rec.class_code = 0;
                        rec.subclass = 0;
                        rec.prog_if = 0;
                        rec.interrupt_line = 0;
                        rec.bus = bus;
                        rec.device = dev;
                        rec.function = func;
                        rec.vendor_id = vendor;
                        rec.device_id = pci_config_read_word(data, 0x02);
                        self.record = rec;
                        self.tasks.push(ScanTask::Function { bus, dev, func, step: 1 });
                    }
                } else if step == 1 {
                    self.record.class_code = pci_config_read_byte(data, PCI_CLASS_CODE);
                    self.record.subclass = pci_config_read_byte(data, PCI_SUBCLASS);
                    self.record.prog_if = pci_config_read_byte(data, PCI_PROG_IF);
                    self.tasks.push(ScanTask::Function { bus, dev, func, step: 2 });
                } else if step == 2 {
                    self.record.interrupt_line = pci_config_read_byte(data, PCI_INTERRUPT_LINE);
                    self.tasks.push(ScanTask::Function { bus, dev, func, step: 3 });
                } else if step < 9 {
                    self.record.bar[(step - 3) as usize] = data;
                    if step < 8 {
                        self.tasks.push(ScanTask::Function { bus, dev, func, step: step + 1 });
                    } else {
                        self.registry.pci_add_device(self.record);
                        if self.record.class_code == PCI_CLASS_BRIDGE && self.record.subclass
                            == PCI_SUBCLASS_PCI_BRIDGE {
                            self.tasks.push(ScanTask::Function { bus, dev, func, step: 9 });
                        }
                    }
                } else {
                    let secondary = pci_config_read_byte(data, PCI_SECONDARY_BUS);
                    self.tasks.push(ScanTask::Bus { bus: secondary, dev: 0 });
                }
            },
        }
        proof {
            assert(tasks0.last() == t);
            assert(self.tasks@ =~= tasks0.drop_last() + next_tasks(t, rec0, data));
            assert(forall|i: int| 0 <= i < self.tasks@.len() ==> task_ok(#[trigger] self.tasks@[i]));
        }
    }
}

fn function_read_offset_of(step: u8) -> (r: u8)
    requires
        step <= 9,
    ensures
        r == function_read_offset(step),
{
    if step == 0 {
        PCI_VENDOR_ID
    } else if step == 1 {
        0x08
    } else if step == 2 {
        PCI_INTERRUPT_LINE
    } else if step < 9 {
        PCI_BAR0 + (step - 3) * 4
    } else {
        PCI_SECONDARY_BUS
    }
}

/// The tasks pushed in place of the current task `t` on reading `data`,
/// innermost last, and whether the record then goes into the table.
pub open spec fn next_tasks(t: ScanTask, rec: PCIDevice, data: u32) -> Seq<ScanTask> {
    let present = word_at(data, PCI_VENDOR_ID) != 0xFFFF;
    match t {
        ScanTask::Start => if byte_at(data, PCI_HEADER_TYPE) & 0x80 == 0 {
            seq![ScanTask::Bus { bus: 0, dev: 0 }]
        } else {
            seq![ScanTask::Root { func: 0 }]
        },
        ScanTask::Root { func } => {
            let rest = if func + 1 < 8 { seq![ScanTask::Root { func: (func + 1) as u8 }] } else { seq![] };
            if present { rest.push(ScanTask::Bus { bus: func, dev: 0 }) } else { rest }
        },
        ScanTask::Bus { bus, dev } => {
            let rest = if dev + 1 < 32 { seq![ScanTask::Bus { bus, dev: (dev + 1) as u8 }] } else { seq![] };
            if present {
                rest.push(ScanTask::Header { bus, dev }).push(ScanTask::Function { bus, dev, func: 0, step: 0 })
            } else {
                rest
            }
        },
        ScanTask::Device { bus, dev } => if present {
            seq![ScanTask::Header { bus, dev }, ScanTask::Function { bus, dev, func: 0, step: 0 }]
        } else {
            seq![]
        },
        ScanTask::Header { bus, dev } => if byte_at(data, PCI_HEADER_TYPE) & 0x80 != 0 {
            seq![ScanTask::MoreFunctions { bus, dev, func: 1 }]
        } else {
            seq![]
        },
        ScanTask::MoreFunctions { bus, dev, func } => {
            let rest = if func + 1 < 8 {
                seq![ScanTask::MoreFunctions { bus, dev, func: (func + 1) as u8 }]
            } else {
                seq![]
            };
            if present { rest.push(ScanTask::Function { bus, dev, func, step: 0 }) } else { rest }
        },
        ScanTask::Function { bus, dev, func, step } => if step == 0 {
            if present { seq![ScanTask::Function { bus, dev, func, step: 1 }] } else { seq![] }
        } else if step < 8 {
            seq![ScanTask::Function { bus, dev, func, step: (step + 1) as u8 }]
        } else if step == 8 {
            if rec.class_code == PCI_CLASS_BRIDGE && rec.subclass == PCI_SUBCLASS_PCI_BRIDGE {
                seq![ScanTask::Function { bus, dev, func, step: 9 }]
            } else {
                seq![]
            }
        } else {
            seq![ScanTask::Bus { bus: byte_at(data, PCI_SECONDARY_BUS), dev: 0 }]
        },
    }
}

/// The record after reading `data` at step `step` of a function.
pub open spec fn next_record(t: ScanTask, rec: PCIDevice, data: u32) -> PCIDevice {
    match t {
        ScanTask::Function { bus, dev, func, step } => if step == 0 {
            if word_at(data, PCI_VENDOR_ID) != 0xFFFF {
                PCIDevice {
                    bus,
                    device: dev,
                    function: func,
                    vendor_id: word_at(data, PCI_VENDOR_ID),
                    device_id: word_at(data, 0x02),
                    class_code: 0,
                    subclass: 0,
                    prog_if: 0,
                    interrupt_line: 0,
                    ..rec
                }
            } else {
                rec
            }
        } else if step == 1 {
            PCIDevice {
                class_code: byte_at(data, PCI_CLASS_CODE),
                subclass: byte_at(data, PCI_SUBCLASS),
                prog_if: byte_at(data, PCI_PROG_IF),
                ..rec
            }
        } else if step == 2 {
            PCIDevice { interrupt_line: byte_at(data, PCI_INTERRUPT_LINE), ..rec }
        } else if step < 9 {
            PCIDevice { bar: rec.bar, ..rec }
        } else {
            rec
        },
        _ => rec,
    }
}

/// One step of the walk: the current task is replaced by `next_tasks`; a
/// function's record is filled field by field (base address register
/// `step - 3` taking the dword read at steps 3 to 8) and added to the table
/// after its last base address register.
pub open spec fn step_spec(
    tasks0: Seq<ScanTask>,
    rec0: PCIDevice,
    reg0: Seq<PCIDevice>,
    data: u32,
    tasks1: Seq<ScanTask>,
    rec1: PCIDevice,
    reg1: Seq<PCIDevice>,
) -> bool {
    let t = tasks0.last();
    &&& tasks1 == tasks0.drop_last() + next_tasks(t, rec0, data)
    &&& match t {
        ScanTask::Function { step, .. } => if 3 <= step < 9 {
            &&& rec1 == (PCIDevice { bar: rec1.bar, ..rec0 })
            &&& rec1.bar@ == rec0.bar@.update(step - 3, data)
            &&& reg1 == if step == 8 && reg0.len() < crate::pci::MAX_PCI_DEVICES {
                reg0.push(rec1)
            } else {
                reg0
            }
        } else {
            rec1 == next_record(t, rec0, data) && reg1 == reg0
        },
        _ => rec1 == rec0 && reg1 == reg0,
    }
}

/// Every device found answered with a vendor id, and so does the function
/// whose record is being read.
pub open spec fn scan_inv(tasks: Seq<ScanTask>, rec: PCIDevice, reg: Seq<PCIDevice>) -> bool {
    &&& forall|i: int| 0 <= i < reg.len() ==> (#[trigger] reg[i]).vendor_id != 0xFFFF
    &&& forall|i: int|
        0 <= i < tasks.len() ==> (#[trigger] tasks[i] matches ScanTask::Function { step, .. } && step >= 1)
            ==> rec.vendor_id != 0xFFFF
}

/// Only functions that answer with a vendor id are recorded: every step of
/// the walk keeps `scan_inv`, which holds at its start.
pub proof fn law_scan_records_present(
    tasks0: Seq<ScanTask>,
    rec0: PCIDevice,
    reg0: Seq<PCIDevice>,
    data: u32,
    tasks1: Seq<ScanTask>,
    rec1: PCIDevice,
    reg1: Seq<PCIDevice>,
)
    requires
        tasks0.len() > 0,
        scan_inv(tasks0, rec0, reg0),
        step_spec(tasks0, rec0, reg0, data, tasks1, rec1, reg1),
    ensures
        scan_inv(tasks1, rec1, reg1),
        scan_inv(seq![ScanTask::Start], rec0, Seq::empty()),
{
    let t = tasks0.last();
    assert(tasks0[tasks0.len() - 1] == t);
    let nt = next_tasks(t, rec0, data);
    assert forall|i: int| 0 <= i < tasks1.len() && (#[trigger] tasks1[i] matches ScanTask::Function { step, .. } && step >= 1)
        implies rec1.vendor_id != 0xFFFF by {
        if i < tasks0.len() - 1 {
            assert(tasks1[i] == tasks0[i]);
            assert(rec0.vendor_id != 0xFFFF);
        } else {
            assert(tasks1[i] == nt[i - (tasks0.len() - 1)]);
        }
    }
    assert(scan_inv(seq![ScanTask::Start], rec0, Seq::empty()));
}

} // verus!
