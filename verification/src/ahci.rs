//! AHCI: the register values of a port and its command headers, the split
//! of 64-bit physical addresses into register halves, free command slots,
//! the device type of a port, the host-to-device FIS, the setup of one
//! command and the poll of its completion, the sector count answered by
//! IDENTIFY, and the table of drives found. Every register access is the
//! caller's: the functions here compute the values read and written.
use vstd::prelude::*;
use vstd::arithmetic::div_mod::{lemma_div_denominator, lemma_div_pos_is_pos, lemma_mod_breakdown};

verus! {

pub const HBA_PORT_CMD_ST: u32 = 1 << 0;
pub const HBA_PORT_CMD_FRE: u32 = 1 << 4;
pub const HBA_PORT_CMD_FR: u32 = 1 << 14;
pub const HBA_PORT_CMD_CR: u32 = 1 << 15;

pub const HBA_PX_IS_TFES: u32 = 1 << 30;

pub const HBA_PORT_SIG_ATA: u32 = 0x00000101;
pub const HBA_PORT_SIG_ATAPI: u32 = 0xEB140101;
pub const HBA_PORT_SIG_SEMB: u32 = 0xC33C0101;
pub const HBA_PORT_SIG_PM: u32 = 0x96690101;

pub const HBA_PORT_DET_PRESENT: u32 = 0x3;
pub const HBA_PORT_IPM_ACTIVE: u32 = 0x1;

pub const ATA_DEV_BUSY: u8 = 0x80;
pub const ATA_DEV_DRQ: u8 = 0x08;

pub const ATA_CMD_READ_DMA_EX: u8 = 0x25;
pub const ATA_CMD_WRITE_DMA_EX: u8 = 0x35;
pub const ATA_CMD_IDENTIFY: u8 = 0xEC;

pub const FIS_TYPE_REG_H2D: u8 = 0x27;
pub const FIS_TYPE_REG_D2H: u8 = 0x34;
pub const FIS_TYPE_DMA_ACT: u8 = 0x39;
pub const FIS_TYPE_DMA_SETUP: u8 = 0x41;
pub const FIS_TYPE_DATA: u8 = 0x46;
pub const FIS_TYPE_BIST: u8 = 0x58;
pub const FIS_TYPE_PIO_SETUP: u8 = 0x5F;
pub const FIS_TYPE_DEV_BITS: u8 = 0xA1;

pub const HBA_GHC_AE: u32 = 1 << 31;
pub const HBA_GHC_IE: u32 = 1 << 1;
pub const HBA_GHC_HR: u32 = 1 << 0;

pub const AHCI_CMD_HEADER_FLAGS_FIS_LEN: u16 = 5;
pub const AHCI_CMD_HEADER_FLAGS_WRITE: u16 = 1 << 6;
pub const AHCI_CMD_HEADER_FLAGS_PREFETCHABLE: u16 = 1 << 7;
pub const AHCI_CMD_HEADER_FLAGS_CLR_BUSY: u16 = 1 << 10;

pub const AHCI_PRDT_DBC_MASK: u32 = 0x3FFFFF;
pub const AHCI_PRDT_DBC_IPC: u32 = 1 << 31;

pub const AHCI_DEV_NULL: u8 = 0;
pub const AHCI_DEV_SATA: u8 = 1;
pub const AHCI_DEV_SATAPI: u8 = 2;
pub const AHCI_DEV_SEMB: u8 = 3;
pub const AHCI_DEV_PM: u8 = 4;

/// Command slots of a port.
pub const AHCI_SLOTS: u32 = 32;

/// Polls of the command-issued register before a command is given up.
pub const COMMAND_TIMEOUT: u32 = 1_000_000;

/// The register pair holding `addr`: its low and its high 32 bits.
pub open spec fn split_spec(addr: u64) -> (u32, u32) {
    ((addr % 0x1_0000_0000) as u32, (addr / 0x1_0000_0000) as u32)
}

/// The address held by a register pair.
pub open spec fn join_spec(lo: u32, hi: u32) -> u64 {
    (hi * 0x1_0000_0000 + lo) as u64
}

/// Splits a physical address into the values of its low and high registers.
pub fn split_addr(addr: u64) -> (r: (u32, u32))
    ensures
        r == split_spec(addr),
        join_spec(r.0, r.1) == addr,
{
    proof {
        lemma_split_join(addr);
    }
    ((addr % 0x1_0000_0000) as u32, (addr / 0x1_0000_0000) as u32)
}

/// The address held by a pair of low and high registers.
pub fn join_addr(lo: u32, hi: u32) -> (r: u64)
    ensures
        r == join_spec(lo, hi),
        split_spec(r) == (lo, hi),
{
    proof {
        lemma_join_split(lo, hi);
    }
    (hi as u64) * 0x1_0000_0000 + lo as u64
}

proof fn lemma_split_join(a: u64)
    ensures
        (a / 0x1_0000_0000) * 0x1_0000_0000 + a % 0x1_0000_0000 == a,
        a / 0x1_0000_0000 < 0x1_0000_0000,
{
    assert((a / 0x1_0000_0000) * 0x1_0000_0000 + a % 0x1_0000_0000 == a && a / 0x1_0000_0000 < 0x1_0000_0000)
        by (nonlinear_arith)
        requires 0 <= a < 0x1_0000_0000_0000_0000;
}

proof fn lemma_join_split(lo: u32, hi: u32)
    ensures
        hi * 0x1_0000_0000 + lo < 0x1_0000_0000_0000_0000,
        (hi * 0x1_0000_0000 + lo) % 0x1_0000_0000 == lo,
        (hi * 0x1_0000_0000 + lo) / 0x1_0000_0000 == hi,
{
    assert(hi * 0x1_0000_0000 + lo < 0x1_0000_0000_0000_0000 && (hi * 0x1_0000_0000 + lo) % 0x1_0000_0000 == lo && (hi
        * 0x1_0000_0000 + lo) / 0x1_0000_0000 == hi) by (nonlinear_arith)
        requires 0 <= lo < 0x1_0000_0000, 0 <= hi < 0x1_0000_0000;
}

/// Splitting an address into two registers and joining them gives it back,
/// and so does joining two registers and splitting the result.
pub proof fn law_addr_round_trip(addr: u64, lo: u32, hi: u32)
    ensures
        join_spec(split_spec(addr).0, split_spec(addr).1) == addr,
        split_spec(join_spec(lo, hi)) == (lo, hi),
{
    lemma_split_join(addr);
    lemma_join_split(lo, hi);
}

/// The registers of one port, as last read or as to be written.
#[derive(Debug, Clone, Copy, PartialEq, Eq, Structural)]
pub struct HbaPort {
    pub clbl: u32,
    pub clbu: u32,
    pub fbl: u32,
    pub fbu: u32,
    pub is: u32,
    pub ie: u32,
    pub cmd: u32,
    pub tfd: u32,
    pub sig: u32,
    pub ssts: u32,
    pub sctl: u32,
    pub serr: u32,
    pub sact: u32,
    pub ci: u32,
    pub sntf: u32,
    pub fbs: u32,
}

impl HbaPort {
    /// The command list base address.
    pub fn clb(&self) -> (r: u64)
        ensures
            r == join_spec(self.clbl, self.clbu),
    {
        join_addr(self.clbl, self.clbu)
    }

    /// Sets the command list base address.
    pub fn set_clb(&mut self, addr: u64)
        ensures
            final(self).clb_spec() == addr,
            (final(self).clbl, final(self).clbu) == split_spec(addr),
            *final(self) == (HbaPort { clbl: final(self).clbl, clbu: final(self).clbu, ..*old(self) }),
    {
        let (lo, hi) = split_addr(addr);
        self.clbl = lo;
        self.clbu = hi;
    }

    pub open spec fn clb_spec(&self) -> u64 {
        join_spec(self.clbl, self.clbu)
    }

    /// The received FIS base address.
    pub fn fb(&self) -> (r: u64)
        ensures
            r == join_spec(self.fbl, self.fbu),
    {
        join_addr(self.fbl, self.fbu)
    }

    /// Sets the received FIS base address.
    pub fn set_fb(&mut self, addr: u64)
        ensures
            join_spec(final(self).fbl, final(self).fbu) == addr,
            (final(self).fbl, final(self).fbu) == split_spec(addr),
            *final(self) == (HbaPort { fbl: final(self).fbl, fbu: final(self).fbu, ..*old(self) }),
    {
        let (lo, hi) = split_addr(addr);
        self.fbl = lo;
        self.fbu = hi;
    }
}

/// Bit `i` of `x` is clear.
pub open spec fn bit_clear(x: u32, i: u32) -> bool {
    (x >> i) & 1 == 0
}

/// A free command slot of the port: the lowest one neither active nor
/// issued.
pub fn find_cmdslot(port: &HbaPort) -> (r: Option<u32>)
    ensures
        match r {
            Some(i) => i < AHCI_SLOTS && bit_clear(port.sact | port.ci, i) && forall|j: u32|
                j < i ==> !bit_clear(port.sact | port.ci, j),
            None => forall|j: u32| j < AHCI_SLOTS ==> !bit_clear(port.sact | port.ci, j),
        },
{
    let busy = port.sact | port.ci;
    let mut i: u32 = 0;
    while i < AHCI_SLOTS
        invariant
            i <= AHCI_SLOTS,
            busy == port.sact | port.ci,
            forall|j: u32| j < i ==> !bit_clear(busy, j),
        decreases AHCI_SLOTS - i,
    {
        if (busy >> i) & 1 == 0 {
            return Some(i);
        }
        i = i + 1;
    }
    None
}

/// The device type behind a port: none unless a device is present and its
/// interface is active, else by its signature.
pub open spec fn port_type(ssts: u32, sig: u32) -> u8 {
    let ipm = (ssts >> 8) & 0x0F;
    let det = ssts & 0x0F;
    if det != HBA_PORT_DET_PRESENT || ipm != HBA_PORT_IPM_ACTIVE {
        AHCI_DEV_NULL
    } else if sig == HBA_PORT_SIG_ATAPI {
        AHCI_DEV_SATAPI
    } else if sig == HBA_PORT_SIG_SEMB {
        AHCI_DEV_SEMB
    } else if sig == HBA_PORT_SIG_PM {
        AHCI_DEV_PM
    } else {
        AHCI_DEV_SATA
    }
}

pub fn check_type(port: &HbaPort) -> (r: u8)
    ensures
        r == port_type(port.ssts, port.sig),
{
    let ssts = port.ssts;
    let ipm = (ssts >> 8) & 0x0F;
    let det = ssts & 0x0F;
    if det != HBA_PORT_DET_PRESENT || ipm != HBA_PORT_IPM_ACTIVE {
        return AHCI_DEV_NULL;
    }
    let sig = port.sig;
    if sig == HBA_PORT_SIG_ATAPI {
        AHCI_DEV_SATAPI
    } else if sig == HBA_PORT_SIG_SEMB {
        AHCI_DEV_SEMB
    } else if sig == HBA_PORT_SIG_PM {
        AHCI_DEV_PM
    } else {
        AHCI_DEV_SATA
    }
}

/// Byte `k` of `x`, least significant first.
pub open spec fn byte_of(x: int, k: nat) -> u8 {
    ((x / vstd::arithmetic::power::pow(256, k)) % 256) as u8
}

/// The host-to-device register FIS for `command` on `lba` and `count`
/// sectors: its first fourteen bytes; the rest stay as they were.
pub open spec fn fis_ok(fis: Seq<u8>, old_fis: Seq<u8>, command: u8, lba: u64, count: u32) -> bool {
    &&& fis.len() == 64
    &&& fis[0] == FIS_TYPE_REG_H2D
    &&& fis[1] == 0x80
    &&& fis[2] == command
    &&& fis[3] == 0
    &&& fis[4] == byte_of(lba as int, 0)
    &&& fis[5] == byte_of(lba as int, 1)
    &&& fis[6] == byte_of(lba as int, 2)
    &&& fis[7] == 0x40
    &&& fis[8] == byte_of(lba as int, 3)
    &&& fis[9] == byte_of(lba as int, 4)
    &&& fis[10] == byte_of(lba as int, 5)
    &&& fis[11] == 0
    &&& fis[12] == byte_of(count as int, 0)
    &&& fis[13] == byte_of(count as int, 1)
    &&& forall|i: int| 14 <= i < 64 ==> fis[i] == old_fis[i]
}

/// Fills in the host-to-device register FIS: a command (not a control
/// write), the LBA in six bytes with LBA mode selected, and the sector
/// count in two.
pub fn build_fis(fis: &mut [u8; 64], command: u8, lba: u64, count: u32)
    ensures
        fis_ok(final(fis)@, old(fis)@, command, lba, count),
{
    proof {
        reveal_with_fuel(vstd::arithmetic::power::pow, 7);
    }
    fis[0] = FIS_TYPE_REG_H2D;
    fis[1] = 0x80;
    fis[2] = command;
    fis[3] = 0x00;
    fis[4] = (lba % 0x100) as u8;
    fis[5] = ((lba / 0x100) % 0x100) as u8;
    fis[6] = ((lba / 0x10000) % 0x100) as u8;
    fis[7] = 0x40;
    fis[8] = ((lba / 0x1000000) % 0x100) as u8;
    fis[9] = ((lba / 0x100000000) % 0x100) as u8;
    fis[10] = ((lba / 0x10000000000) % 0x100) as u8;
    fis[11] = 0x00;
    fis[12] = (count % 0x100) as u8;
    fis[13] = ((count / 0x100) % 0x100) as u8;
}

/// One slot's command header.
#[derive(Debug, Clone, Copy, PartialEq, Eq, Structural)]
pub struct HbaCmdHeader {
    pub flags: u16,
    pub prdtl: u16,
    pub prdbc: u32,
    pub ctbal: u32,
    pub ctbau: u32,
}

impl HbaCmdHeader {
    /// The command table base address.
    pub fn ctba(&self) -> (r: u64)
        ensures
            r == join_spec(self.ctbal, self.ctbau),
    {
        join_addr(self.ctbal, self.ctbau)
    }

    /// Sets the command table base address.
    pub fn set_ctba(&mut self, addr: u64)
        ensures
            join_spec(final(self).ctbal, final(self).ctbau) == addr,
            (final(self).ctbal, final(self).ctbau) == split_spec(addr),
            final(self).flags == old(self).flags && final(self).prdtl == old(self).prdtl && final(self).prdbc == old(
                self,
            ).prdbc,
    {
        let (lo, hi) = split_addr(addr);
        self.ctbal = lo;
        self.ctbau = hi;
    }
}

/// One physical region descriptor.
#[derive(Debug, Clone, Copy, PartialEq, Eq, Structural)]
pub struct HbaPrdtEntry {
    pub dbal: u32,
    pub dbau: u32,
    pub dbc: u32,
}

impl HbaPrdtEntry {
    /// Sets the data base address.
    pub fn set_dba(&mut self, addr: u64)
        ensures
            join_spec(final(self).dbal, final(self).dbau) == addr,
            (final(self).dbal, final(self).dbau) == split_spec(addr),
            final(self).dbc == old(self).dbc,
    {
        let (lo, hi) = split_addr(addr);
        self.dbal = lo;
        self.dbau = hi;
    }
}

/// The header flags of a command: the FIS length, and the write bit for a
/// write.
pub open spec fn header_flags(command: u8) -> u16 {
    AHCI_CMD_HEADER_FLAGS_FIS_LEN | if command == ATA_CMD_WRITE_DMA_EX {
        AHCI_CMD_HEADER_FLAGS_WRITE
    } else {
        0
    }
}

/// Everything written into memory to issue one command: its slot's header,
/// the FIS of its table and its one region descriptor.
pub struct CommandSetup {
    pub header: HbaCmdHeader,
    pub fis: [u8; 64],
    pub prdt: HbaPrdtEntry,
}

/// Prepares one command in a slot whose header holds the table address
/// `ctba`: one region of `byte_count` bytes at the physical address
/// `buf_phys`, and the FIS for `command` with `fis_count` sectors at `lba`.
/// The table is cleared before the FIS is written.
pub fn setup_command(ctba: u64, lba: u64, buf_phys: u64, fis_count: u32, byte_count: u32, command: u8) -> (r:
    CommandSetup)
    requires
        byte_count >= 1,
    ensures
        r.header.prdtl == 1,
        r.header.prdbc == 0,
        r.header.flags == header_flags(command),
        join_spec(r.header.ctbal, r.header.ctbau) == ctba,
        fis_ok(r.fis@, Seq::new(64, |i: int| 0u8), command, lba, fis_count),
        join_spec(r.prdt.dbal, r.prdt.dbau) == buf_phys,
        r.prdt.dbc == byte_count - 1,
{
    let (clo, chi) = split_addr(ctba);
    let header = HbaCmdHeader {
        flags: AHCI_CMD_HEADER_FLAGS_FIS_LEN | if command == ATA_CMD_WRITE_DMA_EX {
            AHCI_CMD_HEADER_FLAGS_WRITE
        } else {
            0
        },
        prdtl: 1,
        prdbc: 0,
        ctbal: clo,
        ctbau: chi,
    };
    let mut fis = [0u8; 64];
    assert(fis@ =~= Seq::new(64, |i: int| 0u8));
    build_fis(&mut fis, command, lba, fis_count);
    let mut prdt = HbaPrdtEntry { dbal: 0, dbau: 0, dbc: byte_count - 1 };
    prdt.set_dba(buf_phys);
    CommandSetup { header, fis, prdt }
}

/// What one poll of a running command finds.
#[derive(Debug, Clone, Copy, PartialEq, Eq, Structural)]
pub enum PollOutcome {
    /// No answer came in time.
    TimedOut,
    /// The drive reported a task file error.
    DeviceError,
    /// The slot cleared: the command is done.
    Completed,
    /// Still running; poll again with this many polls left.
    Pending(u32),
}

/// One poll of the command in `slot`, with `timeout` polls left, given the
/// interrupt status and command-issued registers just read.
pub fn poll_step(timeout: u32, is: u32, ci: u32, slot: u32) -> (r: PollOutcome)
    requires
        slot < AHCI_SLOTS,
    ensures
        timeout == 0 ==> r == PollOutcome::TimedOut,
        timeout != 0 && is & HBA_PX_IS_TFES != 0 ==> r == PollOutcome::DeviceError,
        timeout != 0 && is & HBA_PX_IS_TFES == 0 && bit_clear(ci, slot) ==> r == PollOutcome::Completed,
        timeout != 0 && is & HBA_PX_IS_TFES == 0 && !bit_clear(ci, slot) ==> r == PollOutcome::Pending(
            (timeout - 1) as u32,
        ),
{
    if timeout == 0 {
        return PollOutcome::TimedOut;
    }
    if is & HBA_PX_IS_TFES != 0 {
        return PollOutcome::DeviceError;
    }
    if (ci >> slot) & 1 == 0 {
        return PollOutcome::Completed;
    }
    PollOutcome::Pending(timeout - 1)
}

/// A completed command succeeded unless the interrupt status read after it
/// shows a task file error.
pub fn command_succeeded(is: u32) -> (r: bool)
    ensures
        r == (is & HBA_PX_IS_TFES == 0),
{
    is & HBA_PX_IS_TFES == 0
}

/// The command-issued value that starts the command in `slot`.
pub fn issue_bit(slot: u32) -> (r: u32)
    requires
        slot < AHCI_SLOTS,
    ensures
        r == 1u32 << slot,
{
    1u32 << slot
}

/// Word `k` of a 512-byte IDENTIFY answer, little-endian.
pub open spec fn id_word(buf: Seq<u8>, k: int) -> int {
    buf[2 * k] + 256 * buf[2 * k + 1]
}

/// The sector count in an IDENTIFY answer: words 100 to 103 when word 83
/// says 48-bit addressing is supported, else words 60 and 61.
pub open spec fn identify_sectors(buf: Seq<u8>) -> u64 {
    if (id_word(buf, 83) as u16) & 0x400 != 0 {
        (id_word(buf, 100) + 0x10000 * (id_word(buf, 101) + 0x10000 * (id_word(buf, 102) + 0x10000 * id_word(
            buf,
            103,
        )))) as u64
    } else {
        (id_word(buf, 60) + 0x10000 * id_word(buf, 61)) as u64
    }
}

fn read_id_word(buf: &[u8], k: usize) -> (r: u64)
    requires
        k < 256,
        buf@.len() == 512,
    ensures
        r == id_word(buf@, k as int),
        r < 0x10000,
{
    buf[2 * k] as u64 + 256 * (buf[2 * k + 1] as u64)
}

/// The sector count of a drive from its 512-byte IDENTIFY answer.
pub fn identify_sector_count(buf: &[u8]) -> (r: u64)
    requires
        buf@.len() == 512,
    ensures
        r == identify_sectors(buf@),
{
    let w83 = read_id_word(buf, 83) as u16;
    if w83 & 0x400 != 0 {
        let a = read_id_word(buf, 100);
        let b = read_id_word(buf, 101);
        let c = read_id_word(buf, 102);
        let d = read_id_word(buf, 103);
        assert(a + 0x10000 * (b + 0x10000 * (c + 0x10000 * d)) < 0x1_0000_0000_0000_0000) by (nonlinear_arith)
            requires a < 0x10000, b < 0x10000, c < 0x10000, d < 0x10000;
        a + 0x10000 * (b + 0x10000 * (c + 0x10000 * d))
    } else {
        let a = read_id_word(buf, 60);
        let b = read_id_word(buf, 61);
        a + 0x10000 * b
    }
}

/// A drive found on a port.
#[derive(Debug, Clone, Copy, PartialEq, Eq, Structural)]
pub struct AhciDrive {
    /// The index of its port.
    pub port: u32,
    pub port_type: u8,
    pub sector_count: u64,
}

/// The drives found, in the order they were found.
pub struct AhciDrives {
    drives: Vec<AhciDrive>,
}

impl AhciDrives {
    pub closed spec fn view(&self) -> Seq<AhciDrive> {
        self.drives@
    }

    pub fn new() -> (r: Self)
        ensures
            r@ == Seq::<AhciDrive>::empty(),
    {
        AhciDrives { drives: Vec::new() }
    }

    /// Records a drive.
    pub fn push(&mut self, drive: AhciDrive)
        ensures
            final(self)@ == old(self)@.push(drive),
    {
        self.drives.push(drive);
    }

    pub fn get_drive_count(&self) -> (r: usize)
        ensures
            r == self@.len(),
    {
        self.drives.len()
    }

    /// The sector count of drive `index`, if there is one.
    pub fn get_drive_sector_count(&self, index: usize) -> (r: Option<u64>)
        ensures
            index < self@.len() ==> r == Some(self@[index as int].sector_count),
            index >= self@.len() ==> r is None,
    {
        if index < self.drives.len() {
            Some(self.drives[index].sector_count)
        } else {
            None
        }
    }

    /// The port of drive `index`, to read or write it through; none when no
    /// such drive exists, and the transfer then fails.
    pub fn drive_port(&self, index: usize) -> (r: Option<u32>)
        ensures
            index < self@.len() ==> r == Some(self@[index as int].port),
            index >= self@.len() ==> r is None,
    {
        if index < self.drives.len() {
            Some(self.drives[index].port)
        } else {
            None
        }
    }
}

/// Whether the controller implements port `i`.
pub fn port_implemented(pi: u32, i: u32) -> (r: bool)
    requires
        i < AHCI_SLOTS,
    ensures
        r == !bit_clear(pi, i),
{
    (pi >> i) & 1 != 0
}

/// Whether a device type is a drive that is set up and identified.
pub fn is_drive(dt: u8) -> (r: bool)
    ensures
        r == (dt == AHCI_DEV_SATA || dt == AHCI_DEV_SATAPI),
{
    dt == AHCI_DEV_SATA || dt == AHCI_DEV_SATAPI
}

/// The physical base of the controller's registers from its fifth base
/// address register, with the low flag bits cleared.
pub fn abar_base(bar5: u32) -> (r: u64)
    ensures
        r == bar5 - bar5 % 16,
        r % 16 == 0,
{
    (bar5 as u64) - (bar5 as u64) % 16
}

/// The global host control value that switches the controller to AHCI mode.
pub fn ghc_enable_ahci(ghc: u32) -> (r: u32)
    ensures
        r == ghc | HBA_GHC_AE,
{
    ghc | HBA_GHC_AE
}

/// The command register with the receive FIS engine enabled, then with
/// command processing started: the two writes that start a port once no
/// command list is running.
pub fn start_cmd_values(cmd: u32) -> (r: (u32, u32))
    ensures
        r.0 == cmd | HBA_PORT_CMD_FRE,
        r.1 == (cmd | HBA_PORT_CMD_FRE) | HBA_PORT_CMD_ST,
{
    let with_fre = cmd | HBA_PORT_CMD_FRE;
    (with_fre, with_fre | HBA_PORT_CMD_ST)
}

/// The command register with command processing stopped.
pub fn stop_cmd_value(cmd: u32) -> (r: u32)
    ensures
        r == cmd & !HBA_PORT_CMD_ST,
{
    cmd & !HBA_PORT_CMD_ST
}

/// The command register with the receive FIS engine disabled.
pub fn stop_fis_value(cmd: u32) -> (r: u32)
    ensures
        r == cmd & !HBA_PORT_CMD_FRE,
{
    cmd & !HBA_PORT_CMD_FRE
}

/// Whether the command list is still running.
pub fn cmd_running(cmd: u32) -> (r: bool)
    ensures
        r == (cmd & HBA_PORT_CMD_CR != 0),
{
    cmd & HBA_PORT_CMD_CR != 0
}

/// Whether the receive FIS engine is still running.
pub fn fis_running(cmd: u32) -> (r: bool)
    ensures
        r == (cmd & HBA_PORT_CMD_FR != 0),
{
    cmd & HBA_PORT_CMD_FR != 0
}

/// The header of a slot after a port is rebased: eight region descriptors
/// and its own command table at `ctba`.
pub fn rebased_header(ctba: u64) -> (r: HbaCmdHeader)
    ensures
        r.prdtl == 8,
        r.flags == 0,
        r.prdbc == 0,
        join_spec(r.ctbal, r.ctbau) == ctba,
{
    let mut h = HbaCmdHeader { flags: 0, prdtl: 8, prdbc: 0, ctbal: 0, ctbau: 0 };
    h.set_ctba(ctba);
    h
}

/// The byte count of `count` sectors, as a read or write asks the drive
/// for.
pub fn sectors_to_bytes(count: u32) -> (r: u32)
    requires
        count * 512 <= u32::MAX,
    ensures
        r == count * 512,
{
    count * 512
}

/// The setup of a read of `count` sectors at `lba` into the buffer at the
/// physical address `buf_phys`, in the slot whose table is at `ctba`.
pub fn ahci_read(ctba: u64, lba: u64, count: u32, buf_phys: u64) -> (r: CommandSetup)
    requires
        1 <= count,
        count * 512 <= u32::MAX,
    ensures
        r.header.prdtl == 1 && r.header.prdbc == 0,
        r.header.flags == AHCI_CMD_HEADER_FLAGS_FIS_LEN,
        join_spec(r.header.ctbal, r.header.ctbau) == ctba,
        fis_ok(r.fis@, Seq::new(64, |i: int| 0u8), ATA_CMD_READ_DMA_EX, lba, count),
        join_spec(r.prdt.dbal, r.prdt.dbau) == buf_phys,
        r.prdt.dbc == count * 512 - 1,
{
    let bytes = sectors_to_bytes(count);
    let r = setup_command(ctba, lba, buf_phys, count, bytes, ATA_CMD_READ_DMA_EX);
    assert(header_flags(ATA_CMD_READ_DMA_EX) == AHCI_CMD_HEADER_FLAGS_FIS_LEN | 0) ;
    assert(AHCI_CMD_HEADER_FLAGS_FIS_LEN | 0u16 == AHCI_CMD_HEADER_FLAGS_FIS_LEN) by (bit_vector);
    r
}

/// The setup of a write of `count` sectors at `lba` from the buffer at the
/// physical address `buf_phys`, in the slot whose table is at `ctba`.
pub fn ahci_write(ctba: u64, lba: u64, count: u32, buf_phys: u64) -> (r: CommandSetup)
    requires
        1 <= count,
        count * 512 <= u32::MAX,
    ensures
        r.header.prdtl == 1 && r.header.prdbc == 0,
        r.header.flags == AHCI_CMD_HEADER_FLAGS_FIS_LEN | AHCI_CMD_HEADER_FLAGS_WRITE,
        join_spec(r.header.ctbal, r.header.ctbau) == ctba,
        fis_ok(r.fis@, Seq::new(64, |i: int| 0u8), ATA_CMD_WRITE_DMA_EX, lba, count),
        join_spec(r.prdt.dbal, r.prdt.dbau) == buf_phys,
        r.prdt.dbc == count * 512 - 1,
{
    let bytes = sectors_to_bytes(count);
    setup_command(ctba, lba, buf_phys, count, bytes, ATA_CMD_WRITE_DMA_EX)
}

/// The setup of an IDENTIFY into the 512-byte buffer at `buf_phys`: no
/// sector count in the FIS, one region of 512 bytes.
pub fn ahci_identify_setup(ctba: u64, buf_phys: u64) -> (r: CommandSetup)
    ensures
        r.header.prdtl == 1 && r.header.prdbc == 0,
        r.header.flags == header_flags(ATA_CMD_IDENTIFY),
        join_spec(r.header.ctbal, r.header.ctbau) == ctba,
        fis_ok(r.fis@, Seq::new(64, |i: int| 0u8), ATA_CMD_IDENTIFY, 0, 0),
        join_spec(r.prdt.dbal, r.prdt.dbau) == buf_phys,
        r.prdt.dbc == 511,
{
    setup_command(ctba, 0, buf_phys, 0, 512, ATA_CMD_IDENTIFY)
}

/// The sector count a drive answers to IDENTIFY, if the command succeeded.
pub fn ahci_identify(ok: bool, answer: &[u8]) -> (r: Option<u64>)
    requires
        answer@.len() == 512,
    ensures
        !ok ==> r is None,
        ok ==> r == Some(identify_sectors(answer@)),
{
    if !ok {
        return None;
    }
    Some(identify_sector_count(answer))
}

/// The controller's global registers and its ports.
pub struct HbaMem {
    pub cap: u32,
    pub ghc: u32,
    pub is: u32,
    pub pi: u32,
    pub vs: u32,
    pub ccc_ctl: u32,
    pub ccc_pts: u32,
    pub em_loc: u32,
    pub em_ctl: u32,
    pub cap2: u32,
    pub bohc: u32,
    pub ports: Vec<HbaPort>,
}

/// A command table: the command FIS, the ATAPI command and the region
/// descriptors.
pub struct HbaCmdTbl {
    pub cfis: [u8; 64],
    pub acmd: [u8; 16],
    pub prdt_entry: Vec<HbaPrdtEntry>,
}

/// A host-to-device register FIS, field by field.
#[derive(Debug, Clone, Copy, PartialEq, Eq, Structural)]
pub struct FisRegH2D {
    pub fis_type: u8,
    pub flags: u8,
    pub command: u8,
    pub featurel: u8,
    pub lba0: u8,
    pub lba1: u8,
    pub lba2: u8,
    pub device: u8,
    pub lba3: u8,
    pub lba4: u8,
    pub lba5: u8,
    pub featureh: u8,
    pub countl: u8,
    pub counth: u8,
    pub icc: u8,
    pub control: u8,
}

impl FisRegH2D {
    /// The FIS laid out in the first sixteen bytes of `fis`.
    pub fn from_bytes(fis: &[u8; 64]) -> (r: Self)
        ensures
            r.fis_type == fis@[0] && r.flags == fis@[1] && r.command == fis@[2] && r.featurel == fis@[3],
            r.lba0 == fis@[4] && r.lba1 == fis@[5] && r.lba2 == fis@[6] && r.device == fis@[7],
            r.lba3 == fis@[8] && r.lba4 == fis@[9] && r.lba5 == fis@[10] && r.featureh == fis@[11],
            r.countl == fis@[12] && r.counth == fis@[13] && r.icc == fis@[14] && r.control == fis@[15],
    {
        FisRegH2D {
            fis_type: fis[0],
            flags: fis[1],
            command: fis[2],
            featurel: fis[3],
            lba0: fis[4],
            lba1: fis[5],
            lba2: fis[6],
            device: fis[7],
            lba3: fis[8],
            lba4: fis[9],
            lba5: fis[10],
            featureh: fis[11],
            countl: fis[12],
            counth: fis[13],
            icc: fis[14],
            control: fis[15],
        }
    }

    /// The LBA the FIS addresses.
    pub open spec fn lba(self) -> int {
        self.lba0 + 0x100 * (self.lba1 + 0x100 * (self.lba2 + 0x100 * (self.lba3 + 0x100 * (self.lba4 + 0x100
            * self.lba5 as int))))
    }

    /// The sector count the FIS asks for.
    pub open spec fn count(self) -> int {
        self.countl + 0x100 * self.counth
    }
}

/// A FIS built for a command reads back as that command, in LBA mode, with
/// the LBA modulo 2^48 and the sector count modulo 2^16.
pub proof fn law_fis_round_trip(fis: Seq<u8>, old_fis: Seq<u8>, command: u8, lba: u64, count: u32, h: FisRegH2D)
    requires
        fis_ok(fis, old_fis, command, lba, count),
        h.fis_type == fis[0] && h.flags == fis[1] && h.command == fis[2] && h.featurel == fis[3],
        h.lba0 == fis[4] && h.lba1 == fis[5] && h.lba2 == fis[6] && h.device == fis[7],
        h.lba3 == fis[8] && h.lba4 == fis[9] && h.lba5 == fis[10] && h.featureh == fis[11],
        h.countl == fis[12] && h.counth == fis[13],
    ensures
        h.fis_type == FIS_TYPE_REG_H2D,
        h.command == command,
        h.device == 0x40,
        h.lba() == lba % 0x1_0000_0000_0000,
        h.count() == count % 0x10000,
{
    reveal_with_fuel(vstd::arithmetic::power::pow, 7);
    lemma_le_bytes(lba as int);
    let c = count as int;
    vstd::arithmetic::div_mod::lemma_mod_breakdown(c, 256, 256);
}

/// The low six bytes of `l`, least significant first, make up `l` modulo
/// 2^48.
proof fn lemma_le_bytes(l: int)
    requires
        0 <= l,
    ensures
        (l % 256) + 256 * ((l / 0x100) % 256 + 256 * ((l / 0x10000) % 256 + 256 * ((l / 0x1000000) % 256 + 256 * ((l
            / 0x100000000) % 256 + 256 * ((l / 0x10000000000) % 256))))) == l % 0x1_0000_0000_0000,
{
    let x1 = l / 0x100;
    let x2 = l / 0x10000;
    let x3 = l / 0x1000000;
    let x4 = l / 0x100000000;
    let x5 = l / 0x10000000000;
    lemma_div_pos_is_pos(l, 0x100);
    lemma_div_pos_is_pos(l, 0x10000);
    lemma_div_pos_is_pos(l, 0x1000000);
    lemma_div_pos_is_pos(l, 0x100000000);
    lemma_div_pos_is_pos(l, 0x10000000000);
    lemma_div_denominator(l, 0x100, 0x100);
    lemma_div_denominator(l, 0x10000, 0x100);
    lemma_div_denominator(l, 0x1000000, 0x100);
    lemma_div_denominator(l, 0x100000000, 0x100);
    lemma_mod_breakdown(l, 256, 0x100_0000_0000);
    lemma_mod_breakdown(x1, 256, 0x1_0000_0000);
    lemma_mod_breakdown(x2, 256, 0x100_0000);
    lemma_mod_breakdown(x3, 256, 0x1_0000);
    lemma_mod_breakdown(x4, 256, 0x100);
}

/// A device-to-host register FIS.
#[derive(Debug, Clone, Copy, PartialEq, Eq, Structural)]
pub struct FisRegD2H {
    pub fis_type: u8,
    pub flags: u8,
    pub status: u8,
    pub error: u8,
    pub lba0: u8,
    pub lba1: u8,
    pub lba2: u8,
    pub device: u8,
    pub lba3: u8,
    pub lba4: u8,
    pub lba5: u8,
    pub countl: u8,
    pub counth: u8,
}

/// A data FIS header and its first dword.
#[derive(Debug, Clone, Copy, PartialEq, Eq, Structural)]
pub struct FisData {
    pub fis_type: u8,
    pub flags: u8,
    pub data: u32,
}

/// A PIO setup FIS.
#[derive(Debug, Clone, Copy, PartialEq, Eq, Structural)]
pub struct FisPioSetup {
    pub fis_type: u8,
    pub flags: u8,
    pub status: u8,
    pub error: u8,
    pub lba0: u8,
    pub lba1: u8,
    pub lba2: u8,
    pub device: u8,
    pub lba3: u8,
    pub lba4: u8,
    pub lba5: u8,
    pub countl: u8,
    pub counth: u8,
    pub e_status: u8,
    pub tc: u16,
}

/// A DMA setup FIS.
#[derive(Debug, Clone, Copy, PartialEq, Eq, Structural)]
pub struct FisDmaSetup {
    pub fis_type: u8,
    pub flags: u8,
    pub dma_buffer_id: u64,
    pub dma_buffer_offset: u32,
    pub transfer_count: u32,
}

/// The FISes a port receives.
#[derive(Debug, Clone, Copy, PartialEq, Eq, Structural)]
pub struct HbaFis {
    pub dsfis: FisDmaSetup,
    pub psfis: FisPioSetup,
    pub rfis: FisRegD2H,
}

} // verus!
