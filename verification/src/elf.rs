//! Loading ELF64 executables: the header checks, the program headers read
//! from the image, the loadable segments with their page flags and page
//! counts, and for each page of a segment the part of the file copied into
//! it. Allocating frames, mapping them and copying bytes is the caller's.
use vstd::prelude::*;
use crate::memory::paging::{NO_EXECUTE, PRESENT, USER, WRITABLE};
use crate::vfs::{stat_outcome, vfs_read, vfs_read_spec, vfs_stat, FileSystem, Vfs, VfsError};

verus! {

pub const PAGE_SIZE: u64 = 0x1000;

/// Program header type of a loadable segment.
pub const PT_LOAD: u32 = 1;

/// The size of an ELF64 file header.
pub const EHDR_SIZE: usize = 64;

/// The bytes of a program header that are read.
pub const PHDR_SIZE: u64 = 56;

/// The unsigned little-endian number in `b[off..off + n]`.
pub open spec fn le(b: Seq<u8>, off: int, n: nat) -> int
    decreases n,
{
    if n == 0 {
        0
    } else {
        b[off] + 256 * le(b, off + 1, (n - 1) as nat)
    }
}

pub open spec fn pow256(n: nat) -> int
    decreases n,
{
    if n == 0 {
        1
    } else {
        256 * pow256((n - 1) as nat)
    }
}

/// Why the ELF64 parser refused an image.
#[derive(Debug, Clone, Copy, PartialEq, Eq, Structural)]
pub enum ElfParseError {
    InvalidMagicNumber,
    InvalidIndex,
    InvalidClass,
    Corrupted,
}

pub open spec fn is_elf_magic(b: Seq<u8>) -> bool {
    &&& b.len() >= 4
    &&& b[0] == 0x7f
    &&& b[1] == 0x45
    &&& b[2] == 0x4c
    &&& b[3] == 0x46
}

/// The end of the program header table, as the parser computes it.
pub open spec fn phdr_table_end(b: Seq<u8>) -> int {
    le(b, 32, 8) + le(b, 54, 2) * le(b, 56, 2)
}

/// The end of the section header table, as the parser computes it.
pub open spec fn shdr_table_end(b: Seq<u8>) -> int {
    le(b, 40, 8) + le(b, 58, 2) * le(b, 60, 2)
}

/// What the ELF64 parser answers for an image.
pub open spec fn elf64_check(b: Seq<u8>) -> Result<(), ElfParseError> {
    if !is_elf_magic(b) {
        Err(ElfParseError::InvalidMagicNumber)
    } else if b.len() < EHDR_SIZE {
        Err(ElfParseError::Corrupted)
    } else if b[4] != 2 {
        Err(ElfParseError::InvalidClass)
    } else if phdr_table_end(b) > b.len() {
        Err(ElfParseError::Corrupted)
    } else if shdr_table_end(b) > b.len() {
        Err(ElfParseError::Corrupted)
    } else {
        Ok(())
    }
}

/// The parser's table-end sums do not overflow a `u64` on this image.
pub open spec fn elf64_check_safe(b: Seq<u8>) -> bool {
    (is_elf_magic(b) && b.len() >= EHDR_SIZE && b[4] == 2) ==> {
        &&& phdr_table_end(b) <= u64::MAX
        &&& (phdr_table_end(b) <= b.len() ==> shdr_table_end(b) <= u64::MAX)
    }
}

/// Runs `elf_parser::Elf64::from_bytes` on the image and keeps its verdict.
/// The parser checks the magic number, the header size (64 bytes), the class
/// byte (2 for 64-bit) and that both header tables end inside the image, in
/// that order, and answers with the first failure. Its table-end sums are
/// computed in `u64`, so images on which they overflow are left out.
#[verifier::external_body]
fn elf64_validate(bytes: &[u8]) -> (r: Result<(), ElfParseError>)
    requires
        elf64_check_safe(bytes@),
    ensures
        r == elf64_check(bytes@),
{
    match elf_parser::Elf64::from_bytes(bytes) {
        Ok(_) => Ok(()),
        Err(elf_parser::Error::InvalidMagicNumber) => Err(ElfParseError::InvalidMagicNumber),
        Err(elf_parser::Error::InvalidIndex) => Err(ElfParseError::InvalidIndex),
        Err(elf_parser::Error::InvalidClass) => Err(ElfParseError::InvalidClass),
        Err(elf_parser::Error::Corrupted) => Err(ElfParseError::Corrupted),
    }
}

/// Reads the little-endian number of `n` bytes at `off`.
pub fn read_le(bytes: &[u8], off: usize, n: usize) -> (r: u64)
    requires
        n <= 8,
        off + n <= bytes@.len(),
    ensures
        r == le(bytes@, off as int, n as nat),
{
    proof {
        reveal_with_fuel(pow256, 9);
    }
    assert(pow256(8) == 0x1_0000_0000_0000_0000);
    let mut v: u64 = 0;
    let mut k: usize = n;
    let len = bytes.len();
    while k > 0
        invariant
            len == bytes@.len(),
            k <= n <= 8,
            off + n <= bytes@.len(),
            v == le(bytes@, off + k, (n - k) as nat),
            v < pow256((n - k) as nat),
            pow256(8) == 0x1_0000_0000_0000_0000,
        decreases k,
    {
        proof {
            lemma_pow256_mono((n - k + 1) as nat, 8);
        }
        k = k - 1;
        let b = bytes[off + k];
        v = v * 256 + b as u64;
    }
    v
}

proof fn lemma_pow256_mono(a: nat, b: nat)
    requires
        a <= b,
    ensures
        pow256(a) <= pow256(b),
        pow256(a) >= 1,
    decreases b,
{
    if b > a {
        lemma_pow256_mono(a, (b - 1) as nat);
    } else if a > 0 {
        lemma_pow256_mono((a - 1) as nat, (a - 1) as nat);
    }
}

/// The fields of the file header that loading uses.
#[derive(Debug, Clone, Copy, PartialEq, Eq, Structural)]
pub struct ElfHeader {
    pub entry: u64,
    pub phoff: u64,
    pub phentsize: u16,
    pub phnum: u16,
}

pub open spec fn header_of(b: Seq<u8>) -> ElfHeader {
    ElfHeader {
        entry: le(b, 24, 8) as u64,
        phoff: le(b, 32, 8) as u64,
        phentsize: le(b, 54, 2) as u16,
        phnum: le(b, 56, 2) as u16,
    }
}

/// Reads the file header of an image of at least 64 bytes.
pub fn read_header(bytes: &[u8]) -> (r: ElfHeader)
    requires
        bytes@.len() >= EHDR_SIZE,
    ensures
        r == header_of(bytes@),
{
    ElfHeader {
        entry: read_le(bytes, 24, 8),
        phoff: read_le(bytes, 32, 8),
        phentsize: read_le(bytes, 54, 2) as u16,
        phnum: read_le(bytes, 56, 2) as u16,
    }
}

/// The fields of a program header that loading uses.
#[derive(Debug, Clone, Copy, PartialEq, Eq, Structural)]
pub struct ProgramHeader {
    pub p_type: u32,
    pub p_flags: u32,
    pub p_offset: u64,
    pub p_vaddr: u64,
    pub p_filesz: u64,
    pub p_memsz: u64,
}

pub open spec fn phdr_at(b: Seq<u8>, off: int) -> ProgramHeader {
    ProgramHeader {
        p_type: le(b, off, 4) as u32,
        p_flags: le(b, off + 4, 4) as u32,
        p_offset: le(b, off + 8, 8) as u64,
        p_vaddr: le(b, off + 16, 8) as u64,
        p_filesz: le(b, off + 32, 8) as u64,
        p_memsz: le(b, off + 40, 8) as u64,
    }
}

/// Reads the program header at `off`.
pub fn read_phdr(bytes: &[u8], off: u64) -> (r: ProgramHeader)
    requires
        off + PHDR_SIZE <= bytes@.len(),
    ensures
        r == phdr_at(bytes@, off as int),
{
    let len = bytes.len();
    let o = off as usize;
    assert(o == off);
    proof {
        reveal_with_fuel(pow256, 5);
        lemma_le_bound(bytes@, o as int, 4);
        lemma_le_bound(bytes@, o + 4, 4);
    }
    ProgramHeader {
        p_type: read_le(bytes, o, 4) as u32,
        p_flags: read_le(bytes, o + 4, 4) as u32,
        p_offset: read_le(bytes, o + 8, 8),
        p_vaddr: read_le(bytes, o + 16, 8),
        p_filesz: read_le(bytes, o + 32, 8),
        p_memsz: read_le(bytes, o + 40, 8),
    }
}

/// The header fields read from the image are the numbers stored there.
proof fn lemma_header_fields(b: Seq<u8>)
    requires
        b.len() >= EHDR_SIZE,
    ensures
        header_of(b).entry == le(b, 24, 8),
        header_of(b).phoff == le(b, 32, 8),
        header_of(b).phentsize == le(b, 54, 2),
        header_of(b).phnum == le(b, 56, 2),
        0 <= le(b, 40, 8) < 0x1_0000_0000_0000_0000,
        0 <= le(b, 58, 2) < 0x10000,
        0 <= le(b, 60, 2) < 0x10000,
        0 <= le(b, 54, 2) < 0x10000,
        0 <= le(b, 56, 2) < 0x10000,
        0 <= le(b, 32, 8) < 0x1_0000_0000_0000_0000,
        0 <= phdr_table_end(b) < 0x1_0000_0000_0000_0000 * 2,
        0 <= shdr_table_end(b) < 0x1_0000_0000_0000_0000 * 2,
        phdr_table_end(b) == header_of(b).phoff + header_of(b).phentsize * header_of(b).phnum,
{
    reveal_with_fuel(pow256, 9);
    let (x, y) = (le(b, 54, 2), le(b, 56, 2));
    let (z, w) = (le(b, 58, 2), le(b, 60, 2));
    lemma_le_bound(b, 54, 2);
    lemma_le_bound(b, 56, 2);
    lemma_le_bound(b, 58, 2);
    lemma_le_bound(b, 60, 2);
    assert(x * y < 0x1_0000_0000 && z * w < 0x1_0000_0000) by (nonlinear_arith)
        requires 0 <= x < 0x10000, 0 <= y < 0x10000, 0 <= z < 0x10000, 0 <= w < 0x10000;
    lemma_le_bound(b, 24, 8);
    lemma_le_bound(b, 32, 8);
    lemma_le_bound(b, 40, 8);
    lemma_le_bound(b, 54, 2);
    lemma_le_bound(b, 56, 2);
    lemma_le_bound(b, 58, 2);
    lemma_le_bound(b, 60, 2);
}

proof fn lemma_le_bound(b: Seq<u8>, off: int, n: nat)
    requires
        0 <= off,
        off + n <= b.len(),
    ensures
        0 <= le(b, off, n) < pow256(n),
    decreases n,
{
    if n > 0 {
        lemma_le_bound(b, off + 1, (n - 1) as nat);
    }
}

/// Where the `i`-th program header lies.
pub open spec fn phdr_offset(h: ElfHeader, i: int) -> int {
    h.phoff + h.phentsize * i
}

/// The page flags of a segment: present and user, writable when the
/// segment is, and not executable unless it is.
pub open spec fn segment_flags(p_flags: u32) -> u64 {
    let f0 = USER | PRESENT;
    let f1 = if p_flags & 2 != 0 { f0 | WRITABLE } else { f0 };
    if p_flags & 1 == 0 { f1 | NO_EXECUTE } else { f1 }
}

/// A loadable segment, as it is to be mapped.
#[derive(Debug, Clone, Copy, PartialEq, Eq, Structural)]
pub struct SegmentPlan {
    /// The page-aligned address of its first page.
    pub virt_base: u64,
    /// How many pages it covers.
    pub pages: u64,
    /// The flags of its pages.
    pub flags: u64,
    /// Where its file bytes go.
    pub vaddr: u64,
    /// How many bytes come from the file.
    pub filesz: u64,
    /// Where they lie in the file.
    pub offset: u64,
}

/// The plan of a loadable segment.
pub open spec fn segment_plan(ph: ProgramHeader) -> SegmentPlan {
    let page_offset = ph.p_vaddr % PAGE_SIZE;
    SegmentPlan {
        virt_base: (ph.p_vaddr - page_offset) as u64,
        pages: ((ph.p_memsz + page_offset + PAGE_SIZE - 1) / (PAGE_SIZE as int)) as u64,
        flags: segment_flags(ph.p_flags),
        vaddr: ph.p_vaddr,
        filesz: ph.p_filesz,
        offset: ph.p_offset,
    }
}

/// Why an executable could not be loaded.
#[derive(Debug, Clone, Copy, PartialEq, Eq)]
pub enum ElfLoadError {
    /// The file does not exist.
    NotFound,
    /// Reading it failed.
    ReadFailed(VfsError),
    /// It does not start with the ELF magic number.
    NotElf,
    /// The ELF64 parser refused it.
    Parse(ElfParseError),
    /// A loadable segment's file bytes end past the file; its file offset.
    SegmentOutOfBounds(u64),
    /// Its headers make the loader's `u64` arithmetic overflow or point past
    /// the end of the file.
    Malformed,
}

/// The plans of the loadable segments among the first `n` program headers,
/// or the refusal of the first one whose file bytes end past the image.
pub open spec fn segments_upto(b: Seq<u8>, h: ElfHeader, n: nat) -> Result<Seq<SegmentPlan>, ElfLoadError>
    decreases n,
{
    if n == 0 {
        Ok(Seq::empty())
    } else {
        match segments_upto(b, h, (n - 1) as nat) {
            Err(e) => Err(e),
            Ok(prev) => {
                let ph = phdr_at(b, phdr_offset(h, n - 1));
                if ph.p_type != PT_LOAD {
                    Ok(prev)
                } else if ph.p_offset + ph.p_filesz > b.len() {
                    Err(ElfLoadError::SegmentOutOfBounds(ph.p_offset))
                } else {
                    Ok(prev.push(segment_plan(ph)))
                }
            },
        }
    }
}

/// The program headers up to the first refusal lie inside the image, and
/// the arithmetic on each of their loadable segments fits in a `u64`.
pub open spec fn segments_safe(b: Seq<u8>, h: ElfHeader, n: nat) -> bool
    decreases n,
{
    if n == 0 {
        true
    } else {
        &&& segments_safe(b, h, (n - 1) as nat)
        &&& segments_upto(b, h, (n - 1) as nat) is Ok ==> {
            let ph = phdr_at(b, phdr_offset(h, n - 1));
            &&& phdr_offset(h, n - 1) + PHDR_SIZE <= b.len()
            &&& ph.p_type == PT_LOAD ==> ph.p_offset + ph.p_filesz <= u64::MAX
            &&& (ph.p_type == PT_LOAD && ph.p_offset + ph.p_filesz <= b.len()) ==> ph.p_memsz + ph.p_vaddr
                % PAGE_SIZE + PAGE_SIZE <= u64::MAX
        }
    }
}

/// What loading makes of an image: the entry point and the plans of its
/// loadable segments in header order, or the first refusal.
pub open spec fn elf_plan(b: Seq<u8>) -> Result<(u64, Seq<SegmentPlan>), ElfLoadError> {
    if !is_elf_magic(b) {
        Err(ElfLoadError::NotElf)
    } else if elf64_check(b) is Err {
        Err(ElfLoadError::Parse(elf64_check(b)->Err_0))
    } else {
        let h = header_of(b);
        match segments_upto(b, h, h.phnum as nat) {
            Err(e) => Err(e),
            Ok(s) => Ok((h.entry, s)),
        }
    }
}

/// The image can be taken through loading without any overflow or read
/// past its end.
pub open spec fn elf_input_safe(b: Seq<u8>) -> bool {
    &&& elf64_check_safe(b)
    &&& (is_elf_magic(b) && elf64_check(b) is Ok) ==> segments_safe(b, header_of(b), header_of(b).phnum as nat)
}

/// A loaded executable: its entry point and its segments.
pub struct ElfLoadPlan {
    pub entry: u64,
    pub segments: Vec<SegmentPlan>,
}

fn segment_flags_of(p_flags: u32) -> (r: u64)
    ensures
        r == segment_flags(p_flags),
{
    let f0 = USER | PRESENT;
    let f1 = if p_flags & 2 != 0 { f0 | WRITABLE } else { f0 };
    if p_flags & 1 == 0 { f1 | NO_EXECUTE } else { f1 }
}

/// Plans the loading of an ELF64 image: checks the magic number, has the
/// parser check the headers, and collects the loadable segments, refusing
/// one whose file bytes end past the image.
pub fn plan_elf_load(bytes: &[u8]) -> (r: Result<ElfLoadPlan, ElfLoadError>)
    requires
        elf_input_safe(bytes@),
    ensures
        match (r, elf_plan(bytes@)) {
            (Ok(p), Ok((entry, segs))) => p.entry == entry && p.segments@ == segs,
            (Err(e1), Err(e2)) => e1 == e2,
            _ => false,
        },
{
    if bytes.len() < 4 || bytes[0] != 0x7f || bytes[1] != 0x45 || bytes[2] != 0x4c || bytes[3] != 0x46 {
        return Err(ElfLoadError::NotElf);
    }
    match elf64_validate(bytes) {
        Ok(()) => {},
        Err(e) => {
            return Err(ElfLoadError::Parse(e));
        },
    }
    let h = read_header(bytes);
    let ghost b = bytes@;
    let len = bytes.len();
    proof {
        lemma_header_fields(b);
    }
    let mut segments: Vec<SegmentPlan> = Vec::new();
    let mut i: u16 = 0;
    assert(elf_plan(b) == match segments_upto(b, h, h.phnum as nat) {
        Err(e) => Err(e),
        Ok(s) => Ok((h.entry, s)),
    });
    while i < h.phnum
        invariant
            elf_plan(b) == match segments_upto(b, h, h.phnum as nat) {
                Err(e) => Err(e),
                Ok(s) => Ok((h.entry, s)),
            },
            b == bytes@,
            len == b.len(),
            h == header_of(b),
            i <= h.phnum,
            segments_safe(b, h, h.phnum as nat),
            phdr_table_end(b) <= b.len(),
            phdr_table_end(b) == h.phoff + h.phentsize * h.phnum,
            segments_upto(b, h, i as nat) == Ok::<Seq<SegmentPlan>, ElfLoadError>(segments@),
        decreases h.phnum - i,
    {
        proof {
            lemma_segments_safe_prefix(b, h, (i + 1) as nat, h.phnum as nat);
            assert(h.phentsize * i <= h.phentsize * h.phnum) by (nonlinear_arith)
                requires i <= h.phnum;
        }
        let off: u64 = h.phoff + (h.phentsize as u64) * (i as u64);
        let ph = read_phdr(bytes, off);
        assert(ph == phdr_at(b, phdr_offset(h, i as int)));
        if ph.p_type == PT_LOAD {
            if ph.p_offset + ph.p_filesz > len as u64 {
                proof {
                    lemma_upto_err_stays(b, h, (i + 1) as nat, h.phnum as nat);
                }
                return Err(ElfLoadError::SegmentOutOfBounds(ph.p_offset));
            }
            let page_offset = ph.p_vaddr % PAGE_SIZE;
            assert(segments_safe(b, h, (i + 1) as nat));
            assert(ph.p_offset + ph.p_filesz <= b.len());
            assert(ph.p_memsz + page_offset + PAGE_SIZE <= u64::MAX);
            let seg = SegmentPlan {
                virt_base: ph.p_vaddr - page_offset,
                pages: (ph.p_memsz + page_offset + PAGE_SIZE - 1) / PAGE_SIZE,
                flags: segment_flags_of(ph.p_flags),
                vaddr: ph.p_vaddr,
                filesz: ph.p_filesz,
                offset: ph.p_offset,
            };
            segments.push(seg);
        }
        i = i + 1;
    }
    Ok(ElfLoadPlan { entry: h.entry, segments })
}

proof fn lemma_segments_safe_prefix(b: Seq<u8>, h: ElfHeader, m: nat, n: nat)
    requires
        m <= n,
        segments_safe(b, h, n),
    ensures
        segments_safe(b, h, m),
    decreases n,
{
    if m < n {
        lemma_segments_safe_prefix(b, h, m, (n - 1) as nat);
    }
}

/// Whether loading can take the image through without overflow.
pub fn elf_input_safe_check(bytes: &[u8]) -> (r: bool)
    ensures
        r == elf_input_safe(bytes@),
{
    let n = bytes.len();
    if !(n >= 4 && bytes[0] == 0x7f && bytes[1] == 0x45 && bytes[2] == 0x4c && bytes[3] == 0x46) {
        return true;
    }
    if n < EHDR_SIZE || bytes[4] != 2 {
        return true;
    }
    proof {
        lemma_header_fields(bytes@);
    }
    let ph_end = read_le(bytes, 32, 8) as u128 + (read_le(bytes, 54, 2) as u128) * (read_le(bytes, 56, 2) as u128);
    let sh_end = read_le(bytes, 40, 8) as u128 + (read_le(bytes, 58, 2) as u128) * (read_le(bytes, 60, 2) as u128);
    if ph_end > u64::MAX as u128 {
        return false;
    }
    if ph_end <= n as u128 && sh_end > u64::MAX as u128 {
        return false;
    }
    if ph_end > n as u128 || sh_end > n as u128 {
        return true;
    }
    let h = read_header(bytes);
    let ghost b = bytes@;
    let mut i: u16 = 0;
    assert(elf64_check(b) is Ok);
    assert(elf_input_safe(b) == segments_safe(b, h, h.phnum as nat));
    while i < h.phnum
        invariant
            elf_input_safe(b) == segments_safe(b, h, h.phnum as nat),
            b == bytes@,
            n == b.len(),
            h == header_of(b),
            i <= h.phnum,
            phdr_table_end(b) <= b.len(),
            phdr_table_end(b) == h.phoff + h.phentsize * h.phnum,
            segments_safe(b, h, i as nat),
            segments_upto(b, h, i as nat) is Ok,
        decreases h.phnum - i,
    {
        assert(h.phentsize * i <= h.phentsize * h.phnum) by (nonlinear_arith)
            requires i <= h.phnum;
        let off: u64 = h.phoff + (h.phentsize as u64) * (i as u64);
        if off > u64::MAX - PHDR_SIZE || off + PHDR_SIZE > n as u64 {
            proof {
                assert(off == phdr_offset(h, i as int));
                assert(!segments_safe(b, h, (i + 1) as nat));
                lemma_unsafe_extends(b, h, (i + 1) as nat, h.phnum as nat);
            }
            return false;
        }
        let ph = read_phdr(bytes, off);
        if ph.p_type == PT_LOAD {
            if ph.p_offset > u64::MAX - ph.p_filesz {
                proof {
                    assert(ph == phdr_at(b, phdr_offset(h, i as int)));
                    assert(ph.p_offset + ph.p_filesz > u64::MAX);
                    assert(!segments_safe(b, h, (i + 1) as nat));
                    lemma_unsafe_extends(b, h, (i + 1) as nat, h.phnum as nat);
                }
                return false;
            }
            if ph.p_offset + ph.p_filesz > n as u64 {
                proof { lemma_refusal_safe(b, h, (i + 1) as nat, h.phnum as nat); }
                return true;
            }
            let page_offset = ph.p_vaddr % PAGE_SIZE;
            if ph.p_memsz > u64::MAX - (page_offset + PAGE_SIZE) {
                proof {
                    assert(ph == phdr_at(b, phdr_offset(h, i as int)));
                    assert(!segments_safe(b, h, (i + 1) as nat));
                    lemma_unsafe_extends(b, h, (i + 1) as nat, h.phnum as nat);
                }
                return false;
            }
        }
        i = i + 1;
    }
    true
}

proof fn lemma_unsafe_extends(b: Seq<u8>, h: ElfHeader, m: nat, n: nat)
    requires
        m <= n,
        !segments_safe(b, h, m),
    ensures
        !segments_safe(b, h, n),
    decreases n,
{
    if m < n {
        lemma_unsafe_extends(b, h, m, (n - 1) as nat);
    }
}

/// A refusal stands for the rest of the headers.
proof fn lemma_upto_err_stays(b: Seq<u8>, h: ElfHeader, m: nat, n: nat)
    requires
        m <= n,
        segments_upto(b, h, m) is Err,
    ensures
        segments_upto(b, h, n) == segments_upto(b, h, m),
    decreases n,
{
    if m < n {
        lemma_upto_err_stays(b, h, m, (n - 1) as nat);
    }
}

/// Past a refusal, nothing more is read.
proof fn lemma_refusal_safe(b: Seq<u8>, h: ElfHeader, m: nat, n: nat)
    requires
        m <= n,
        segments_safe(b, h, m),
        segments_upto(b, h, m) is Err,
    ensures
        segments_safe(b, h, n),
        segments_upto(b, h, n) is Err,
    decreases n,
{
    if m < n {
        lemma_refusal_safe(b, h, m, (n - 1) as nat);
    }
}

/// The part of a segment's file bytes copied into one of its pages.
#[derive(Debug, Clone, Copy, PartialEq, Eq, Structural)]
pub struct PageCopy {
    /// Where the bytes go, from the start of the page.
    pub dest_off: u64,
    /// Where they come from in the file.
    pub src_off: u64,
    /// How many there are.
    pub len: u64,
}

pub open spec fn max(a: int, b: int) -> int {
    if a >= b { a } else { b }
}

pub open spec fn min(a: int, b: int) -> int {
    if a <= b { a } else { b }
}

/// What page `i` of a segment receives from the file, if anything: the
/// overlap of the page with the segment's file bytes.
pub open spec fn page_copy_spec(seg: SegmentPlan, i: int) -> Option<PageCopy> {
    let page_start = seg.virt_base + i * PAGE_SIZE;
    let page_end = page_start + PAGE_SIZE;
    let copy_start = max(page_start, seg.vaddr as int);
    let copy_end = min(page_end, seg.vaddr + seg.filesz);
    if copy_start < copy_end {
        Some(
            PageCopy {
                dest_off: (copy_start - page_start) as u64,
                src_off: (seg.offset + (copy_start - seg.vaddr)) as u64,
                len: (copy_end - copy_start) as u64,
            },
        )
    } else {
        None
    }
}

/// The loader's arithmetic on page `i` of the segment fits in a `u64`.
pub open spec fn page_fits(seg: SegmentPlan, i: int) -> bool {
    &&& seg.virt_base + (i + 1) * PAGE_SIZE <= u64::MAX
    &&& seg.vaddr + seg.filesz <= u64::MAX
    &&& seg.offset + seg.filesz <= u64::MAX
}

/// Whether page `i` of the segment can be worked out without overflow.
pub fn page_copy_fits(seg: &SegmentPlan, i: u64) -> (r: bool)
    requires
        i < seg.pages,
        seg.pages <= u64::MAX / PAGE_SIZE,
    ensures
        r == page_fits(*seg, i as int),
{
    (i + 1) * PAGE_SIZE <= u64::MAX - seg.virt_base && seg.filesz <= u64::MAX - seg.vaddr && seg.filesz
        <= u64::MAX - seg.offset
}

/// What page `i` of a segment receives from the file. The bytes come from
/// the segment's own file bytes and land inside the page.
pub fn page_copy(seg: &SegmentPlan, i: u64) -> (r: Option<PageCopy>)
    requires
        i < seg.pages,
        seg.pages <= u64::MAX / PAGE_SIZE,
        page_fits(*seg, i as int),
    ensures
        r == page_copy_spec(*seg, i as int),
        r matches Some(c) ==> c.dest_off + c.len <= PAGE_SIZE && seg.offset <= c.src_off && c.src_off + c.len
            <= seg.offset + seg.filesz && c.len > 0,
{
    let page_start = seg.virt_base + i * PAGE_SIZE;
    let page_end = page_start + PAGE_SIZE;
    let file_start = seg.vaddr;
    let file_end = seg.vaddr + seg.filesz;
    let copy_start = if page_start >= file_start { page_start } else { file_start };
    let copy_end = if page_end <= file_end { page_end } else { file_end };
    if copy_start < copy_end {
        Some(
            PageCopy {
                dest_off: copy_start - page_start,
                src_off: seg.offset + (copy_start - file_start),
                len: copy_end - copy_start,
            },
        )
    } else {
        None
    }
}

/// What loading makes of the image `data`: a refusal as malformed where
/// the loader's arithmetic would overflow, else the plan of `elf_plan`.
pub open spec fn load_outcome(data: Seq<u8>, r: Result<ElfLoadPlan, ElfLoadError>) -> bool {
    if !elf_input_safe(data) {
        r == Err::<ElfLoadPlan, ElfLoadError>(ElfLoadError::Malformed)
    } else {
        match (r, elf_plan(data)) {
            (Ok(p), Ok((entry, segs))) => p.entry == entry && p.segments@ == segs,
            (Err(e1), Err(e2)) => e1 == e2,
            _ => false,
        }
    }
}

/// Loads the executable `filename`: it must exist and be readable, and its
/// image is then planned as `plan_elf_load` does. An image on which the
/// loader's arithmetic would overflow is refused as malformed.
pub fn load_elf<F: FileSystem>(vfs: &Vfs<F>, filename: &str) -> (r: Result<ElfLoadPlan, ElfLoadError>)
    requires
        vfs.wf(),
    ensures
        stat_outcome(vfs, filename@) is Err ==> r == Err::<ElfLoadPlan, ElfLoadError>(ElfLoadError::NotFound),
        stat_outcome(vfs, filename@) is Ok ==> match vfs_read_spec(vfs, filename@) {
            Err(e) => r == Err::<ElfLoadPlan, ElfLoadError>(ElfLoadError::ReadFailed(e)),
            Ok(data) => load_outcome(data, r),
        },
{
    match vfs_stat(vfs, filename) {
        Ok(_) => {},
        Err(_) => {
            return Err(ElfLoadError::NotFound);
        },
    }
    let contents = match vfs_read(vfs, filename) {
        Ok(data) => data,
        Err(e) => {
            return Err(ElfLoadError::ReadFailed(e));
        },
    };
    if !elf_input_safe_check(contents.as_slice()) {
        return Err(ElfLoadError::Malformed);
    }
    plan_elf_load(contents.as_slice())
}

/// The pages of a segment are always present and user-accessible, writable
/// exactly when its `p_flags` has `PF_W` (bit 1), not executable exactly
/// when it lacks `PF_X` (bit 0), and carry no other flag.
pub proof fn law_segment_flags_follow_p_flags(f: u32)
    ensures
        segment_flags(f) & PRESENT != 0,
        segment_flags(f) & USER != 0,
        (segment_flags(f) & WRITABLE != 0) <==> (f & 2 != 0),
        (segment_flags(f) & NO_EXECUTE != 0) <==> (f & 1 == 0),
        segment_flags(f) & !(PRESENT | USER | WRITABLE | NO_EXECUTE) == 0,
{
    let v = segment_flags(f);
    let w = f & 2 != 0;
    let x = f & 1 == 0;
    assert(v == (if w { 7u64 } else { 5u64 }) | (if x { 0x8000_0000_0000_0000u64 } else { 0u64 })) by (bit_vector)
        requires
            v == (if x { (if w { (4u64 | 1u64) | 2u64 } else { 4u64 | 1u64 }) | 0x8000_0000_0000_0000u64 } else {
                if w { (4u64 | 1u64) | 2u64 } else { 4u64 | 1u64 }
            }),
    ;
    assert(v & 1 != 0 && v & 4 != 0) by (bit_vector)
        requires v == (if w { 7u64 } else { 5u64 }) | (if x { 0x8000_0000_0000_0000u64 } else { 0u64 });
    assert((v & 2 != 0) == w) by (bit_vector)
        requires v == (if w { 7u64 } else { 5u64 }) | (if x { 0x8000_0000_0000_0000u64 } else { 0u64 });
    assert((v & 0x8000_0000_0000_0000u64 != 0) == x) by (bit_vector)
        requires v == (if w { 7u64 } else { 5u64 }) | (if x { 0x8000_0000_0000_0000u64 } else { 0u64 });
    assert(v & !(1u64 | 4u64 | 2u64 | 0x8000_0000_0000_0000u64) == 0) by (bit_vector)
        requires v == (if w { 7u64 } else { 5u64 }) | (if x { 0x8000_0000_0000_0000u64 } else { 0u64 });
}

} // verus!
