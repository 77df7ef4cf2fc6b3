//! The FAT12 image format, as far as loading a RAM disk reads it: the BIOS
//! parameter block, the layout of the FAT, root directory and data area,
//! the 32-byte directory entries with their 8.3 names, and the cluster
//! chains that hold a file's bytes.
use vstd::prelude::*;
use vstd::utf8::{decode_utf8, valid_utf8};

verus! {

pub const SECTOR_SIZE: u64 = 512;
pub const FAT12_EOF: u16 = 0xFF8;
pub const FAT12_BAD: u16 = 0xFF7;

/// How many clusters a chain of empty clusters may run through: more than
/// the distinct cluster numbers below the bad-cluster mark, so only a chain
/// that comes back on itself is cut.
pub const EMPTY_CLUSTER_STEPS: u32 = 0xFF5;

pub const ATTR_VOLUME_ID: u8 = 0x08;
pub const ATTR_DIRECTORY: u8 = 0x10;
pub const ATTR_LFN: u8 = 0x0F;

pub open spec fn le16(b: Seq<u8>, off: int) -> int {
    b[off] + 256 * b[off + 1]
}

pub open spec fn le32(b: Seq<u8>, off: int) -> int {
    le16(b, off) + 0x10000 * le16(b, off + 2)
}

/// The fields of the BIOS parameter block that loading reads.
#[derive(Debug, Clone, Copy, PartialEq, Eq, Structural)]
pub struct BiosParameterBlock {
    pub bytes_per_sector: u16,
    pub sectors_per_cluster: u8,
    pub reserved_sectors: u16,
    pub num_fats: u8,
    pub root_entry_count: u16,
    pub fat_size_16: u16,
}

pub open spec fn bpb_of(b: Seq<u8>) -> BiosParameterBlock {
    BiosParameterBlock {
        bytes_per_sector: le16(b, 11) as u16,
        sectors_per_cluster: b[13],
        reserved_sectors: le16(b, 14) as u16,
        num_fats: b[16],
        root_entry_count: le16(b, 17) as u16,
        fat_size_16: le16(b, 22) as u16,
    }
}

fn read_le16(b: &[u8], off: usize) -> (r: u16)
    requires
        off + 2 <= b@.len(),
    ensures
        r == le16(b@, off as int),
{
    (b[off] as u16) + 256 * (b[off + 1] as u16)
}

fn read_le32(b: &[u8], off: usize) -> (r: u32)
    requires
        off + 4 <= b@.len(),
    ensures
        r == le32(b@, off as int),
{
    let _len = b.len();
    (read_le16(b, off) as u32) + 0x10000 * (read_le16(b, off + 2) as u32)
}

/// Reads the BIOS parameter block of an image of at least one sector.
pub fn read_bpb(image: &[u8]) -> (r: BiosParameterBlock)
    requires
        image@.len() >= SECTOR_SIZE,
    ensures
        r == bpb_of(image@),
{
    BiosParameterBlock {
        bytes_per_sector: read_le16(image, 11),
        sectors_per_cluster: image[13],
        reserved_sectors: read_le16(image, 14),
        num_fats: image[16],
        root_entry_count: read_le16(image, 17),
        fat_size_16: read_le16(image, 22),
    }
}

/// Where the parts of an image lie, in bytes.
#[derive(Debug, Clone, Copy, PartialEq, Eq, Structural)]
pub struct Fat12Layout {
    pub fat_start: u64,
    pub root_dir_start: u64,
    pub data_start: u64,
    pub cluster_size: u64,
    pub root_entry_count: u16,
}

pub open spec fn layout_of(bpb: BiosParameterBlock) -> Fat12Layout {
    let fat_start = bpb.reserved_sectors * SECTOR_SIZE;
    let root_dir_sects = (bpb.root_entry_count * 32 + (SECTOR_SIZE - 1)) / (SECTOR_SIZE as int);
    let root_dir_start = fat_start + bpb.num_fats * bpb.fat_size_16 * SECTOR_SIZE;
    Fat12Layout {
        fat_start: fat_start as u64,
        root_dir_start: root_dir_start as u64,
        data_start: (root_dir_start + root_dir_sects * SECTOR_SIZE) as u64,
        cluster_size: (bpb.sectors_per_cluster * SECTOR_SIZE) as u64,
        root_entry_count: bpb.root_entry_count,
    }
}

/// The layout of an image, or none when it is shorter than a sector or its
/// sectors are not 512 bytes.
pub open spec fn image_layout(b: Seq<u8>) -> Option<Fat12Layout> {
    if b.len() < SECTOR_SIZE || bpb_of(b).bytes_per_sector != SECTOR_SIZE {
        None
    } else {
        Some(layout_of(bpb_of(b)))
    }
}

pub fn fat12_layout(image: &[u8]) -> (r: Option<Fat12Layout>)
    ensures
        r == image_layout(image@),
{
    if image.len() < SECTOR_SIZE as usize {
        return None;
    }
    let bpb = read_bpb(image);
    if bpb.bytes_per_sector as u64 != SECTOR_SIZE {
        return None;
    }
    let fat_start = bpb.reserved_sectors as u64 * SECTOR_SIZE;
    let root_dir_sects = ((bpb.root_entry_count as u64) * 32 + (SECTOR_SIZE - 1)) / SECTOR_SIZE;
    assert((bpb.num_fats as u64) * (bpb.fat_size_16 as u64) <= 0x100 * 0x10000) by (nonlinear_arith)
        requires bpb.num_fats < 0x100, bpb.fat_size_16 < 0x10000;
    let root_dir_start = fat_start + (bpb.num_fats as u64) * (bpb.fat_size_16 as u64) * SECTOR_SIZE;
    Some(
        Fat12Layout {
            fat_start,
            root_dir_start,
            data_start: root_dir_start + root_dir_sects * SECTOR_SIZE,
            cluster_size: bpb.sectors_per_cluster as u64 * SECTOR_SIZE,
            root_entry_count: bpb.root_entry_count,
        },
    )
}

/// The FAT entry of `cluster`: 12 bits packed two to three bytes, the low
/// twelve bits of the little-endian word for an even cluster and the high
/// twelve for an odd one; an entry past the image reads as end of chain.
pub open spec fn fat_entry(b: Seq<u8>, l: Fat12Layout, cluster: u16) -> u16 {
    let off = l.fat_start + (cluster * 3) / 2;
    if off + 1 >= b.len() {
        0xFFF
    } else {
        let val = le16(b, off);
        (if cluster % 2 == 0 { val % 4096 } else { val / 16 }) as u16
    }
}

/// A FAT12 entry is the twelve bits of its cluster inside the 3-byte pair
/// that holds two entries: an even cluster takes all of the byte at
/// `fat_start + 3 * cluster / 2` and the low nibble of the next byte (as its
/// top four bits), an odd cluster the high nibble of that byte (as its low
/// four bits) and all of the next byte.
pub proof fn law_fat_entry_nibbles(b: Seq<u8>, l: Fat12Layout, cluster: u16)
    requires
        l.fat_start + (cluster * 3) / 2 + 1 < b.len(),
    ensures
        ({
            let off = l.fat_start + (cluster * 3) / 2;
            &&& cluster % 2 == 0 ==> fat_entry(b, l, cluster) == b[off] + (b[off + 1] % 16) * 256
            &&& cluster % 2 == 1 ==> fat_entry(b, l, cluster) == b[off] / 16 + b[off + 1] * 16
        }),
{
    let off = l.fat_start + (cluster * 3) / 2;
    let b0 = b[off];
    let b1 = b[off + 1];
    assert((b0 as u32 + 256 * (b1 as u32)) % 4096 == b0 as u32 + (b1 as u32 % 16) * 256) by (bit_vector);
    assert((b0 as u32 + 256 * (b1 as u32)) / 16 == b0 as u32 / 16 + (b1 as u32) * 16) by (bit_vector);
}

fn read_fat_entry(image: &[u8], l: &Fat12Layout, cluster: u16) -> (r: u16)
    requires
        l.fat_start < 0x1_0000_0000,
    ensures
        r == fat_entry(image@, *l, cluster),
        r <= 0xFFF,
{
    let off = l.fat_start + (cluster as u64 * 3) / 2;
    if off + 1 >= image.len() as u64 {
        return 0xFFF;
    }
    let val = read_le16(image, off as usize);
    if cluster % 2 == 0 {
        val % 4096
    } else {
        val / 16
    }
}

pub open spec fn min(a: int, b: int) -> int {
    if a <= b { a } else { b }
}

/// The bytes a cluster chain holds for a file of `size` bytes, appended to
/// `acc`: each cluster gives up to a cluster of what is still missing, the
/// chain ends at a cluster number outside the data clusters, at the end
/// mark, at a cluster past the image or once the file is complete; a chain
/// of empty clusters is followed for at most `steps` more clusters.
pub open spec fn chain_data(b: Seq<u8>, l: Fat12Layout, cluster: u16, size: int, acc: Seq<u8>, steps: nat) -> Seq<u8>
    decreases (if l.cluster_size > 0 && acc.len() < size { size - acc.len() } else { 0 }), steps,
{
    if !(2 <= cluster < FAT12_BAD) {
        acc
    } else {
        let src = l.data_start + (cluster - 2) * l.cluster_size;
        let remaining = if acc.len() <= size { size - acc.len() } else { 0 };
        let to_copy = min(remaining, l.cluster_size as int);
        if src + to_copy > b.len() {
            acc
        } else {
            let acc2 = acc + b.subrange(src, src + to_copy);
            if acc2.len() >= size {
                acc2
            } else {
                let next = fat_entry(b, l, cluster);
                if next >= FAT12_EOF {
                    acc2
                } else if l.cluster_size == 0 {
                    if steps == 0 {
                        acc2
                    } else {
                        chain_data(b, l, next, size, acc2, (steps - 1) as nat)
                    }
                } else {
                    chain_data(b, l, next, size, acc2, steps)
                }
            }
        }
    }
}

/// The bytes of a file of `size` bytes starting at `first_cluster`.
pub open spec fn file_data(b: Seq<u8>, l: Fat12Layout, first_cluster: u16, size: u32) -> Seq<u8> {
    chain_data(b, l, first_cluster, size as int, Seq::empty(), EMPTY_CLUSTER_STEPS as nat)
}

/// The twelve-bit number the FAT bytes hold for `cluster` (see
/// `law_fat_entry_nibbles`), read from the bytes themselves.
pub open spec fn fat_bits(b: Seq<u8>, off: int, cluster: u16) -> int {
    if cluster % 2 == 0 {
        b[off] + (b[off + 1] % 16) * 256
    } else {
        b[off] / 16 + b[off + 1] * 16
    }
}

/// A file of `size` bytes, more than one cluster and at most two, whose
/// first cluster `c` lies in the image and whose FAT bytes for `c` hold the
/// data cluster `n`, is read in full: the whole of cluster `c` and then the
/// rest from cluster `n`.
pub proof fn law_two_cluster_file(b: Seq<u8>, l: Fat12Layout, c: u16, n: u16, size: u32)
    requires
        l.cluster_size > 0,
        2 <= c < FAT12_BAD,
        2 <= n < FAT12_BAD,
        l.cluster_size < size <= 2 * l.cluster_size,
        l.fat_start + (c * 3) / 2 + 1 < b.len(),
        fat_bits(b, l.fat_start + (c * 3) / 2, c) == n,
        l.data_start + (c - 2) * l.cluster_size + l.cluster_size <= b.len(),
        l.data_start + (n - 2) * l.cluster_size + (size - l.cluster_size) <= b.len(),
    ensures
        ({
            let cs = l.cluster_size as int;
            let sc = l.data_start + (c - 2) * cs;
            let sn = l.data_start + (n - 2) * cs;
            &&& file_data(b, l, c, size) == b.subrange(sc, sc + cs) + b.subrange(sn, sn + (size - cs))
            &&& file_data(b, l, c, size).len() == size
        }),
{
    law_fat_entry_nibbles(b, l, c);
    assert(fat_entry(b, l, c) == n);
    let cs = l.cluster_size as int;
    let sc = l.data_start + (c - 2) * cs;
    let sn = l.data_start + (n - 2) * cs;
    let acc1 = Seq::<u8>::empty() + b.subrange(sc, sc + cs);
    assert(acc1.len() == cs);
    let acc2 = acc1 + b.subrange(sn, sn + (size - cs));
    assert(chain_data(b, l, n, size as int, acc1, EMPTY_CLUSTER_STEPS as nat) == acc2);
    assert(acc1 =~= b.subrange(sc, sc + cs));
}

/// Reads a file's bytes by following its cluster chain.
pub fn read_file_data(image: &[u8], l: &Fat12Layout, first_cluster: u16, size: u32) -> (r: Vec<u8>)
    requires
        l.fat_start < 0x1_0000_0000,
        l.data_start < 0x1_0000_0000_0000,
        l.cluster_size < 0x1_0000_0000,
    ensures
        r@ == file_data(image@, *l, first_cluster, size),
{
    let mut data: Vec<u8> = Vec::new();
    let mut cluster = first_cluster;
    let mut steps: u32 = EMPTY_CLUSTER_STEPS;
    let len = image.len();
    let ghost target = file_data(image@, *l, first_cluster, size);
    while 2 <= cluster && cluster < FAT12_BAD
        invariant
            len == image@.len(),
            l.fat_start < 0x1_0000_0000,
            l.data_start < 0x1_0000_0000_0000,
            l.cluster_size < 0x1_0000_0000,
            data@.len() <= size,
            target == file_data(image@, *l, first_cluster, size),
            chain_data(image@, *l, cluster, size as int, data@, steps as nat) == target,
        ensures
            data@ == target,
        decreases (if l.cluster_size > 0 && data@.len() < size { size - data@.len() } else { 0 }), steps,
    {
        assert((cluster - 2) * l.cluster_size < 0x1000 * 0x1_0000_0000) by (nonlinear_arith)
            requires 2 <= cluster < 0x1000, l.cluster_size < 0x1_0000_0000;
        let src = l.data_start + (cluster as u64 - 2) * l.cluster_size;
        let remaining = size as u64 - data.len() as u64;
        let to_copy = if remaining <= l.cluster_size { remaining } else { l.cluster_size };
        if src + to_copy > len as u64 {
            return data;
        }
        let ghost before = data@;
        let mut k: u64 = 0;
        while k < to_copy
            invariant
                len == image@.len(),
                src + to_copy <= len,
                k <= to_copy,
                data@ == before + image@.subrange(src as int, src + k),
            decreases to_copy - k,
        {
            data.push(image[(src + k) as usize]);
            assert(data@ =~= before + image@.subrange(src as int, src + k + 1));
            k = k + 1;
        }
        if data.len() as u64 >= size as u64 {
            return data;
        }
        let next = read_fat_entry(image, l, cluster);
        if next >= FAT12_EOF {
            return data;
        }
        if l.cluster_size == 0 {
            if steps == 0 {
                return data;
            }
            steps = steps - 1;
        }
        cluster = next;
    }
    data
}

/// A 32-byte directory entry.
#[derive(Debug, Clone, Copy)]
pub struct DirectoryEntry {
    pub name: [u8; 8],
    pub ext: [u8; 3],
    pub attr: u8,
    pub first_cluster: u16,
    pub file_size: u32,
}

pub open spec fn entry_fields(e: DirectoryEntry, b: Seq<u8>, off: int) -> bool {
    &&& e.name@ == b.subrange(off, off + 8)
    &&& e.ext@ == b.subrange(off + 8, off + 11)
    &&& e.attr == b[off + 11]
    &&& e.first_cluster == le16(b, off + 26)
    &&& e.file_size == le32(b, off + 28)
}

/// Reads the directory entry at `off`.
pub fn read_entry(image: &[u8], off: usize) -> (r: DirectoryEntry)
    requires
        off + 32 <= image@.len(),
    ensures
        entry_fields(r, image@, off as int),
{
    let mut name = [0u8; 8];
    let mut i: usize = 0;
    let len = image.len();
    while i < 8
        invariant
            len == image@.len(),
            off + 32 <= image@.len(),
            i <= 8,
            forall|j: int| 0 <= j < i ==> name@[j] == image@[off + j],
        decreases 8 - i,
    {
        name[i] = image[off + i];
        i = i + 1;
    }
    let ext = [image[off + 8], image[off + 9], image[off + 10]];
    assert(name@ =~= image@.subrange(off as int, off + 8));
    assert(ext@ =~= image@.subrange(off + 8, off + 11));
    DirectoryEntry {
        name,
        ext,
        attr: image[off + 11],
        first_cluster: read_le16(image, off + 26),
        file_size: read_le32(image, off + 28),
    }
}

impl DirectoryEntry {
    /// A long file name entry.
    pub fn is_lfn(&self) -> (r: bool)
        ensures
            r == (self.attr == ATTR_LFN),
    {
        self.attr == ATTR_LFN
    }

    /// The volume label.
    pub fn is_volume_id(&self) -> (r: bool)
        ensures
            r == (self.attr & ATTR_VOLUME_ID != 0),
    {
        self.attr & ATTR_VOLUME_ID != 0
    }

    pub fn is_directory(&self) -> (r: bool)
        ensures
            r == (self.attr & ATTR_DIRECTORY != 0),
    {
        self.attr & ATTR_DIRECTORY != 0
    }

    /// The name of the entry: the base name and, if there is one, a dot and
    /// the extension, both without their padding spaces, decoded as UTF-8;
    /// none when the bytes are not UTF-8.
    pub fn get_name(&self) -> (r: Option<String>)
        ensures
            match name_of(self.name@, self.ext@) {
                Some(n) => r matches Some(s) && s@ == n,
                None => r is None,
            },
    {
        let base = trimmed_len(&self.name);
        let ext_len = trimmed_len3(&self.ext);
        let mut bytes: Vec<u8> = Vec::new();
        let mut i: usize = 0;
        while i < base
            invariant
                base <= 8,
                base == trim_spaces(self.name@).len(),
                i <= base,
                bytes@ == trim_spaces(self.name@).subrange(0, i as int),
            decreases base - i,
        {
            proof { lemma_trim_prefix(self.name@); }
            bytes.push(self.name[i]);
            assert(bytes@ =~= trim_spaces(self.name@).subrange(0, i + 1));
            i = i + 1;
        }
        if ext_len > 0 {
            let ghost stem = bytes@;
            bytes.push(0x2e);
            let mut j: usize = 0;
            while j < ext_len
                invariant
                    ext_len <= 3,
                    ext_len == trim_spaces(self.ext@).len(),
                    j <= ext_len,
                    bytes@ == stem + seq![0x2eu8] + trim_spaces(self.ext@).subrange(0, j as int),
                decreases ext_len - j,
            {
                proof { lemma_trim_prefix(self.ext@); }
                bytes.push(self.ext[j]);
                assert(bytes@ =~= stem + seq![0x2eu8] + trim_spaces(self.ext@).subrange(0, j + 1));
                j = j + 1;
            }
            assert(trim_spaces(self.ext@).subrange(0, ext_len as int) =~= trim_spaces(self.ext@));
        }
        assert(bytes@ =~= name_bytes(self.name@, self.ext@));
        string_from_utf8(bytes)
    }
}

/// `s` without its trailing spaces.
pub open spec fn trim_spaces(s: Seq<u8>) -> Seq<u8>
    decreases s.len(),
{
    if s.len() > 0 && s.last() == 0x20 {
        trim_spaces(s.drop_last())
    } else {
        s
    }
}

proof fn lemma_trim_prefix(s: Seq<u8>)
    ensures
        trim_spaces(s).len() <= s.len(),
        forall|k: int| 0 <= k < trim_spaces(s).len() ==> trim_spaces(s)[k] == s[k],
    decreases s.len(),
{
    if s.len() > 0 && s.last() == 0x20 {
        lemma_trim_prefix(s.drop_last());
        assert forall|k: int| 0 <= k < trim_spaces(s).len() implies trim_spaces(s)[k] == s[k] by {
            assert(s.drop_last()[k] == s[k]);
        }
    }
}

/// The bytes of the name of an entry with base `name` and extension `ext`.
pub open spec fn name_bytes(name: Seq<u8>, ext: Seq<u8>) -> Seq<u8> {
    if trim_spaces(ext).len() > 0 {
        trim_spaces(name) + seq![0x2eu8] + trim_spaces(ext)
    } else {
        trim_spaces(name)
    }
}

/// The name of an entry, when its bytes are UTF-8.
pub open spec fn name_of(name: Seq<u8>, ext: Seq<u8>) -> Option<Seq<char>> {
    if valid_utf8(name_bytes(name, ext)) {
        Some(decode_utf8(name_bytes(name, ext)))
    } else {
        None
    }
}

fn trimmed_len(s: &[u8; 8]) -> (r: usize)
    ensures
        r == trim_spaces(s@).len(),
        r <= 8,
{
    let mut n: usize = 8;
    assert(s@.subrange(0, 8) =~= s@);
    while n > 0 && s[n - 1] == 0x20
        invariant
            n <= 8,
            trim_spaces(s@) == trim_spaces(s@.subrange(0, n as int)),
        decreases n,
    {
        assert(s@.subrange(0, n as int).drop_last() =~= s@.subrange(0, n - 1));
        n = n - 1;
    }
    n
}

fn trimmed_len3(s: &[u8; 3]) -> (r: usize)
    ensures
        r == trim_spaces(s@).len(),
        r <= 3,
{
    let mut n: usize = 3;
    assert(s@.subrange(0, 3) =~= s@);
    while n > 0 && s[n - 1] == 0x20
        invariant
            n <= 3,
            trim_spaces(s@) == trim_spaces(s@.subrange(0, n as int)),
        decreases n,
    {
        assert(s@.subrange(0, n as int).drop_last() =~= s@.subrange(0, n - 1));
        n = n - 1;
    }
    n
}

/// Decodes `bytes` as UTF-8 with `String::from_utf8`: a string of the
/// characters they encode when they are valid UTF-8, else none.
#[verifier::external_body]
fn string_from_utf8(bytes: Vec<u8>) -> (r: Option<String>)
    ensures
        r is Some <==> valid_utf8(bytes@),
        r matches Some(s) ==> s@ == decode_utf8(bytes@),
{
    String::from_utf8(bytes).ok()
}

} // verus!
