//! An in-memory file system: a list of files (path, contents, mode) and a
//! list of directories (path, mode). Lookups take the first entry whose path
//! matches.
use vstd::prelude::*;
use vstd::string::StrSliceExecFns;
use crate::strutil::{str_eq, starts_with, contains_char, basename, basename_spec};
use crate::vfs::{dir_entry_view, vfs_mount, DirEntry, FileStat, FileSystem, FsStat, NodeKind, Vfs, VfsError};
use crate::fat12::{
    fat12_layout, file_data, image_layout, le16, le32, name_of, read_entry, read_file_data, Fat12Layout,
    ATTR_DIRECTORY, ATTR_LFN, ATTR_VOLUME_ID,
};

verus! {

/// A file entry: path, contents, mode.
pub type FileEntry = (Seq<char>, Seq<u8>, u32);

/// A directory entry: path, mode.
pub type DirModel = (Seq<char>, u32);

struct RamFile {
    path: String,
    data: Vec<u8>,
    mode: u32,
}

struct RamDir {
    path: String,
    mode: u32,
}

pub struct RamFs {
    files: Vec<RamFile>,
    dirs: Vec<RamDir>,
}

/// Position of the first file entry whose path is `p`, or -1.
pub open spec fn find_pos(s: Seq<FileEntry>, p: Seq<char>) -> int
    decreases s.len(),
{
    if s.len() == 0 {
        -1
    } else if s[0].0 == p {
        0
    } else {
        let r = find_pos(s.drop_first(), p);
        if r < 0 {
            -1
        } else {
            r + 1
        }
    }
}

/// `i` is the first position of `s` whose path is `p`.
pub open spec fn first_match(s: Seq<FileEntry>, p: Seq<char>, i: int) -> bool {
    &&& 0 <= i < s.len()
    &&& s[i].0 == p
    &&& forall|k: int| 0 <= k < i ==> s[k].0 != p
}

/// The contents of each file, by path; the first entry for a path wins.
pub open spec fn file_map(s: Seq<FileEntry>) -> Map<Seq<char>, Seq<u8>> {
    Map::new(|p: Seq<char>| find_pos(s, p) >= 0, |p: Seq<char>| s[find_pos(s, p)].1)
}

pub proof fn lemma_find_pos(s: Seq<FileEntry>, p: Seq<char>)
    ensures
        -1 <= find_pos(s, p) < s.len(),
        find_pos(s, p) >= 0 ==> first_match(s, p, find_pos(s, p)),
        find_pos(s, p) < 0 ==> forall|i: int| 0 <= i < s.len() ==> s[i].0 != p,
    decreases s.len(),
{
    if s.len() > 0 && s[0].0 != p {
        let t = s.drop_first();
        lemma_find_pos(t, p);
        if find_pos(t, p) < 0 {
            assert forall|i: int| 0 <= i < s.len() implies s[i].0 != p by {
                if i > 0 {
                    assert(s[i] == t[i - 1]);
                }
            }
        } else {
            let r = find_pos(t, p);
            assert forall|k: int| 0 <= k < r + 1 implies s[k].0 != p by {
                if k > 0 {
                    assert(s[k] == t[k - 1]);
                }
            }
        }
    }
}

pub proof fn lemma_first_match_is_find_pos(s: Seq<FileEntry>, p: Seq<char>, i: int)
    requires
        first_match(s, p, i),
    ensures
        find_pos(s, p) == i,
{
    lemma_find_pos(s, p);
    let f = find_pos(s, p);
    if f < 0 {
        assert(s[i].0 != p);
    } else if f < i {
        assert(s[f].0 != p);
    } else if f > i {
        assert(s[i].0 != p);
    }
}

/// Appending an entry whose path is new adds that file.
pub proof fn lemma_file_map_push(s: Seq<FileEntry>, x: FileEntry)
    requires
        forall|i: int| 0 <= i < s.len() ==> s[i].0 != x.0,
    ensures
        file_map(s.push(x)) == file_map(s).insert(x.0, x.1),
{
    let t = s.push(x);
    assert forall|p: Seq<char>| #[trigger] find_pos(t, p) == if p == x.0 { s.len() as int } else { find_pos(s, p) } by {
        lemma_find_pos(s, p);
        lemma_find_pos(t, p);
        if p == x.0 {
            assert(first_match(t, p, s.len() as int));
            lemma_first_match_is_find_pos(t, p, s.len() as int);
        } else if find_pos(s, p) >= 0 {
            assert(first_match(t, p, find_pos(s, p)));
            lemma_first_match_is_find_pos(t, p, find_pos(s, p));
        } else {
            if find_pos(t, p) >= 0 {
                let f = find_pos(t, p);
                if f < s.len() {
                    assert(t[f] == s[f]);
                }
            }
        }
    }
    assert forall|p: Seq<char>| #[trigger] file_map(t).contains_key(p) == file_map(s).insert(x.0, x.1).contains_key(p) by {
        lemma_find_pos(s, p);
    }
    assert forall|p: Seq<char>| #[trigger] file_map(t).contains_key(p) implies file_map(t)[p] == file_map(s).insert(x.0, x.1)[p] by {
        lemma_find_pos(s, p);
        if p != x.0 {
            let f = find_pos(s, p);
            assert(t[f] == s[f]);
        }
    }
    assert(file_map(t) =~= file_map(s).insert(x.0, x.1));
}

/// Replacing the first entry of a path by one with the same path changes only
/// that file's contents.
pub proof fn lemma_file_map_update(s: Seq<FileEntry>, i: int, y: FileEntry)
    requires
        first_match(s, y.0, i),
    ensures
        file_map(s.update(i, y)) == file_map(s).insert(y.0, y.1),
        forall|p: Seq<char>| #[trigger] find_pos(s.update(i, y), p) == find_pos(s, p),
{
    let t = s.update(i, y);
    assert forall|p: Seq<char>| #[trigger] find_pos(t, p) == find_pos(s, p) by {
        lemma_find_pos(s, p);
        lemma_find_pos(t, p);
        if find_pos(s, p) >= 0 {
            let f = find_pos(s, p);
            assert(first_match(t, p, f));
            lemma_first_match_is_find_pos(t, p, f);
        } else if find_pos(t, p) >= 0 {
            let f = find_pos(t, p);
            assert(t[f].0 == s[f].0);
        }
    }
    lemma_first_match_is_find_pos(s, y.0, i);
    assert forall|p: Seq<char>| #[trigger] file_map(t).contains_key(p) == file_map(s).insert(y.0, y.1).contains_key(p) by {
    }
    assert forall|p: Seq<char>| #[trigger] file_map(t).contains_key(p) implies file_map(t)[p] == file_map(s).insert(y.0, y.1)[p] by {
        lemma_find_pos(s, p);
        let f = find_pos(s, p);
        if p != y.0 {
            assert(s[f].0 == p);
            assert(f != i);
        }
    }
    assert(file_map(t) =~= file_map(s).insert(y.0, y.1));
}

/// Whether a file path lies directly inside the directory `dir` (`"."` is the
/// root, holding the paths without a slash).
pub open spec fn lists_under(path: Seq<char>, dir: Seq<char>) -> bool {
    if dir == seq!['.'] {
        !path.contains('/')
    } else {
        &&& dir.is_prefix_of(path)
        &&& path.len() > dir.len()
        &&& path[dir.len() as int] == '/'
        &&& !path.subrange(dir.len() as int + 1, path.len() as int).contains('/')
    }
}

/// What `readdir(dir)` lists of the file entries.
pub open spec fn file_listing(s: Seq<FileEntry>, dir: Seq<char>) -> Seq<(Seq<char>, NodeKind, u64)> {
    s.filter_map(
        |e: FileEntry|
            if lists_under(e.0, dir) {
                Some((basename_spec(e.0), NodeKind::File, e.1.len() as u64))
            } else {
                None
            },
    )
}

/// What `readdir(dir)` lists of the directory entries.
pub open spec fn dir_listing(s: Seq<DirModel>, dir: Seq<char>) -> Seq<(Seq<char>, NodeKind, u64)> {
    s.filter_map(
        |e: DirModel|
            if lists_under(e.0, dir) {
                Some((basename_spec(e.0), NodeKind::Dir, 0u64))
            } else {
                None
            },
    )
}

/// Sum of the file sizes.
pub open spec fn total_size(s: Seq<FileEntry>) -> int
    decreases s.len(),
{
    if s.len() == 0 {
        0
    } else {
        total_size(s.drop_last()) + s.last().1.len()
    }
}

impl RamFs {
    /// The file entries in order.
    pub closed spec fn entries(&self) -> Seq<FileEntry> {
        self.files@.map_values(|f: RamFile| (f.path@, f.data@, f.mode))
    }

    /// The directory entries in order.
    pub closed spec fn dir_entries(&self) -> Seq<DirModel> {
        self.dirs@.map_values(|d: RamDir| (d.path@, d.mode))
    }

    /// Some directory entry has path `p`.
    pub open spec fn has_dir(&self, p: Seq<char>) -> bool {
        exists|j: int| 0 <= j < self.dir_entries().len() && self.dir_entries()[j].0 == p
    }

    /// Some entry other than the directory `p` itself has a path that starts
    /// with `p`.
    pub open spec fn has_children(&self, p: Seq<char>) -> bool {
        ||| exists|i: int| 0 <= i < self.entries().len() && p.is_prefix_of(#[trigger] self.entries()[i].0)
        ||| exists|j: int| 0 <= j < self.dir_entries().len() && self.dir_entries()[j].0 != p
            && p.is_prefix_of(#[trigger] self.dir_entries()[j].0)
    }

    pub fn new() -> (r: Self)
        ensures
            r.entries() == Seq::<FileEntry>::empty(),
            r.dir_entries() == Seq::<DirModel>::empty(),
    {
        let r = RamFs { files: Vec::new(), dirs: Vec::new() };
        assert(r.entries() =~= Seq::<FileEntry>::empty());
        assert(r.dir_entries() =~= Seq::<DirModel>::empty());
        r
    }

    /// Adds a file entry without checking for an earlier one with the same
    /// path (an earlier entry keeps precedence).
    pub fn push_file(&mut self, path: String, data: Vec<u8>, mode: u32)
        ensures
            final(self).entries() == old(self).entries().push((path@, data@, mode)),
            final(self).dir_entries() == old(self).dir_entries(),
    {
        let ghost e = self.entries();
        self.files.push(RamFile { path, data, mode });
        assert(self.entries() =~= e.push((path@, data@, mode)));
    }

    /// Adds a directory entry without checking for duplicates.
    pub fn push_dir(&mut self, path: String, mode: u32)
        ensures
            final(self).entries() == old(self).entries(),
            final(self).dir_entries() == old(self).dir_entries().push((path@, mode)),
    {
        let ghost d = self.dir_entries();
        self.dirs.push(RamDir { path, mode });
        assert(self.dir_entries() =~= d.push((path@, mode)));
    }

    fn find_file(&self, path: &str) -> (r: Option<usize>)
        ensures
            match r {
                Some(i) => i as int == find_pos(self.entries(), path@) && i < self.files@.len()
                    && i < self.entries().len(),
                None => find_pos(self.entries(), path@) < 0,
            },
    {
        let ghost s = self.entries();
        let mut i: usize = 0;
        while i < self.files.len()
            invariant
                s == self.entries(),
                s.len() == self.files@.len(),
                i <= s.len(),
                forall|k: int| 0 <= k < i ==> s[k].0 != path@,
            decreases s.len() - i,
        {
            if str_eq(self.files[i].path.as_str(), path) {
                proof { lemma_first_match_is_find_pos(s, path@, i as int); }
                return Some(i);
            }
            i = i + 1;
        }
        proof {
            lemma_find_pos(s, path@);
            if find_pos(s, path@) >= 0 {
                assert(s[find_pos(s, path@)].0 != path@);
            }
        }
        None
    }

    fn find_dir(&self, path: &str) -> (r: Option<usize>)
        ensures
            match r {
                Some(j) => j < self.dir_entries().len() && self.dir_entries()[j as int].0 == path@,
                None => !self.has_dir(path@),
            },
    {
        let mut j: usize = 0;
        while j < self.dirs.len()
            invariant
                j <= self.dirs@.len(),
                self.dir_entries().len() == self.dirs@.len(),
                forall|k: int| 0 <= k < j ==> self.dir_entries()[k].0 != path@,
            decreases self.dirs@.len() - j,
        {
            if str_eq(self.dirs[j].path.as_str(), path) {
                return Some(j);
            }
            j = j + 1;
        }
        None
    }

    /// Appends `data` to the file at `path`.
    pub fn append(&mut self, path: &str, data: &[u8]) -> (r: Result<(), VfsError>)
        ensures
            find_pos(old(self).entries(), path@) < 0 ==> r == Err::<(), VfsError>(VfsError::NotFound)
                && final(self).entries() == old(self).entries(),
            find_pos(old(self).entries(), path@) >= 0 ==> r is Ok && final(self).entries()
                == old(self).entries().update(
                find_pos(old(self).entries(), path@),
                (path@, old(self).entries()[find_pos(old(self).entries(), path@)].1 + data@,
                    old(self).entries()[find_pos(old(self).entries(), path@)].2),
            ),
            final(self).dir_entries() == old(self).dir_entries(),
    {
        match self.find_file(path) {
            None => Err(VfsError::NotFound),
            Some(i) => {
                let ghost e = self.entries();
                proof { lemma_find_pos(e, path@); }
                let ghost before = self.files@[i as int].data@;
                self.files[i].data.extend_from_slice(data);
                assert(self.files@[i as int].data@ =~= before + data@);
                assert(self.entries() =~= e.update(i as int, (path@, e[i as int].1 + data@, e[i as int].2)));
                Ok(())
            },
        }
    }
}

/// The mode of a file loaded from an image.
pub const LOADED_FILE_MODE: u32 = 0o644;

/// The mode of a directory loaded from an image.
pub const LOADED_DIR_MODE: u32 = 0o755;

/// What one root directory entry of a FAT12 image contributes.
pub enum ScanStep {
    /// The end of the directory: nothing more is read.
    Stop,
    /// A deleted, long-name or volume entry.
    Skip,
    /// A name that is not UTF-8: loading fails.
    Fail,
    Dir(Seq<char>),
    File(Seq<char>, Seq<u8>),
}

/// What root directory entry `i` contributes: the directory ends at an
/// entry past the image or one whose name starts with a zero byte; deleted
/// entries (first byte 0xE5), long-name entries and the volume label are
/// skipped; the others are directories or files with their chain's bytes.
pub open spec fn entry_step(b: Seq<u8>, l: Fat12Layout, i: int) -> ScanStep {
    let off = l.root_dir_start + i * 32;
    if off + 32 > b.len() {
        ScanStep::Stop
    } else {
        let attr = b[off + 11];
        if b[off] == 0 {
            ScanStep::Stop
        } else if b[off] == 0xE5 {
            ScanStep::Skip
        } else if attr == ATTR_LFN || attr & ATTR_VOLUME_ID != 0 {
            ScanStep::Skip
        } else {
            match name_of(b.subrange(off, off + 8), b.subrange(off + 8, off + 11)) {
                None => ScanStep::Fail,
                Some(n) => if attr & ATTR_DIRECTORY != 0 {
                    ScanStep::Dir(n)
                } else {
                    ScanStep::File(n, file_data(b, l, le16(b, off + 26) as u16, le32(b, off + 28) as u32))
                },
            }
        }
    }
}

/// The files and directories gathered from the first `n` root entries, and
/// whether the directory ended or a name failed among them.
pub struct ScanState {
    pub files: Seq<FileEntry>,
    pub dirs: Seq<DirModel>,
    pub ended: bool,
    pub failed: bool,
}

pub open spec fn scan_upto(b: Seq<u8>, l: Fat12Layout, n: nat) -> ScanState
    decreases n,
{
    if n == 0 {
        ScanState { files: Seq::empty(), dirs: Seq::empty(), ended: false, failed: false }
    } else {
        let st = scan_upto(b, l, (n - 1) as nat);
        if st.ended || st.failed {
            st
        } else {
            match entry_step(b, l, n - 1) {
                ScanStep::Stop => ScanState { ended: true, ..st },
                ScanStep::Skip => st,
                ScanStep::Fail => ScanState { failed: true, ..st },
                ScanStep::Dir(name) => ScanState { dirs: st.dirs.push((name, LOADED_DIR_MODE)), ..st },
                ScanStep::File(name, data) => ScanState {
                    files: st.files.push((name, data, LOADED_FILE_MODE)),
                    ..st
                },
            }
        }
    }
}

proof fn lemma_scan_stays(b: Seq<u8>, l: Fat12Layout, m: nat, n: nat)
    requires
        m <= n,
        scan_upto(b, l, m).ended || scan_upto(b, l, m).failed,
    ensures
        scan_upto(b, l, n) == scan_upto(b, l, m),
    decreases n,
{
    if m < n {
        lemma_scan_stays(b, l, m, (n - 1) as nat);
    }
}

proof fn lemma_layout_bounds(b: Seq<u8>)
    requires
        image_layout(b) is Some,
    ensures
        image_layout(b)->0.fat_start < 0x1_0000_0000,
        image_layout(b)->0.root_dir_start < 0x1_0000_0000_0000,
        image_layout(b)->0.data_start < 0x1_0000_0000_0000,
        image_layout(b)->0.cluster_size < 0x1_0000_0000,
{
    let bpb = crate::fat12::bpb_of(b);
    let (r, n, f, c, e) = (
        bpb.reserved_sectors as int,
        bpb.num_fats as int,
        bpb.fat_size_16 as int,
        bpb.sectors_per_cluster as int,
        bpb.root_entry_count as int,
    );
    assert(r * 512 < 0x1_0000_0000 && r * 512 + n * f * 512 + ((e * 32 + 511) / 512) * 512 < 0x1_0000_0000_0000
        && c * 512 < 0x1_0000_0000) by (nonlinear_arith)
        requires 0 <= r < 0x10000, 0 <= n < 0x100, 0 <= f < 0x10000, 0 <= c < 0x100, 0 <= e < 0x10000;
}

impl RamFs {
    /// Loads the root directory of a FAT12 image: each directory entry
    /// becomes a directory, each file entry a file holding its cluster
    /// chain's bytes, in directory order. An image shorter than a sector or
    /// with sectors other than 512 bytes, and a name that is not UTF-8, are
    /// refused as I/O errors; what was loaded before a bad name stays.
    pub fn load_from_fat12(&mut self, image: &[u8]) -> (r: Result<(), VfsError>)
        ensures
            match image_layout(image@) {
                None => r == Err::<(), VfsError>(VfsError::IoError) && final(self).entries() == old(self).entries()
                    && final(self).dir_entries() == old(self).dir_entries(),
                Some(l) => {
                    let st = scan_upto(image@, l, l.root_entry_count as nat);
                    &&& final(self).entries() == old(self).entries() + st.files
                    &&& final(self).dir_entries() == old(self).dir_entries() + st.dirs
                    &&& r == if st.failed {
                        Err::<(), VfsError>(VfsError::IoError)
                    } else {
                        Ok::<(), VfsError>(())
                    }
                },
            },
    {
        let l = match fat12_layout(image) {
            Some(l) => l,
            None => {
                return Err(VfsError::IoError);
            },
        };
        proof {
            lemma_layout_bounds(image@);
        }
        let ghost b = image@;
        let ghost files0 = self.entries();
        let ghost dirs0 = self.dir_entries();
        let len = image.len();
        let count = l.root_entry_count;
        let mut i: u16 = 0;
        while i < count
            invariant
                b == image@,
                files0 == old(self).entries(),
                dirs0 == old(self).dir_entries(),
                len == b.len(),
                image_layout(b) == Some(l),
                count == l.root_entry_count,
                l.fat_start < 0x1_0000_0000,
                l.root_dir_start < 0x1_0000_0000_0000,
                l.data_start < 0x1_0000_0000_0000,
                l.cluster_size < 0x1_0000_0000,
                i <= count,
                !scan_upto(b, l, i as nat).ended,
                !scan_upto(b, l, i as nat).failed,
                self.entries() == files0 + scan_upto(b, l, i as nat).files,
                self.dir_entries() == dirs0 + scan_upto(b, l, i as nat).dirs,
            decreases count - i,
        {
            let off: u64 = l.root_dir_start + (i as u64) * 32;
            if off + 32 > len as u64 {
                proof {
                    lemma_scan_stays(b, l, (i + 1) as nat, count as nat);
                }
                return Ok(());
            }
            let entry = read_entry(image, off as usize);
            proof {
                assert(entry.name@[0] == b[off as int]);
            }
            if entry.name[0] == 0x00 {
                proof {
                    lemma_scan_stays(b, l, (i + 1) as nat, count as nat);
                }
                return Ok(());
            }
            if entry.name[0] == 0xE5 || entry.is_lfn() || entry.is_volume_id() {
                i = i + 1;
                continue;
            }
            let name = match entry.get_name() {
                Some(n) => n,
                None => {
                    proof {
                        lemma_scan_stays(b, l, (i + 1) as nat, count as nat);
                    }
                    return Err(VfsError::IoError);
                },
            };
            if entry.is_directory() {
                let ghost d = self.dir_entries();
                self.push_dir(name, LOADED_DIR_MODE);
                assert(self.dir_entries() =~= dirs0 + scan_upto(b, l, (i + 1) as nat).dirs);
                i = i + 1;
                continue;
            }
            let data = read_file_data(image, &l, entry.first_cluster, entry.file_size);
            self.push_file(name, data, LOADED_FILE_MODE);
            assert(self.entries() =~= files0 + scan_upto(b, l, (i + 1) as nat).files);
            i = i + 1;
        }
        Ok(())
    }
}

/// What `stat` answers for `p` on a file system with these entries.
pub open spec fn ram_stat(files: Seq<FileEntry>, dirs: Seq<DirModel>, p: Seq<char>) -> Result<FileStat, VfsError> {
    if find_pos(files, p) >= 0 {
        let e = files[find_pos(files, p)];
        Ok(FileStat { size: e.1.len() as u64, kind: NodeKind::File, mode: e.2 })
    } else if p == seq!['.'] || exists|j: int| 0 <= j < dirs.len() && dirs[j].0 == p {
        Ok(FileStat { size: 0, kind: NodeKind::Dir, mode: 0o755 })
    } else {
        Err(VfsError::NotFound)
    }
}

impl FileSystem for RamFs {
    open spec fn files(&self) -> Map<Seq<char>, Seq<u8>> {
        file_map(self.entries())
    }

    open spec fn stat_spec(&self, path: Seq<char>) -> Result<FileStat, VfsError> {
        ram_stat(self.entries(), self.dir_entries(), path)
    }

    open spec fn read_spec(&self, path: Seq<char>) -> Result<Seq<u8>, VfsError> {
        if find_pos(self.entries(), path) >= 0 {
            Ok(self.entries()[find_pos(self.entries(), path)].1)
        } else {
            Err(VfsError::NotFound)
        }
    }

    open spec fn create_spec(&self, path: Seq<char>, data: Seq<u8>, mode: u32) -> Result<(), VfsError> {
        if find_pos(self.entries(), path) >= 0 {
            Err(VfsError::AlreadyExists)
        } else {
            Ok(())
        }
    }

    open spec fn write_spec(&self, path: Seq<char>, data: Seq<u8>) -> Result<(), VfsError> {
        if find_pos(self.entries(), path) >= 0 {
            Ok(())
        } else {
            Err(VfsError::NotFound)
        }
    }

    open spec fn readdir_spec(&self, path: Seq<char>) -> Result<Seq<(Seq<char>, NodeKind, u64)>, VfsError> {
        Ok(file_listing(self.entries(), path) + dir_listing(self.dir_entries(), path))
    }

    fn stat(&self, path: &str) -> (r: Result<FileStat, VfsError>) {
        if let Some(i) = self.find_file(path) {
            proof { lemma_find_pos(self.entries(), path@); }
            let f = &self.files[i];
            return Ok(FileStat { size: f.data.len() as u64, kind: NodeKind::File, mode: f.mode });
        }
        let dot = ".";
        proof { reveal_strlit("."); }
        assert(dot@ =~= seq!['.']);
        if str_eq(path, dot) || self.find_dir(path).is_some() {
            return Ok(FileStat { size: 0, kind: NodeKind::Dir, mode: 0o755 });
        }
        Err(VfsError::NotFound)
    }

    fn read(&self, path: &str) -> (r: Result<Vec<u8>, VfsError>)
        ensures
            find_pos(self.entries(), path@) < 0 ==> r == Err::<Vec<u8>, VfsError>(VfsError::NotFound),
            find_pos(self.entries(), path@) >= 0 ==> (r matches Ok(d) && d@ == self.files()[path@]),
    {
        match self.find_file(path) {
            Some(i) => {
                proof { lemma_find_pos(self.entries(), path@); }
                let d = self.files[i].data.clone();
                assert(d@ =~= self.files@[i as int].data@);
                Ok(d)
            },
            None => Err(VfsError::NotFound),
        }
    }

    fn write(&mut self, path: &str, data: &[u8]) -> (r: Result<(), VfsError>)
        ensures
            find_pos(old(self).entries(), path@) < 0 ==> r == Err::<(), VfsError>(VfsError::NotFound)
                && final(self).entries() == old(self).entries(),
            find_pos(old(self).entries(), path@) >= 0 ==> r is Ok,
            r is Ok ==> final(self).entries() == old(self).entries().update(
                find_pos(old(self).entries(), path@),
                (path@, data@, old(self).entries()[find_pos(old(self).entries(), path@)].2),
            ),
            final(self).dir_entries() == old(self).dir_entries(),
    {
        match self.find_file(path) {
            None => Err(VfsError::NotFound),
            Some(i) => {
                let ghost e = self.entries();
                proof { lemma_find_pos(e, path@); }
                self.files[i].data = vstd::slice::slice_to_vec(data);
                let ghost y = (path@, data@, e[i as int].2);
                assert(self.entries() =~= e.update(i as int, y));
                proof { lemma_file_map_update(e, i as int, y); }
                Ok(())
            },
        }
    }

    fn create(&mut self, path: &str, data: &[u8], mode: u32) -> (r: Result<(), VfsError>)
        ensures
            find_pos(old(self).entries(), path@) >= 0 ==> r == Err::<(), VfsError>(VfsError::AlreadyExists)
                && final(self).entries() == old(self).entries(),
            find_pos(old(self).entries(), path@) < 0 ==> r is Ok
                && final(self).entries() == old(self).entries().push((path@, data@, mode)),
            final(self).dir_entries() == old(self).dir_entries(),
    {
        if self.find_file(path).is_some() {
            return Err(VfsError::AlreadyExists);
        }
        let ghost e = self.entries();
        proof { lemma_find_pos(e, path@); }
        let d = vstd::slice::slice_to_vec(data);
        self.push_file(path.to_owned(), d, mode);
        proof {
            lemma_file_map_push(e, (path@, data@, mode));
            assert(first_match(self.entries(), path@, e.len() as int));
            lemma_first_match_is_find_pos(self.entries(), path@, e.len() as int);
        }
        Ok(())
    }

    fn unlink(&mut self, path: &str) -> (r: Result<(), VfsError>)
        ensures
            find_pos(old(self).entries(), path@) < 0 ==> r == Err::<(), VfsError>(VfsError::NotFound)
                && final(self).entries() == old(self).entries(),
            find_pos(old(self).entries(), path@) >= 0 ==> r is Ok && final(self).entries()
                == old(self).entries().remove(find_pos(old(self).entries(), path@)),
            final(self).dir_entries() == old(self).dir_entries(),
    {
        match self.find_file(path) {
            None => Err(VfsError::NotFound),
            Some(i) => {
                let ghost e = self.entries();
                let _ = self.files.remove(i);
                assert(self.entries() =~= e.remove(i as int));
                Ok(())
            },
        }
    }

    fn rename(&mut self, from: &str, to: &str) -> (r: Result<(), VfsError>)
        ensures
            find_pos(old(self).entries(), to@) >= 0 ==> r == Err::<(), VfsError>(VfsError::AlreadyExists)
                && final(self).entries() == old(self).entries(),
            find_pos(old(self).entries(), to@) < 0 && find_pos(old(self).entries(), from@) < 0 ==> r
                == Err::<(), VfsError>(VfsError::NotFound) && final(self).entries() == old(self).entries(),
            find_pos(old(self).entries(), to@) < 0 && find_pos(old(self).entries(), from@) >= 0 ==> r is Ok
                && final(self).entries() == old(self).entries().update(
                find_pos(old(self).entries(), from@),
                (to@, old(self).entries()[find_pos(old(self).entries(), from@)].1,
                    old(self).entries()[find_pos(old(self).entries(), from@)].2),
            ),
            final(self).dir_entries() == old(self).dir_entries(),
    {
        if self.find_file(to).is_some() {
            return Err(VfsError::AlreadyExists);
        }
        match self.find_file(from) {
            None => Err(VfsError::NotFound),
            Some(i) => {
                let ghost e = self.entries();
                self.files[i].path = to.to_owned();
                assert(self.entries() =~= e.update(i as int, (to@, e[i as int].1, e[i as int].2)));
                Ok(())
            },
        }
    }

    fn mkdir(&mut self, path: &str, mode: u32) -> (r: Result<(), VfsError>)
        ensures
            old(self).has_dir(path@) ==> r == Err::<(), VfsError>(VfsError::AlreadyExists)
                && final(self).dir_entries() == old(self).dir_entries(),
            !old(self).has_dir(path@) ==> r is Ok && final(self).dir_entries()
                == old(self).dir_entries().push((path@, mode)),
            final(self).entries() == old(self).entries(),
    {
        if self.find_dir(path).is_some() {
            return Err(VfsError::AlreadyExists);
        }
        self.push_dir(path.to_owned(), mode);
        Ok(())
    }

    fn rmdir(&mut self, path: &str) -> (r: Result<(), VfsError>)
        ensures
            old(self).has_children(path@) ==> r == Err::<(), VfsError>(VfsError::NotEmpty)
                && final(self).dir_entries() == old(self).dir_entries(),
            !old(self).has_children(path@) && !old(self).has_dir(path@) ==> r == Err::<(), VfsError>(
                VfsError::NotFound,
            ) && final(self).dir_entries() == old(self).dir_entries(),
            !old(self).has_children(path@) && old(self).has_dir(path@) ==> r is Ok && exists|j: int|
                0 <= j < old(self).dir_entries().len() && old(self).dir_entries()[j].0 == path@
                    && (forall|k: int| 0 <= k < j ==> old(self).dir_entries()[k].0 != path@)
                    && final(self).dir_entries() == old(self).dir_entries().remove(j),
            final(self).entries() == old(self).entries(),
    {
        let mut i: usize = 0;
        while i < self.files.len()
            invariant
                *self == *old(self),
                i <= self.files@.len(),
                self.entries().len() == self.files@.len(),
                forall|k: int| 0 <= k < i ==> !path@.is_prefix_of(#[trigger] self.entries()[k].0),
            decreases self.files@.len() - i,
        {
            if starts_with(self.files[i].path.as_str(), path) {
                assert(path@.is_prefix_of(self.entries()[i as int].0));
                return Err(VfsError::NotEmpty);
            }
            i = i + 1;
        }
        let mut j: usize = 0;
        while j < self.dirs.len()
            invariant
                *self == *old(self),
                j <= self.dirs@.len(),
                self.dir_entries().len() == self.dirs@.len(),
                forall|k: int| 0 <= k < self.entries().len() ==> !path@.is_prefix_of(#[trigger] self.entries()[k].0),
                forall|k: int|
                    0 <= k < j ==> !(self.dir_entries()[k].0 != path@ && path@.is_prefix_of(
                        #[trigger] self.dir_entries()[k].0,
                    )),
            decreases self.dirs@.len() - j,
        {
            let d = self.dirs[j].path.as_str();
            if !str_eq(d, path) && starts_with(d, path) {
                assert(path@.is_prefix_of(self.dir_entries()[j as int].0));
                return Err(VfsError::NotEmpty);
            }
            j = j + 1;
        }
        assert(!self.has_children(path@));
        let mut j: usize = 0;
        while j < self.dirs.len()
            invariant
                *self == *old(self),
                j <= self.dirs@.len(),
                self.dir_entries().len() == self.dirs@.len(),
                !self.has_children(path@),
                forall|k: int| 0 <= k < j ==> self.dir_entries()[k].0 != path@,
            decreases self.dirs@.len() - j,
        {
            if str_eq(self.dirs[j].path.as_str(), path) {
                let ghost d = self.dir_entries();
                assert(old(self).dir_entries()[j as int].0 == path@);
                let _ = self.dirs.remove(j);
                assert(self.dir_entries() =~= d.remove(j as int));
                return Ok(());
            }
            j = j + 1;
        }
        Err(VfsError::NotFound)
    }

    fn readdir(&self, path: &str) -> (r: Result<Vec<DirEntry>, VfsError>)
        ensures
            r matches Ok(v) && v@.map_values(|d: DirEntry| dir_entry_view(d)) == file_listing(
                self.entries(),
                path@,
            ) + dir_listing(self.dir_entries(), path@),
    {
        let dot = ".";
        proof { reveal_strlit("."); }
        assert(dot@ =~= seq!['.']);
        let is_root = str_eq(path, dot);
        let mut out: Vec<DirEntry> = Vec::new();
        let ghost fe = self.entries();
        let mut i: usize = 0;
        while i < self.files.len()
            invariant
                fe == self.entries(),
                fe.len() == self.files@.len(),
                i <= fe.len(),
                is_root == (path@ == seq!['.']),
                out@.map_values(|d: DirEntry| dir_entry_view(d)) == file_listing(fe.take(i as int), path@),
            decreases fe.len() - i,
        {
            let p = self.files[i].path.as_str();
            let shown = if is_root {
                !contains_char(p, '/')
            } else {
                dir_member(p, path)
            };
            let ghost before = out@;
            if shown {
                let name = basename(p);
                out.push(DirEntry { name: name.to_owned(), kind: NodeKind::File, size: self.files[i].data.len() as u64 });
            }
            proof {
                assert(fe.take(i + 1).drop_last() =~= fe.take(i as int));
                assert(fe.take(i + 1).last() == fe[i as int]);
                assert(out@.map_values(|d: DirEntry| dir_entry_view(d)) =~= file_listing(fe.take(i + 1), path@));
            }
            i = i + 1;
        }
        assert(fe.take(fe.len() as int) =~= fe);
        let ghost files_part = out@;
        let ghost de = self.dir_entries();
        let mut dirs_out: Vec<DirEntry> = Vec::new();
        let mut j: usize = 0;
        while j < self.dirs.len()
            invariant
                de == self.dir_entries(),
                de.len() == self.dirs@.len(),
                j <= de.len(),
                is_root == (path@ == seq!['.']),
                dirs_out@.map_values(|d: DirEntry| dir_entry_view(d)) == dir_listing(de.take(j as int), path@),
            decreases de.len() - j,
        {
            let p = self.dirs[j].path.as_str();
            let shown = if is_root {
                !contains_char(p, '/')
            } else {
                dir_member(p, path)
            };
            if shown {
                let name = basename(p);
                dirs_out.push(DirEntry { name: name.to_owned(), kind: NodeKind::Dir, size: 0 });
            }
            proof {
                assert(de.take(j + 1).drop_last() =~= de.take(j as int));
                assert(de.take(j + 1).last() == de[j as int]);
                assert(dirs_out@.map_values(|d: DirEntry| dir_entry_view(d)) =~= dir_listing(de.take(j + 1), path@));
            }
            j = j + 1;
        }
        assert(de.take(de.len() as int) =~= de);
        let ghost a = out@;
        let ghost b = dirs_out@;
        out.append(&mut dirs_out);
        assert(out@.map_values(|d: DirEntry| dir_entry_view(d)) =~= a.map_values(|d: DirEntry| dir_entry_view(d))
            + b.map_values(|d: DirEntry| dir_entry_view(d)));
        Ok(out)
    }

    fn stat_fs(&self) -> (r: FsStat)
        ensures
            r.total_bytes == if total_size(self.entries()) <= u64::MAX {
                total_size(self.entries())
            } else {
                u64::MAX as int
            },
            r.free_bytes == u64::MAX,
            r.fs_type@ == "ramfs"@,
    {
        let ghost e = self.entries();
        let mut used: u64 = 0;
        let mut i: usize = 0;
        while i < self.files.len()
            invariant
                e == self.entries(),
                e.len() == self.files@.len(),
                i <= e.len(),
                used == if total_size(e.take(i as int)) <= u64::MAX {
                    total_size(e.take(i as int))
                } else {
                    u64::MAX as int
                },
            decreases e.len() - i,
        {
            proof {
                assert(e.take(i + 1).drop_last() =~= e.take(i as int));
                assert(e.take(i + 1).last() == e[i as int]);
                assert(total_size(e.take(i as int)) >= 0) by { lemma_total_size_nonneg(e.take(i as int)); }
            }
            used = used.saturating_add(self.files[i].data.len() as u64);
            i = i + 1;
        }
        assert(e.take(e.len() as int) =~= e);
        FsStat { total_bytes: used, free_bytes: u64::MAX, fs_type: "ramfs" }
    }
}

proof fn lemma_total_size_nonneg(s: Seq<FileEntry>)
    ensures
        total_size(s) >= 0,
    decreases s.len(),
{
    if s.len() > 0 {
        lemma_total_size_nonneg(s.drop_last());
    }
}

/// Whether `p` lies directly inside the (non-root) directory `dir`.
fn dir_member(p: &str, dir: &str) -> (r: bool)
    ensures
        dir@ != seq!['.'] ==> r == lists_under(p@, dir@),
{
    if !starts_with(p, dir) {
        return false;
    }
    let n = p.unicode_len();
    let k = dir.unicode_len();
    if n <= k || p.get_char(k) != '/' {
        return false;
    }
    let rest = p.substring_char(k + 1, n);
    !contains_char(rest, '/')
}

/// Mounts the FAT12 image `data` at `mount_point` as a new RAM file
/// system holding its root directory. A refused image leaves the mounts as
/// they were; so does a mount point already in use.
pub fn mount_ramdisk(vfs: &mut Vfs<RamFs>, data: &[u8], mount_point: &str) -> (r: Result<(), VfsError>)
    requires
        old(vfs).wf(),
    ensures
        final(vfs).wf(),
        match image_layout(data@) {
            None => r == Err::<(), VfsError>(VfsError::IoError) && final(vfs)@ == old(vfs)@,
            Some(l) => {
                let st = scan_upto(data@, l, l.root_entry_count as nat);
                if st.failed {
                    r == Err::<(), VfsError>(VfsError::IoError) && final(vfs)@ == old(vfs)@
                } else if old(vfs).is_mounted(mount_point@) {
                    r == Err::<(), VfsError>(VfsError::AlreadyExists) && final(vfs)@ == old(vfs)@
                } else {
                    &&& r is Ok
                    &&& final(vfs)@.len() == old(vfs)@.len() + 1
                    &&& final(vfs)@.take(old(vfs)@.len() as int) == old(vfs)@
                    &&& final(vfs)@.last().0 == mount_point@
                    &&& final(vfs)@.last().1.entries() == st.files
                    &&& final(vfs)@.last().1.dir_entries() == st.dirs
                }
            },
        },
{
    let mut ramfs = RamFs::new();
    let loaded = ramfs.load_from_fat12(data);
    match loaded {
        Err(e) => Err(e),
        Ok(()) => {
            assert(ramfs.entries() =~= Seq::<FileEntry>::empty() + scan_upto(data@, image_layout(data@)->0, image_layout(data@)->0.root_entry_count as nat).files);
            assert(ramfs.dir_entries() =~= Seq::<DirModel>::empty() + scan_upto(data@, image_layout(data@)->0, image_layout(data@)->0.root_entry_count as nat).dirs);
            let ghost before = vfs@;
            let r = vfs_mount(vfs, mount_point, ramfs);
            proof {
                if r is Ok {
                    assert(vfs@.take(before.len() as int) =~= before);
                }
            }
            r
        },
    }
}

} // verus!
