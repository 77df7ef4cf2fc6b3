//! The virtual file system: a table of mount points, each holding a file
//! system, and the path operations that route a request to the file system
//! mounted under the first component of the path.
use vstd::prelude::*;
use vstd::string::{StrSliceExecFns, StringExecFns};
use crate::strutil::str_eq;

verus! {

pub const O_RDONLY: u32 = 0x0000;
pub const O_WRONLY: u32 = 0x0001;
pub const O_RDWR: u32 = 0x0002;
pub const O_CREAT: u32 = 0x0040;
pub const O_TRUNC: u32 = 0x0200;
pub const O_APPEND: u32 = 0x0400;
pub const O_EXCL: u32 = 0x0800;

pub const S_IRUSR: u32 = 0o400;
pub const S_IWUSR: u32 = 0o200;
pub const S_IXUSR: u32 = 0o100;
pub const S_IRGRP: u32 = 0o040;
pub const S_IWGRP: u32 = 0o020;
pub const S_IROTH: u32 = 0o004;
pub const S_IFREG: u32 = 0o100000;
pub const S_IFDIR: u32 = 0o040000;
pub const S_IMODE: u32 = 0o777;

#[derive(Clone, Copy, Debug, PartialEq, Eq, Structural)]
pub enum NodeKind {
    File,
    Dir,
}

#[derive(Clone, Debug)]
pub struct DirEntry {
    pub name: String,
    pub kind: NodeKind,
    pub size: u64,
}

#[derive(Clone, Copy, Debug, PartialEq, Eq, Structural)]
pub struct FileStat {
    pub size: u64,
    pub kind: NodeKind,
    pub mode: u32,
}

#[derive(Clone, Debug)]
pub struct FsStat {
    pub total_bytes: u64,
    pub free_bytes: u64,
    pub fs_type: &'static str,
}

#[derive(Clone, Copy, Debug, PartialEq, Eq, Structural)]
pub enum VfsError {
    NotFound,
    AlreadyExists,
    NotAFile,
    NotADir,
    NotEmpty,
    PermissionDenied,
    InvalidPath,
    NotSupported,
    IoError,
    NoSpace,
    NotMounted,
}

impl VfsError {
    /// The human-readable text of each error.
    pub open spec fn message(self) -> Seq<char> {
        match self {
            VfsError::NotFound => "not found"@,
            VfsError::AlreadyExists => "already exists"@,
            VfsError::NotAFile => "not a file"@,
            VfsError::NotADir => "not a directory"@,
            VfsError::NotEmpty => "directory not empty"@,
            VfsError::PermissionDenied => "permission denied"@,
            VfsError::InvalidPath => "invalid path"@,
            VfsError::NotSupported => "not supported"@,
            VfsError::IoError => "I/O error"@,
            VfsError::NoSpace => "no space left"@,
            VfsError::NotMounted => "not mounted"@,
        }
    }

    pub fn as_str(self) -> (r: &'static str)
        ensures
            r@ == self.message(),
    {
        match self {
            VfsError::NotFound => "not found",
            VfsError::AlreadyExists => "already exists",
            VfsError::NotAFile => "not a file",
            VfsError::NotADir => "not a directory",
            VfsError::NotEmpty => "directory not empty",
            VfsError::PermissionDenied => "permission denied",
            VfsError::InvalidPath => "invalid path",
            VfsError::NotSupported => "not supported",
            VfsError::IoError => "I/O error",
            VfsError::NoSpace => "no space left",
            VfsError::NotMounted => "not mounted",
        }
    }
}

/// A directory entry by its name, kind and size.
pub open spec fn dir_entry_view(d: DirEntry) -> (Seq<char>, NodeKind, u64) {
    (d.name@, d.kind, d.size)
}

/// A read's answer, its bytes taken as a sequence.
pub open spec fn bytes_result(r: Result<Vec<u8>, VfsError>) -> Result<Seq<u8>, VfsError> {
    match r {
        Ok(d) => Ok(d@),
        Err(e) => Err(e),
    }
}

/// A listing's answer, its entries taken by name, kind and size.
pub open spec fn listing_result(r: Result<Vec<DirEntry>, VfsError>) -> Result<
    Seq<(Seq<char>, NodeKind, u64)>,
    VfsError,
> {
    match r {
        Ok(v) => Ok(v@.map_values(|d: DirEntry| dir_entry_view(d))),
        Err(e) => Err(e),
    }
}

/// A file system that can be mounted into the VFS.
///
/// `files` is the abstract content of the regular files, keyed by path
/// relative to the mount point; `stat_spec`, `read_spec`, `create_spec`,
/// `write_spec` and `readdir_spec` are what `stat`, `read`, `create`,
/// `write` and `readdir` answer.
/// The clauses below are what the VFS relies on: `stat`, `read`, `create`
/// and `readdir` answer by the current state, a successful `read` hands back
/// the stored contents, and a successful `write` or `create` stores exactly
/// the given bytes under the path, which a read then gives back, and changes
/// no other file.
pub trait FileSystem: Sized {
    spec fn files(&self) -> Map<Seq<char>, Seq<u8>>;

    spec fn stat_spec(&self, path: Seq<char>) -> Result<FileStat, VfsError>;

    spec fn read_spec(&self, path: Seq<char>) -> Result<Seq<u8>, VfsError>;

    spec fn create_spec(&self, path: Seq<char>, data: Seq<u8>, mode: u32) -> Result<(), VfsError>;

    spec fn write_spec(&self, path: Seq<char>, data: Seq<u8>) -> Result<(), VfsError>;

    spec fn readdir_spec(&self, path: Seq<char>) -> Result<Seq<(Seq<char>, NodeKind, u64)>, VfsError>;

    fn stat(&self, path: &str) -> (r: Result<FileStat, VfsError>)
        ensures
            r == self.stat_spec(path@),
    ;

    fn read(&self, path: &str) -> (r: Result<Vec<u8>, VfsError>)
        ensures
            bytes_result(r) == self.read_spec(path@),
            r matches Ok(d) ==> self.files().contains_key(path@) && d@ == self.files()[path@],
    ;

    fn write(&mut self, path: &str, data: &[u8]) -> (r: Result<(), VfsError>)
        ensures
            r == old(self).write_spec(path@, data@),
            r is Ok ==> final(self).files() == old(self).files().insert(path@, data@),
            r is Ok ==> final(self).read_spec(path@) == Ok::<Seq<u8>, VfsError>(data@),
    ;

    fn create(&mut self, path: &str, data: &[u8], mode: u32) -> (r: Result<(), VfsError>)
        ensures
            r == old(self).create_spec(path@, data@, mode),
            r is Ok ==> final(self).files() == old(self).files().insert(path@, data@),
            r is Ok ==> final(self).read_spec(path@) == Ok::<Seq<u8>, VfsError>(data@),
            r is Ok ==> final(self).stat_spec(path@) == Ok::<FileStat, VfsError>(
                FileStat { size: data@.len() as u64, kind: NodeKind::File, mode },
            ),
    ;

    fn unlink(&mut self, path: &str) -> Result<(), VfsError>;

    fn rename(&mut self, from: &str, to: &str) -> Result<(), VfsError>;

    fn mkdir(&mut self, path: &str, mode: u32) -> Result<(), VfsError>;

    fn rmdir(&mut self, path: &str) -> Result<(), VfsError>;

    fn readdir(&self, path: &str) -> (r: Result<Vec<DirEntry>, VfsError>)
        ensures
            listing_result(r) == self.readdir_spec(path@),
    ;

    fn stat_fs(&self) -> FsStat;
}

/// A read of `path` on `fs` gives back `data`.
pub open spec fn reads_back<F: FileSystem>(fs: F, path: Seq<char>, data: Seq<u8>) -> bool {
    fs.read_spec(path) == Ok::<Seq<u8>, VfsError>(data)
}

/// `r` is the error `e`.
pub open spec fn fails_with<T>(r: Result<T, VfsError>, e: VfsError) -> bool {
    r matches Err(x) && x == e
}

// ---------------------------------------------------------------------------
// Paths

/// The path with its leading slashes removed.
pub open spec fn skip_slashes(s: Seq<char>) -> Seq<char>
    decreases s.len(),
{
    if s.len() > 0 && s[0] == '/' {
        skip_slashes(s.drop_first())
    } else {
        s
    }
}

/// `j` is the position of the first slash of `t`.
pub open spec fn is_first_slash(t: Seq<char>, j: int) -> bool {
    &&& 0 <= j < t.len()
    &&& t[j] == '/'
    &&& forall|k: int| 0 <= k < j ==> t[k] != '/'
}

/// Splits a path into its mount point (the first component after the leading
/// slashes) and the rest; `None` where either would be empty.
pub open spec fn split_path_spec(p: Seq<char>) -> Option<(Seq<char>, Seq<char>)> {
    let t = skip_slashes(p);
    if exists|j: int| is_first_slash(t, j) {
        let j = choose|j: int| is_first_slash(t, j);
        if j == 0 || j + 1 == t.len() {
            None
        } else {
            Some((t.subrange(0, j), t.subrange(j + 1, t.len() as int)))
        }
    } else {
        None
    }
}

proof fn lemma_first_slash_unique(t: Seq<char>, a: int, b: int)
    requires
        is_first_slash(t, a),
        is_first_slash(t, b),
    ensures
        a == b,
{
    if a < b {
        assert(t[a] != '/');
    } else if b < a {
        assert(t[b] != '/');
    }
}

/// Splits `path` into mount point and relative path.
fn split_path(path: &str) -> (r: Result<(&str, &str), VfsError>)
    ensures
        match r {
            Ok((pt, rel)) => split_path_spec(path@) == Some((pt@, rel@)),
            Err(e) => split_path_spec(path@) is None && e == VfsError::InvalidPath,
        },
{
    let n = path.unicode_len();
    let mut i: usize = 0;
    assert(path@.subrange(0, n as int) =~= path@);
    while i < n && path.get_char(i) == '/'
        invariant
            n == path@.len(),
            i <= n,
            skip_slashes(path@) == skip_slashes(path@.subrange(i as int, n as int)),
        decreases n - i,
    {
        let ghost s = path@.subrange(i as int, n as int);
        assert(s.drop_first() =~= path@.subrange(i + 1, n as int));
        i = i + 1;
    }
    let t = path.substring_char(i, n);
    proof {
        let s = path@.subrange(i as int, n as int);
        assert(skip_slashes(s) == s);
        assert(t@ == skip_slashes(path@));
    }
    let m = t.unicode_len();
    let mut j: usize = 0;
    while j < m && t.get_char(j) != '/'
        invariant
            m == t@.len(),
            j <= m,
            forall|k: int| 0 <= k < j ==> t@[k] != '/',
        decreases m - j,
    {
        j = j + 1;
    }
    if j == m {
        proof {
            assert forall|x: int| !is_first_slash(t@, x) by {
                if is_first_slash(t@, x) {
                    assert(t@[x] != '/');
                }
            }
        }
        return Err(VfsError::InvalidPath);
    }
    proof {
        assert(is_first_slash(t@, j as int));
        let c = choose|x: int| is_first_slash(t@, x);
        lemma_first_slash_unique(t@, c, j as int);
    }
    if j == 0 || j + 1 == m {
        return Err(VfsError::InvalidPath);
    }
    let point = t.substring_char(0, j);
    let rel = t.substring_char(j + 1, m);
    Ok((point, rel))
}

// ---------------------------------------------------------------------------
// Mount table

struct MountEntry<F> {
    point: String,
    fs: F,
}

/// The mount table.
pub struct Vfs<F> {
    mounts: Vec<MountEntry<F>>,
}

impl<F: FileSystem> Vfs<F> {
    /// The mount points with their file systems, in mount order.
    pub closed spec fn view(&self) -> Seq<(Seq<char>, F)> {
        self.mounts@.map_values(|e: MountEntry<F>| (e.point@, e.fs))
    }

    /// No mount point occurs twice.
    pub open spec fn wf(&self) -> bool {
        forall|i: int, j: int|
            0 <= i < j < self@.len() ==> #[trigger] self@[i].0 != #[trigger] self@[j].0
    }

    /// Some entry is mounted at `point`.
    pub open spec fn is_mounted(&self, point: Seq<char>) -> bool {
        exists|i: int| 0 <= i < self@.len() && self@[i].0 == point
    }

    /// The file system mounted at `point`.
    pub open spec fn fs_at(&self, point: Seq<char>) -> F
        recommends
            self.is_mounted(point),
    {
        self@[choose|i: int| 0 <= i < self@.len() && self@[i].0 == point].1
    }

    /// Every mount other than `point` is the same in `self` and `other`, and
    /// both hold the same mount points in the same order.
    pub open spec fn same_except(&self, other: &Self, point: Seq<char>) -> bool {
        &&& self@.len() == other@.len()
        &&& forall|i: int| 0 <= i < self@.len() ==> #[trigger] self@[i].0 == other@[i].0
        &&& forall|i: int| 0 <= i < self@.len() && self@[i].0 != point ==> #[trigger] self@[i] == other@[i]
    }

    fn find_mount(&self, point: &str) -> (r: Option<usize>)
        ensures
            match r {
                Some(i) => i < self@.len() && self@[i as int].0 == point@,
                None => !self.is_mounted(point@),
            },
    {
        let mut i: usize = 0;
        while i < self.mounts.len()
            invariant
                i <= self.mounts@.len(),
                self@.len() == self.mounts@.len(),
                forall|k: int| 0 <= k < i ==> self@[k].0 != point@,
            decreases self.mounts@.len() - i,
        {
            if str_eq(self.mounts[i].point.as_str(), point) {
                return Some(i);
            }
            i = i + 1;
        }
        None
    }

    proof fn lemma_fs_at(&self, i: int)
        requires
            self.wf(),
            0 <= i < self@.len(),
        ensures
            self.is_mounted(self@[i].0),
            self.fs_at(self@[i].0) == self@[i].1,
    {
        let p = self@[i].0;
        let c = choose|k: int| 0 <= k < self@.len() && self@[k].0 == p;
        if c != i {
            if c < i {
                assert(self@[c].0 != self@[i].0);
            } else {
                assert(self@[i].0 != self@[c].0);
            }
        }
    }
}

/// Creates an empty mount table.
pub fn vfs_init<F: FileSystem>() -> (r: Vfs<F>)
    ensures
        r@ == Seq::<(Seq<char>, F)>::empty(),
        r.wf(),
{
    let r = Vfs { mounts: Vec::new() };
    assert(r@ =~= Seq::<(Seq<char>, F)>::empty());
    r
}

/// What `vfs_mount(point, fs)` does from `v0` to `v1` with answer `r`.
pub open spec fn mount_outcome<F: FileSystem>(v0: &Vfs<F>, v1: &Vfs<F>, point: Seq<char>, fs: F, r: Result<(), VfsError>) -> bool {
    &&& v0.is_mounted(point) ==> r == Err::<(), VfsError>(VfsError::AlreadyExists) && v1@ == v0@
    &&& !v0.is_mounted(point) ==> r is Ok && v1@ == v0@.push((point, fs))
}

/// What `vfs_unmount(point)` does from `v0` to `v1` with answer `r`.
pub open spec fn unmount_outcome<F: FileSystem>(v0: &Vfs<F>, v1: &Vfs<F>, point: Seq<char>, r: Result<(), VfsError>) -> bool {
    &&& !v0.is_mounted(point) ==> r == Err::<(), VfsError>(VfsError::NotMounted) && v1@ == v0@
    &&& v0.is_mounted(point) ==> r is Ok && !v1.is_mounted(point) && exists|i: int|
        0 <= i < v0@.len() && v0@[i].0 == point && v1@ == v0@.remove(i)
}

/// Mounting `fs` at a point that was free and then unmounting it succeeds
/// and gives back the mount table as it was: the point is free again, so a
/// second unmount or any read under it answers `NotMounted`, and every other
/// mount is unchanged.
pub proof fn law_unmount_undoes_mount<F: FileSystem>(v0: &Vfs<F>, v1: &Vfs<F>, v2: &Vfs<F>, point: Seq<char>, fs: F, r: Result<(), VfsError>)
    requires
        v0.wf(),
        mount_outcome(v0, v1, point, fs, Ok(())),
        unmount_outcome(v1, v2, point, r),
    ensures
        r is Ok,
        v2@ == v0@,
        !v2.is_mounted(point),
        forall|path: Seq<char>|
            #![trigger vfs_read_spec(v2, path)]
            (split_path_spec(path) matches Some((pt, rel)) && pt == point) ==> vfs_read_spec(v2, path)
                == Err::<Seq<u8>, VfsError>(VfsError::NotMounted),
{
    let n = v0@.len() as int;
    assert(v1@[n].0 == point);
    assert(v1.is_mounted(point));
    let i = choose|i: int| 0 <= i < v1@.len() && v1@[i].0 == point && v2@ == v1@.remove(i);
    if i < n {
        assert(v0@[i].0 == point);
    }
    assert(i == n);
    assert(v2@ =~= v0@);
}

/// Mounts `fs` at `point`, refusing a point that is already mounted.
pub fn vfs_mount<F: FileSystem>(vfs: &mut Vfs<F>, point: &str, fs: F) -> (r: Result<(), VfsError>)
    requires
        old(vfs).wf(),
    ensures
        final(vfs).wf(),
        mount_outcome(old(vfs), final(vfs), point@, fs, r),
{
    match vfs.find_mount(point) {
        Some(_) => Err(VfsError::AlreadyExists),
        None => {
            let ghost before = vfs@;
            vfs.mounts.push(MountEntry { point: point.to_owned(), fs });
            assert(vfs@ =~= before.push((point@, fs)));
            Ok(())
        },
    }
}

/// Removes the mount at `point`.
pub fn vfs_unmount<F: FileSystem>(vfs: &mut Vfs<F>, point: &str) -> (r: Result<(), VfsError>)
    requires
        old(vfs).wf(),
    ensures
        final(vfs).wf(),
        unmount_outcome(old(vfs), final(vfs), point@, r),
{
    match vfs.find_mount(point) {
        None => Err(VfsError::NotMounted),
        Some(i) => {
            let ghost before = vfs@;
            let _ = vfs.mounts.remove(i);
            assert(vfs@ =~= before.remove(i as int));
            assert forall|k: int| 0 <= k < vfs@.len() implies vfs@[k].0 != point@ by {
                if k < i {
                    assert(before[k].0 != before[i as int].0);
                } else {
                    assert(before[i as int].0 != before[k + 1].0);
                }
            }
            Ok(())
        },
    }
}

// ---------------------------------------------------------------------------
// Path operations

/// `flags` has `bit` set.
pub open spec fn has_flag(flags: u32, bit: u32) -> bool {
    flags & bit != 0
}

/// The contents a successful `vfs_write` leaves in the file.
pub open spec fn written_contents(flags: u32, data: Seq<u8>, existed: bool, old: Seq<u8>) -> Seq<u8> {
    if has_flag(flags, O_APPEND) && existed && !has_flag(flags, O_TRUNC) {
        old + data
    } else {
        data
    }
}

/// What `vfs_read(path)` answers on `vfs`.
pub open spec fn vfs_read_spec<F: FileSystem>(vfs: &Vfs<F>, path: Seq<char>) -> Result<Seq<u8>, VfsError> {
    match split_path_spec(path) {
        None => Err(VfsError::InvalidPath),
        Some((pt, rel)) => if !vfs.is_mounted(pt) {
            Err(VfsError::NotMounted)
        } else {
            vfs.fs_at(pt).read_spec(rel)
        },
    }
}

/// The outcome of `vfs_read(path)` on `vfs`: the answer of `vfs_read_spec`,
/// and on success the stored contents of the file.
pub open spec fn read_outcome<F: FileSystem>(vfs: &Vfs<F>, path: Seq<char>, r: Result<Vec<u8>, VfsError>) -> bool {
    &&& bytes_result(r) == vfs_read_spec(vfs, path)
    &&& match split_path_spec(path) {
        None => true,
        Some((pt, rel)) => vfs.is_mounted(pt) ==> (r matches Ok(d) ==> vfs.fs_at(pt).files().contains_key(rel)
            && d@ == vfs.fs_at(pt).files()[rel]),
    }
}

/// `fs1` is what a create of `rel` with `data` and `mode` on `fs0` leaves,
/// as far as the file system's `create` states it.
pub open spec fn created_from<F: FileSystem>(fs0: F, fs1: F, rel: Seq<char>, data: Seq<u8>, mode: u32) -> bool {
    &&& fs0.create_spec(rel, data, mode) is Ok
    &&& fs1.files() == fs0.files().insert(rel, data)
    &&& fs1.read_spec(rel) == Ok::<Seq<u8>, VfsError>(data)
    &&& fs1.stat_spec(rel) == Ok::<FileStat, VfsError>(FileStat { size: data.len() as u64, kind: NodeKind::File, mode })
}

/// `fs1` is the file system an open hands on: `fs0` itself for a file that
/// was there, and `fs0` after creating the file empty otherwise.
pub open spec fn handed_on<F: FileSystem>(fs0: F, fs1: F, present: bool, rel: Seq<char>, mode: u32) -> bool {
    if present {
        fs1 == fs0
    } else {
        created_from(fs0, fs1, rel, Seq::empty(), mode)
    }
}

/// The answer of an open that got past its checks, given the answer `w` of
/// the truncating write (`Ok` when there was none): the node of `pt` and
/// `rel` opened with `flags`, or the write's error.
pub open spec fn open_answer(r: Result<VfsNode, VfsError>, pt: Seq<char>, rel: Seq<char>, flags: u32, w: Result<(), VfsError>) -> bool {
    match w {
        Ok(_) => r matches Ok(node) && node.point() == pt && node.rel() == rel && node.flags() == flags,
        Err(e) => fails_with(r, e),
    }
}

/// The outcome of `vfs_write(path, data, flags, mode)` from `v0` to `v1`.
pub open spec fn write_outcome<F: FileSystem>(
    v0: &Vfs<F>,
    v1: &Vfs<F>,
    path: Seq<char>,
    data: Seq<u8>,
    flags: u32,
    mode: u32,
    r: Result<(), VfsError>,
) -> bool {
    match split_path_spec(path) {
        None => r == Err::<(), VfsError>(VfsError::InvalidPath) && v1@ == v0@,
        Some((pt, rel)) => if !v0.is_mounted(pt) {
            r == Err::<(), VfsError>(VfsError::NotMounted) && v1@ == v0@
        } else {
            let fs0 = v0.fs_at(pt);
            let present = fs0.stat_spec(rel) is Ok;
            let created = has_flag(flags, O_CREAT) && !present;
            &&& v1.same_except(v0, pt)
            &&& v1.is_mounted(pt)
            &&& (has_flag(flags, O_EXCL) && has_flag(flags, O_CREAT) && present) ==> r == Err::<(), VfsError>(VfsError::AlreadyExists) && v1@ == v0@
            &&& (!has_flag(flags, O_CREAT) && !present) ==> r == Err::<(), VfsError>(VfsError::NotFound) && v1@ == v0@
            &&& (created && fs0.create_spec(rel, Seq::empty(), mode) is Err) ==> r == fs0.create_spec(
                rel,
                Seq::empty(),
                mode,
            )
            &&& (flags & 3 == O_RDONLY) ==> r is Err
            &&& (flags & 3 == O_RDONLY && present && !(has_flag(flags, O_EXCL) && has_flag(flags, O_CREAT)))
                ==> r == Err::<(), VfsError>(VfsError::PermissionDenied) && v1@ == v0@
            &&& (flags & 3 == O_RDONLY && created && fs0.create_spec(rel, Seq::empty(), mode) is Ok) ==> r
                == Err::<(), VfsError>(VfsError::PermissionDenied) && v1.fs_at(pt).files() == fs0.files().insert(
                rel,
                Seq::empty(),
            ) && reads_back(v1.fs_at(pt), rel, Seq::empty())
            &&& (flags & 3 != O_RDONLY && present && !(has_flag(flags, O_EXCL) && has_flag(flags, O_CREAT))
                && has_flag(flags, O_APPEND) && fs0.read_spec(rel) is Err) ==> r == Err::<(), VfsError>(
                fs0.read_spec(rel)->Err_0,
            ) && v1@ == v0@
            &&& (!(has_flag(flags, O_EXCL) && has_flag(flags, O_CREAT) && present) && (present || (has_flag(
                flags,
                O_CREAT,
            ) && fs0.create_spec(rel, Seq::empty(), mode) is Ok)) && flags & 3 != O_RDONLY && !(has_flag(
                flags,
                O_APPEND,
            ) && present && fs0.read_spec(rel) is Err)) ==> exists|fs1: F|
                #[trigger] handed_on(fs0, fs1, present, rel, mode) && r == fs1.write_spec(
                    rel,
                    written_contents(flags, data, present, fs0.files()[rel]),
                )
            &&& r is Ok ==> v1.fs_at(pt).files() == fs0.files().insert(
                rel,
                written_contents(flags, data, present, fs0.files()[rel]),
            )
            &&& r is Ok ==> v1.fs_at(pt).read_spec(rel) == Ok::<Seq<u8>, VfsError>(
                written_contents(flags, data, present, fs0.files()[rel]),
            )
        },
    }
}

/// Builds the node handle of a path.
pub struct VfsNode {
    point: String,
    rel: String,
    flags: u32,
}

impl VfsNode {
    pub closed spec fn point(&self) -> Seq<char> {
        self.point@
    }

    pub closed spec fn rel(&self) -> Seq<char> {
        self.rel@
    }

    pub closed spec fn flags(&self) -> u32 {
        self.flags
    }

    /// `point/rel`, the path this node was opened with after its leading
    /// slashes were removed.
    pub open spec fn full_path(&self) -> Seq<char> {
        self.point() + seq!['/'] + self.rel()
    }

    pub fn path(&self) -> (r: String)
        ensures
            r@ == self.full_path(),
    {
        let mut s = self.point.clone();
        let sep = "/";
        proof { reveal_strlit("/"); }
        s.append(sep);
        s.append(self.rel.as_str());
        s
    }

    /// Reads the whole file this node names.
    pub fn read<F: FileSystem>(&self, vfs: &Vfs<F>) -> (r: Result<Vec<u8>, VfsError>)
        requires
            vfs.wf(),
        ensures
            read_outcome(vfs, self.full_path(), r),
    {
        let path = self.path();
        vfs_read(vfs, path.as_str())
    }

    /// Writes `data` to the file this node names, with the flags it was
    /// opened with.
    pub fn write<F: FileSystem>(&self, vfs: &mut Vfs<F>, data: &[u8]) -> (r: Result<(), VfsError>)
        requires
            old(vfs).wf(),
        ensures
            final(vfs).wf(),
            write_outcome(old(vfs), final(vfs), self.full_path(), data@, self.flags(), 0, r),
    {
        let path = self.path();
        vfs_write(vfs, path.as_str(), data, self.flags, 0)
    }

    /// The status of the file this node names.
    pub fn stat<F: FileSystem>(&self, vfs: &Vfs<F>) -> (r: Result<FileStat, VfsError>)
        requires
            vfs.wf(),
        ensures
            r == stat_outcome(vfs, self.full_path()),
    {
        let path = self.path();
        vfs_stat(vfs, path.as_str())
    }
}

/// What `vfs_stat(path)` answers.
pub open spec fn stat_outcome<F: FileSystem>(vfs: &Vfs<F>, path: Seq<char>) -> Result<FileStat, VfsError> {
    match split_path_spec(path) {
        None => Err(VfsError::InvalidPath),
        Some((pt, rel)) => if !vfs.is_mounted(pt) {
            Err(VfsError::NotMounted)
        } else {
            vfs.fs_at(pt).stat_spec(rel)
        },
    }
}

/// Opens `path`: creates it if `O_CREAT` is given and it does not exist,
/// refuses an existing one under `O_CREAT | O_EXCL`, and empties it under
/// `O_TRUNC`.
pub fn vfs_open_node<F: FileSystem>(vfs: &mut Vfs<F>, path: &str, flags: u32, mode: u32) -> (r: Result<VfsNode, VfsError>)
    requires
        old(vfs).wf(),
    ensures
        final(vfs).wf(),
        match split_path_spec(path@) {
            None => fails_with(r, VfsError::InvalidPath) && final(vfs)@ == old(vfs)@,
            Some((pt, rel)) => if !old(vfs).is_mounted(pt) {
                fails_with(r, VfsError::NotMounted) && final(vfs)@ == old(vfs)@
            } else {
                let fs0 = old(vfs).fs_at(pt);
                let present = fs0.stat_spec(rel) is Ok;
                &&& final(vfs).same_except(old(vfs), pt)
                &&& final(vfs).is_mounted(pt)
                &&& (has_flag(flags, O_EXCL) && has_flag(flags, O_CREAT) && present) ==> fails_with(r, VfsError::AlreadyExists) && final(vfs)@ == old(vfs)@
                &&& (!has_flag(flags, O_CREAT) && !present) ==> fails_with(r, VfsError::NotFound)
                    && final(vfs)@ == old(vfs)@
                &&& (has_flag(flags, O_CREAT) && !present && fs0.create_spec(rel, Seq::empty(), mode) is Err)
                    ==> fails_with(r, fs0.create_spec(rel, Seq::empty(), mode)->Err_0)
                &&& (!(has_flag(flags, O_EXCL) && has_flag(flags, O_CREAT) && present) && (present || (has_flag(
                    flags,
                    O_CREAT,
                ) && fs0.create_spec(rel, Seq::empty(), mode) is Ok))) ==> exists|fs1: F|
                    #[trigger] handed_on(fs0, fs1, present, rel, mode) && open_answer(
                        r,
                        pt,
                        rel,
                        flags,
                        if has_flag(flags, O_TRUNC) {
                            fs1.write_spec(rel, Seq::empty())
                        } else {
                            Ok(())
                        },
                    )
                &&& r matches Ok(node) ==> {
                    &&& node.point() == pt
                    &&& node.rel() == rel
                    &&& node.flags() == flags
                    &&& final(vfs).fs_at(pt).files() == if (!present) || has_flag(flags, O_TRUNC) {
                        fs0.files().insert(rel, Seq::empty())
                    } else {
                        fs0.files()
                    }
                    &&& (present && !has_flag(flags, O_TRUNC)) ==> final(vfs)@ == old(vfs)@
                    &&& (!present || has_flag(flags, O_TRUNC)) ==> reads_back(final(vfs).fs_at(pt), rel, Seq::empty())
                }
            },
        },
{
    let (point, rel) = split_path(path)?;
    let idx = match vfs.find_mount(point) {
        Some(i) => i,
        None => {
            return Err(VfsError::NotMounted);
        },
    };
    proof { old(vfs).lemma_fs_at(idx as int); }
    let ghost v0 = *vfs;
    let ghost files0 = v0.fs_at(point@).files();
    let present = vfs.mounts[idx].fs.stat(rel).is_ok();
    let ghost fs0 = v0.fs_at(point@);
    let ghost mut fs1 = fs0;
    if flags & O_EXCL != 0 && flags & O_CREAT != 0 && present {
        return Err(VfsError::AlreadyExists);
    }
    if flags & O_CREAT != 0 && !present {
        let empty: [u8; 0] = [];
        assert(empty@ =~= Seq::<u8>::empty());
        let res = vfs.mounts[idx].fs.create(rel, &empty, mode);
        proof { v0.lemma_same_except_after_update(vfs, idx as int); vfs.lemma_fs_at(idx as int); }
        if res.is_err() {
            return Err(res.unwrap_err());
        }
        proof { fs1 = vfs.mounts@[idx as int].fs; }
        assert(vfs.mounts@[idx as int].fs.files() == files0.insert(rel@, Seq::empty()));
        assert(vfs.fs_at(point@).read_spec(rel@) == Ok::<Seq<u8>, VfsError>(Seq::empty()));
    } else if !present {
        return Err(VfsError::NotFound);
    }
    assert(handed_on(fs0, fs1, present, rel@, mode));
    assert(vfs.mounts@[idx as int].fs == fs1);
    let ghost v1 = *vfs;
    if flags & O_TRUNC != 0 {
        let empty: [u8; 0] = [];
        assert(empty@ =~= Seq::<u8>::empty());
        let ghost before = vfs.mounts@[idx as int].fs.files();
        let res = vfs.mounts[idx].fs.write(rel, &empty);
        proof { v0.lemma_same_except_after_update(vfs, idx as int); vfs.lemma_fs_at(idx as int); }
        assert(res == fs1.write_spec(rel@, Seq::empty()));
        if res.is_err() {
            return Err(res.unwrap_err());
        }
        assert(vfs.mounts@[idx as int].fs.files() =~= files0.insert(rel@, Seq::empty()));
        assert(vfs.fs_at(point@).read_spec(rel@) == Ok::<Seq<u8>, VfsError>(Seq::empty()));
    }
    proof {
        if present && flags & O_TRUNC == 0 {
            assert(vfs@ =~= v0@);
        } else {
            assert(vfs.fs_at(point@).files() =~= files0.insert(rel@, Seq::empty()));
            assert(reads_back(vfs.fs_at(point@), rel@, Seq::empty()));
        }
    }
    Ok(VfsNode { point: point.to_owned(), rel: rel.to_owned(), flags })
}

/// The outcome of `vfs_create(path, data, mode)` from `v0` to `v1`.
pub open spec fn create_outcome<F: FileSystem>(
    v0: &Vfs<F>,
    v1: &Vfs<F>,
    path: Seq<char>,
    data: Seq<u8>,
    mode: u32,
    r: Result<(), VfsError>,
) -> bool {
    match split_path_spec(path) {
        None => r == Err::<(), VfsError>(VfsError::InvalidPath) && v1@ == v0@,
        Some((pt, rel)) => if !v0.is_mounted(pt) {
            r == Err::<(), VfsError>(VfsError::NotMounted) && v1@ == v0@
        } else {
            let fs0 = v0.fs_at(pt);
            &&& v1.same_except(v0, pt)
            &&& v1.is_mounted(pt)
            &&& fs0.stat_spec(rel) is Ok ==> r == Err::<(), VfsError>(VfsError::AlreadyExists) && v1@ == v0@
            &&& fs0.stat_spec(rel) is Err ==> r == fs0.create_spec(rel, data, mode)
            &&& r is Ok ==> v1.fs_at(pt).files() == fs0.files().insert(rel, data)
            &&& r is Ok ==> v1.fs_at(pt).read_spec(rel) == Ok::<Seq<u8>, VfsError>(data)
            &&& r is Ok ==> v1.fs_at(pt).stat_spec(rel) == Ok::<FileStat, VfsError>(
                FileStat { size: data.len() as u64, kind: NodeKind::File, mode },
            )
        },
    }
}

/// Creates the file `path` with contents `data`; refuses an existing path.
pub fn vfs_create<F: FileSystem>(vfs: &mut Vfs<F>, path: &str, data: &[u8], mode: u32) -> (r: Result<(), VfsError>)
    requires
        old(vfs).wf(),
    ensures
        final(vfs).wf(),
        create_outcome(old(vfs), final(vfs), path@, data@, mode, r),
{
    let (point, rel) = split_path(path)?;
    let idx = match vfs.find_mount(point) {
        Some(i) => i,
        None => {
            return Err(VfsError::NotMounted);
        },
    };
    proof { old(vfs).lemma_fs_at(idx as int); }
    let ghost v0 = *vfs;
    if vfs.mounts[idx].fs.stat(rel).is_ok() {
        return Err(VfsError::AlreadyExists);
    }
    let res = vfs.mounts[idx].fs.create(rel, data, mode);
    proof { v0.lemma_same_except_after_update(vfs, idx as int); vfs.lemma_fs_at(idx as int); }
    res
}

/// Reads the whole file `path`.
pub fn vfs_read<F: FileSystem>(vfs: &Vfs<F>, path: &str) -> (r: Result<Vec<u8>, VfsError>)
    requires
        vfs.wf(),
    ensures
        read_outcome(vfs, path@, r),
{
    let (point, rel) = split_path(path)?;
    let idx = match vfs.find_mount(point) {
        Some(i) => i,
        None => {
            return Err(VfsError::NotMounted);
        },
    };
    proof { vfs.lemma_fs_at(idx as int); }
    vfs.mounts[idx].fs.read(rel)
}

/// Writes `data` to `path` under `flags`: `O_CREAT` creates a missing file,
/// `O_EXCL` with it refuses an existing one, a read-only open is refused,
/// `O_APPEND` appends to the old contents unless `O_TRUNC` empties them first,
/// and otherwise the contents are replaced.
pub fn vfs_write<F: FileSystem>(vfs: &mut Vfs<F>, path: &str, data: &[u8], flags: u32, mode: u32) -> (r: Result<(), VfsError>)
    requires
        old(vfs).wf(),
    ensures
        final(vfs).wf(),
        write_outcome(old(vfs), final(vfs), path@, data@, flags, mode, r),
{
    let (point, rel) = split_path(path)?;
    let idx = match vfs.find_mount(point) {
        Some(i) => i,
        None => {
            return Err(VfsError::NotMounted);
        },
    };
    proof { old(vfs).lemma_fs_at(idx as int); vfs.lemma_same_except_refl(point@); }
    let ghost v0 = *vfs;
    let ghost files0 = v0.fs_at(point@).files();
    let present = vfs.mounts[idx].fs.stat(rel).is_ok();
    let ghost fs0 = v0.fs_at(point@);
    let ghost mut fs1 = fs0;
    if flags & O_EXCL != 0 && flags & O_CREAT != 0 && present {
        return Err(VfsError::AlreadyExists);
    }
    if flags & O_CREAT != 0 && !present {
        let empty: [u8; 0] = [];
        assert(empty@ =~= Seq::<u8>::empty());
        let res = vfs.mounts[idx].fs.create(rel, &empty, mode);
        proof { v0.lemma_same_except_after_update(vfs, idx as int); vfs.lemma_fs_at(idx as int); }
        if res.is_err() {
            return Err(res.unwrap_err());
        }
        proof { fs1 = vfs.mounts@[idx as int].fs; }
        assert(vfs.mounts@[idx as int].fs.files() == files0.insert(rel@, Seq::empty()));
        assert(vfs.fs_at(point@).read_spec(rel@) == Ok::<Seq<u8>, VfsError>(Seq::empty()));
    } else if !present {
        return Err(VfsError::NotFound);
    }
    if (flags & 0x3) == O_RDONLY {
        return Err(VfsError::PermissionDenied);
    }
    let ghost v1 = *vfs;
    let mut contents: Vec<u8> = if flags & O_APPEND != 0 && present {
        match vfs.mounts[idx].fs.read(rel) {
            Ok(d) => d,
            Err(e) => {
                return Err(e);
            },
        }
    } else {
        Vec::new()
    };
    if flags & O_TRUNC != 0 {
        contents.clear();
    }
    if flags & O_APPEND != 0 {
        contents.extend_from_slice(data);
    } else {
        contents = vstd::slice::slice_to_vec(data);
    }
    proof {
        assert(contents@ =~= written_contents(flags, data@, present, files0[rel@]));
        assert(vfs.mounts@[idx as int].fs.files() == files0 || vfs.mounts@[idx as int].fs.files() == files0.insert(rel@, Seq::empty()));
    }
    assert(handed_on(fs0, fs1, present, rel@, mode));
    assert(vfs.mounts@[idx as int].fs == fs1);
    let res = vfs.mounts[idx].fs.write(rel, contents.as_slice());
    proof {
        assert(res == fs1.write_spec(rel@, written_contents(flags, data@, present, fs0.files()[rel@])));
        v0.lemma_same_except_after_update(vfs, idx as int);
        vfs.lemma_fs_at(idx as int);
        if res is Ok {
            assert(vfs.fs_at(point@).files() =~= files0.insert(rel@, contents@));
        }
    }
    res
}

/// The status of `path`.
pub fn vfs_stat<F: FileSystem>(vfs: &Vfs<F>, path: &str) -> (r: Result<FileStat, VfsError>)
    requires
        vfs.wf(),
    ensures
        r == stat_outcome(vfs, path@),
{
    let (point, rel) = split_path(path)?;
    let idx = match vfs.find_mount(point) {
        Some(i) => i,
        None => {
            return Err(VfsError::NotMounted);
        },
    };
    proof { vfs.lemma_fs_at(idx as int); }
    vfs.mounts[idx].fs.stat(rel)
}

/// Whether `vfs_stat(path)` succeeds.
pub fn vfs_file_exists<F: FileSystem>(vfs: &Vfs<F>, path: &str) -> (r: bool)
    requires
        vfs.wf(),
    ensures
        r == stat_outcome(vfs, path@) is Ok,
{
    match vfs_stat(vfs, path) {
        Ok(_) => true,
        Err(_) => false,
    }
}

/// Lists the directory `path` as its file system reports it.
pub fn vfs_readdir<F: FileSystem>(vfs: &Vfs<F>, path: &str) -> (r: Result<Vec<DirEntry>, VfsError>)
    requires
        vfs.wf(),
    ensures
        listing_result(r) == match split_path_spec(path@) {
            None => Err(VfsError::InvalidPath),
            Some((pt, rel)) => if !vfs.is_mounted(pt) {
                Err(VfsError::NotMounted)
            } else {
                vfs.fs_at(pt).readdir_spec(rel)
            },
        },
{
    let (point, rel) = split_path(path)?;
    let idx = match vfs.find_mount(point) {
        Some(i) => i,
        None => {
            return Err(VfsError::NotMounted);
        },
    };
    proof { vfs.lemma_fs_at(idx as int); }
    vfs.mounts[idx].fs.readdir(rel)
}

impl<F: FileSystem> Vfs<F> {
    proof fn lemma_same_except_refl(&self, point: Seq<char>)
        ensures
            self.same_except(self, point),
    {
    }

    /// After changing only the file system of entry `i`, every other entry is
    /// unchanged and the table is still well formed.
    proof fn lemma_same_except_after_update(&self, other: &Self, i: int)
        requires
            self.wf(),
            0 <= i < self@.len(),
            other.mounts@.len() == self.mounts@.len(),
            forall|k: int| 0 <= k < self.mounts@.len() && k != i ==> other.mounts@[k] == self.mounts@[k],
            other.mounts@[i].point == self.mounts@[i].point,
        ensures
            other.wf(),
            other.same_except(self, self@[i].0),
            other.same_except(self, self@[i].0) ==> self.same_except(other, self@[i].0),
    {
        assert forall|k: int| 0 <= k < self@.len() && self@[k].0 != self@[i].0 implies other@[k] == self@[k] by {
        }
    }
}

/// After a successful write of `data` to a path, reading the path succeeds
/// and gives back the written contents (the data, or the old contents
/// followed by the data for an append to an existing file).
pub proof fn law_read_after_write<F: FileSystem>(
    v0: &Vfs<F>,
    v1: &Vfs<F>,
    path: Seq<char>,
    data: Seq<u8>,
    flags: u32,
    mode: u32,
)
    requires
        write_outcome(v0, v1, path, data, flags, mode, Ok(())),
    ensures
        split_path_spec(path) matches Some((pt, rel)) && vfs_read_spec(v1, path) == Ok::<Seq<u8>, VfsError>(
            written_contents(flags, data, v0.fs_at(pt).stat_spec(rel) is Ok, v0.fs_at(pt).files()[rel]),
        ),
{
}

/// After a successful create of `path` with `data`, reading the path gives
/// back `data` and its status is a file of that size with the given mode.
pub proof fn law_read_after_create<F: FileSystem>(
    v0: &Vfs<F>,
    v1: &Vfs<F>,
    path: Seq<char>,
    data: Seq<u8>,
    mode: u32,
)
    requires
        create_outcome(v0, v1, path, data, mode, Ok(())),
    ensures
        vfs_read_spec(v1, path) == Ok::<Seq<u8>, VfsError>(data),
        stat_outcome(v1, path) == Ok::<FileStat, VfsError>(
            FileStat { size: data.len() as u64, kind: NodeKind::File, mode },
        ),
{
}

/// A write that succeeds leaves the other mounted file systems as they
/// were.
pub proof fn law_write_touches_one_mount<F: FileSystem>(
    v0: &Vfs<F>,
    v1: &Vfs<F>,
    path: Seq<char>,
    data: Seq<u8>,
    flags: u32,
    mode: u32,
    other: Seq<char>,
)
    requires
        write_outcome(v0, v1, path, data, flags, mode, Ok(())),
        v0.wf(),
        split_path_spec(path) matches Some((pt, rel)) && other != pt,
        v0.is_mounted(other),
    ensures
        v1.is_mounted(other),
        v1.fs_at(other) == v0.fs_at(other),
{
    let i = choose|i: int| 0 <= i < v0@.len() && v0@[i].0 == other;
    assert(v1@[i].0 == other);
    let j = choose|j: int| 0 <= j < v1@.len() && v1@[j].0 == other;
    assert(v0@[j].0 == other);
    assert(i == j);
}

} // verus!
