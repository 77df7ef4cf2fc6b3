use eucalypt::elf::{
    elf_input_safe_check, load_elf, page_copy, page_copy_fits, plan_elf_load, ElfLoadError, ElfParseError,
    PageCopy,
};
use eucalypt::fat12::{fat12_layout, read_entry, read_file_data};
use eucalypt::memory::paging::{NO_EXECUTE, PRESENT, USER, WRITABLE};
use eucalypt::ramfs::{mount_ramdisk, RamFs};
use eucalypt::vfs::{
    vfs_create, vfs_file_exists, vfs_init, vfs_mount, vfs_open_node, vfs_read, vfs_readdir, vfs_stat, vfs_unmount,
    vfs_write, FileSystem, NodeKind, Vfs, VfsError, O_APPEND, O_CREAT, O_EXCL, O_RDONLY, O_TRUNC, O_WRONLY,
};

fn mounted() -> Vfs<RamFs> {
    let mut vfs = vfs_init::<RamFs>();
    assert_eq!(vfs_mount(&mut vfs, "ram", RamFs::new()), Ok(()));
    vfs
}

#[test]
fn vfs_write_then_read() {
    let mut vfs = mounted();
    assert_eq!(vfs_write(&mut vfs, "/ram/a.txt", b"hello", O_WRONLY | O_CREAT, 0o644), Ok(()));
    assert_eq!(vfs_read(&vfs, "/ram/a.txt").unwrap(), b"hello".to_vec());
    assert_eq!(vfs_write(&mut vfs, "ram/a.txt", b" world", O_WRONLY | O_APPEND, 0), Ok(()));
    assert_eq!(vfs_read(&vfs, "ram/a.txt").unwrap(), b"hello world".to_vec());
    assert_eq!(vfs_write(&mut vfs, "ram/a.txt", b"bye", O_WRONLY | O_TRUNC | O_APPEND, 0), Ok(()));
    assert_eq!(vfs_read(&vfs, "ram/a.txt").unwrap(), b"bye".to_vec());
    assert_eq!(vfs_write(&mut vfs, "ram/a.txt", b"x", O_WRONLY, 0), Ok(()));
    assert_eq!(vfs_read(&vfs, "ram/a.txt").unwrap(), b"x".to_vec());
}

#[test]
fn vfs_write_errors() {
    let mut vfs = mounted();
    assert_eq!(vfs_write(&mut vfs, "ram/missing", b"x", O_WRONLY, 0), Err(VfsError::NotFound));
    assert_eq!(vfs_write(&mut vfs, "nowhere/f", b"x", O_WRONLY | O_CREAT, 0), Err(VfsError::NotMounted));
    assert_eq!(vfs_write(&mut vfs, "noslash", b"x", O_WRONLY | O_CREAT, 0), Err(VfsError::InvalidPath));
    assert_eq!(vfs_write(&mut vfs, "ram/", b"x", O_WRONLY | O_CREAT, 0), Err(VfsError::InvalidPath));
    assert_eq!(vfs_create(&mut vfs, "ram/f", b"1", 0o644), Ok(()));
    assert_eq!(vfs_create(&mut vfs, "ram/f", b"2", 0o644), Err(VfsError::AlreadyExists));
    assert_eq!(vfs_write(&mut vfs, "ram/f", b"x", O_WRONLY | O_CREAT | O_EXCL, 0), Err(VfsError::AlreadyExists));
    assert_eq!(vfs_write(&mut vfs, "ram/f", b"x", O_RDONLY, 0), Err(VfsError::PermissionDenied));
    assert_eq!(vfs_read(&vfs, "ram/f").unwrap(), b"1".to_vec());
}

#[test]
fn vfs_stat_and_exists() {
    let mut vfs = mounted();
    assert_eq!(vfs_create(&mut vfs, "ram/f", b"abc", 0o600), Ok(()));
    let st = vfs_stat(&vfs, "ram/f").unwrap();
    assert_eq!(st.size, 3);
    assert_eq!(st.kind, NodeKind::File);
    assert_eq!(st.mode, 0o600);
    assert!(vfs_file_exists(&vfs, "ram/f"));
    assert!(!vfs_file_exists(&vfs, "ram/g"));
    assert_eq!(vfs_stat(&vfs, "ram/g"), Err(VfsError::NotFound));
}

#[test]
fn vfs_mount_and_unmount() {
    let mut vfs = mounted();
    assert_eq!(vfs_mount(&mut vfs, "ram", RamFs::new()), Err(VfsError::AlreadyExists));
    assert_eq!(vfs_mount(&mut vfs, "tmp", RamFs::new()), Ok(()));
    assert_eq!(vfs_create(&mut vfs, "tmp/x", b"t", 0), Ok(()));
    assert_eq!(vfs_unmount(&mut vfs, "tmp"), Ok(()));
    assert_eq!(vfs_read(&vfs, "tmp/x"), Err(VfsError::NotMounted));
    assert_eq!(vfs_unmount(&mut vfs, "tmp"), Err(VfsError::NotMounted));
}

#[test]
fn vfs_open_node_creates_and_truncates() {
    let mut vfs = mounted();
    let node = vfs_open_node(&mut vfs, "ram/n", O_WRONLY | O_CREAT, 0o644).unwrap();
    assert_eq!(node.path(), "ram/n".to_string());
    assert_eq!(vfs_read(&vfs, "ram/n").unwrap(), Vec::<u8>::new());
    assert_eq!(node.write(&mut vfs, b"data"), Ok(()));
    assert_eq!(node.read(&vfs).unwrap(), b"data".to_vec());
    assert_eq!(node.stat(&vfs).unwrap().size, 4);
    let _ = vfs_open_node(&mut vfs, "ram/n", O_WRONLY | O_TRUNC, 0).unwrap();
    assert_eq!(vfs_read(&vfs, "ram/n").unwrap(), Vec::<u8>::new());
    assert!(vfs_open_node(&mut vfs, "ram/m", O_WRONLY, 0).is_err());
}

#[test]
fn vfs_readdir_lists_files_and_dirs() {
    let mut vfs = mounted();
    assert_eq!(vfs_create(&mut vfs, "ram/a", b"12", 0), Ok(()));
    assert_eq!(vfs_create(&mut vfs, "ram/b", b"345", 0), Ok(()));
    let entries = vfs_readdir(&vfs, "ram/.").unwrap();
    let names: Vec<(String, u64)> = entries.iter().map(|e| (e.name.clone(), e.size)).collect();
    assert_eq!(names, vec![("a".to_string(), 2), ("b".to_string(), 3)]);
}

#[test]
fn ramfs_operations() {
    let mut fs = RamFs::new();
    assert_eq!(fs.create("x", b"1", 0o644), Ok(()));
    assert_eq!(fs.create("x", b"2", 0o644), Err(VfsError::AlreadyExists));
    assert_eq!(fs.append("x", b"23"), Ok(()));
    assert_eq!(fs.read("x").unwrap(), b"123".to_vec());
    assert_eq!(fs.write("x", b"9"), Ok(()));
    assert_eq!(fs.read("x").unwrap(), b"9".to_vec());
    assert_eq!(fs.rename("x", "y"), Ok(()));
    assert_eq!(fs.read("x"), Err(VfsError::NotFound));
    assert_eq!(fs.read("y").unwrap(), b"9".to_vec());
    assert_eq!(fs.unlink("y"), Ok(()));
    assert_eq!(fs.unlink("y"), Err(VfsError::NotFound));
    assert_eq!(fs.mkdir("d", 0o755), Ok(()));
    assert_eq!(fs.mkdir("d", 0o755), Err(VfsError::AlreadyExists));
    assert_eq!(fs.stat("d").unwrap().kind, NodeKind::Dir);
    assert_eq!(fs.create("d/f", b"z", 0), Ok(()));
    assert_eq!(fs.rmdir("d"), Err(VfsError::NotEmpty));
    assert_eq!(fs.unlink("d/f"), Ok(()));
    assert_eq!(fs.rmdir("d"), Ok(()));
    assert_eq!(fs.rmdir("d"), Err(VfsError::NotFound));
    assert_eq!(fs.stat_fs().fs_type, "ramfs");
}

/// A FAT12 image: one reserved sector, one FAT sector, a one-sector root
/// directory of 16 entries, 512-byte clusters from byte 1536.
fn fat12_image() -> Vec<u8> {
    let mut img = vec![0u8; 3072];
    img[11] = 0x00;
    img[12] = 0x02; // 512 bytes per sector
    img[13] = 1; // sectors per cluster
    img[14] = 1; // reserved sectors
    img[16] = 1; // FATs
    img[17] = 16; // root entries
    img[22] = 1; // sectors per FAT
    // FAT at 512: cluster 2 ends, 3 -> 4, 4 ends
    img[512 + 3] = 0xFF;
    img[512 + 4] = 0x4F;
    img[512 + 5] = 0x00;
    img[512 + 6] = 0xFF;
    img[512 + 7] = 0x0F;
    let entry = |img: &mut Vec<u8>, i: usize, name: &[u8; 11], attr: u8, cluster: u16, size: u32| {
        let off = 1024 + i * 32;
        img[off..off + 11].copy_from_slice(name);
        img[off + 11] = attr;
        img[off + 26..off + 28].copy_from_slice(&cluster.to_le_bytes());
        img[off + 28..off + 32].copy_from_slice(&size.to_le_bytes());
    };
    entry(&mut img, 0, b"HELLO   TXT", 0x20, 2, 5);
    entry(&mut img, 1, b"BIG     BIN", 0x00, 3, 600);
    entry(&mut img, 2, b"EUCALYPT   ", 0x08, 0, 0);
    entry(&mut img, 3, b"DOCS       ", 0x10, 0, 0);
    entry(&mut img, 4, b"\xE5OLD    TXT", 0x20, 2, 5);
    entry(&mut img, 6, b"LATE    TXT", 0x20, 2, 5);
    img[1536..1541].copy_from_slice(b"hello");
    for i in 0..512 {
        img[2048 + i] = (i % 251) as u8;
    }
    for i in 0..88 {
        img[2560 + i] = 0xAB;
    }
    img
}

#[test]
fn fat12_layout_and_chain() {
    let img = fat12_image();
    let l = fat12_layout(&img).unwrap();
    assert_eq!(l.fat_start, 512);
    assert_eq!(l.root_dir_start, 1024);
    assert_eq!(l.data_start, 1536);
    assert_eq!(l.cluster_size, 512);
    let data = read_file_data(&img, &l, 3, 600);
    assert_eq!(data.len(), 600);
    assert_eq!(data[0], 0);
    assert_eq!(data[511], (511 % 251) as u8);
    assert_eq!(data[512], 0xAB);
    assert_eq!(data[599], 0xAB);
    let e = read_entry(&img, 1024);
    assert_eq!(e.get_name(), Some("HELLO.TXT".to_string()));
    assert!(!e.is_directory());
    let d = read_entry(&img, 1024 + 3 * 32);
    assert_eq!(d.get_name(), Some("DOCS".to_string()));
    assert!(d.is_directory());
    assert!(read_entry(&img, 1024 + 2 * 32).is_volume_id());
}

#[test]
fn fat12_rejects_bad_images() {
    assert!(fat12_layout(&[0u8; 100]).is_none());
    let mut img = fat12_image();
    img[12] = 0x04; // 1024-byte sectors
    assert!(fat12_layout(&img).is_none());
    let mut fs = RamFs::new();
    assert_eq!(fs.load_from_fat12(&img), Err(VfsError::IoError));
}

#[test]
fn fat12_loads_root_directory() {
    let img = fat12_image();
    let mut fs = RamFs::new();
    assert_eq!(fs.load_from_fat12(&img), Ok(()));
    assert_eq!(fs.read("HELLO.TXT").unwrap(), b"hello".to_vec());
    assert_eq!(fs.read("BIG.BIN").unwrap().len(), 600);
    assert_eq!(fs.stat("DOCS").unwrap().kind, NodeKind::Dir);
    // the volume label and the deleted entry are skipped, and nothing after
    // the end-of-directory entry is loaded
    assert_eq!(fs.read("EUCALYPT"), Err(VfsError::NotFound));
    assert_eq!(fs.read("LATE.TXT"), Err(VfsError::NotFound));
    assert_eq!(fs.stat("HELLO.TXT").unwrap().mode, 0o644);
}

#[test]
fn fat12_bad_name_fails() {
    let mut img = fat12_image();
    img[1024 + 32 * 5] = 0xFF; // an entry whose name is not UTF-8
    img[1024 + 32 * 5 + 11] = 0x20;
    let mut fs = RamFs::new();
    assert_eq!(fs.load_from_fat12(&img), Err(VfsError::IoError));
    // what came before stays
    assert_eq!(fs.read("HELLO.TXT").unwrap(), b"hello".to_vec());
}

#[test]
fn mount_ramdisk_from_image() {
    let img = fat12_image();
    let mut vfs = vfs_init::<RamFs>();
    assert_eq!(mount_ramdisk(&mut vfs, &img, "ram"), Ok(()));
    assert_eq!(vfs_read(&vfs, "ram/HELLO.TXT").unwrap(), b"hello".to_vec());
    assert_eq!(mount_ramdisk(&mut vfs, &img, "ram"), Err(VfsError::AlreadyExists));
    assert_eq!(mount_ramdisk(&mut vfs, &[0u8; 10], "other"), Err(VfsError::IoError));
}

/// An ELF64 image with one loadable, executable, read-only segment of 16
/// file bytes at 0x401010 taking 0x2000 bytes in memory.
fn elf_image() -> Vec<u8> {
    let mut img = vec![0u8; 144];
    img[0..4].copy_from_slice(&[0x7f, b'E', b'L', b'F']);
    img[4] = 2;
    img[5] = 1;
    img[6] = 1;
    img[24..32].copy_from_slice(&0x401010u64.to_le_bytes());
    img[32..40].copy_from_slice(&64u64.to_le_bytes());
    img[52..54].copy_from_slice(&64u16.to_le_bytes());
    img[54..56].copy_from_slice(&56u16.to_le_bytes());
    img[56..58].copy_from_slice(&1u16.to_le_bytes());
    img[58..60].copy_from_slice(&64u16.to_le_bytes());
    let ph = 64;
    img[ph..ph + 4].copy_from_slice(&1u32.to_le_bytes());
    img[ph + 4..ph + 8].copy_from_slice(&5u32.to_le_bytes());
    img[ph + 8..ph + 16].copy_from_slice(&128u64.to_le_bytes());
    img[ph + 16..ph + 24].copy_from_slice(&0x401010u64.to_le_bytes());
    img[ph + 32..ph + 40].copy_from_slice(&16u64.to_le_bytes());
    img[ph + 40..ph + 48].copy_from_slice(&0x2000u64.to_le_bytes());
    for i in 0..16 {
        img[128 + i] = 0x90;
    }
    img
}

#[test]
fn elf_plan_of_image() {
    let img = elf_image();
    assert!(elf_input_safe_check(&img));
    let plan = plan_elf_load(&img).ok().unwrap();
    assert_eq!(plan.entry, 0x401010);
    assert_eq!(plan.segments.len(), 1);
    let seg = plan.segments[0];
    assert_eq!(seg.virt_base, 0x401000);
    assert_eq!(seg.pages, 3);
    assert_eq!(seg.flags, USER | PRESENT);
    assert_eq!(seg.vaddr, 0x401010);
    assert_eq!(seg.filesz, 16);
    assert_eq!(seg.offset, 128);
    assert!(page_copy_fits(&seg, 0));
    assert_eq!(page_copy(&seg, 0), Some(PageCopy { dest_off: 0x10, src_off: 128, len: 16 }));
    assert_eq!(page_copy(&seg, 1), None);
    assert_eq!(page_copy(&seg, 2), None);
}

#[test]
fn elf_writable_data_segment_flags() {
    let mut img = elf_image();
    img[64 + 4] = 6; // readable and writable, not executable
    let plan = plan_elf_load(&img).ok().unwrap();
    assert_eq!(plan.segments[0].flags, USER | PRESENT | WRITABLE | NO_EXECUTE);
}

#[test]
fn elf_refusals() {
    let img = b"not an elf".to_vec();
    assert!(matches!(plan_elf_load(&img), Err(ElfLoadError::NotElf)));
    let mut short = elf_image();
    short.truncate(40);
    assert!(matches!(plan_elf_load(&short), Err(ElfLoadError::Parse(ElfParseError::Corrupted))));
    let mut class32 = elf_image();
    class32[4] = 1;
    assert!(matches!(plan_elf_load(&class32), Err(ElfLoadError::Parse(ElfParseError::InvalidClass))));
    let mut oob = elf_image();
    oob[64 + 32..64 + 40].copy_from_slice(&100u64.to_le_bytes());
    assert!(matches!(plan_elf_load(&oob), Err(ElfLoadError::SegmentOutOfBounds(128))));
    let mut huge = elf_image();
    huge[32..40].copy_from_slice(&u64::MAX.to_le_bytes());
    assert!(!elf_input_safe_check(&huge));
}

#[test]
fn load_elf_from_vfs() {
    let mut vfs = mounted();
    assert_eq!(vfs_create(&mut vfs, "ram/init", &elf_image(), 0o755), Ok(()));
    let plan = load_elf(&vfs, "ram/init").ok().unwrap();
    assert_eq!(plan.entry, 0x401010);
    assert!(matches!(load_elf(&vfs, "ram/none"), Err(ElfLoadError::NotFound)));
    assert_eq!(vfs_create(&mut vfs, "ram/text", b"plain text", 0), Ok(()));
    assert!(matches!(load_elf(&vfs, "ram/text"), Err(ElfLoadError::NotElf)));
}

#[test]
fn vfs_readonly_create_is_refused_but_creates() {
    let mut vfs = mounted();
    assert_eq!(vfs_write(&mut vfs, "ram/new", b"x", O_RDONLY | O_CREAT, 0o644), Err(VfsError::PermissionDenied));
    assert_eq!(vfs_read(&vfs, "ram/new").unwrap(), Vec::<u8>::new());
}

#[test]
fn vfs_read_after_create_and_truncate() {
    let mut vfs = mounted();
    assert_eq!(vfs_create(&mut vfs, "ram/c", b"contents", 0o640), Ok(()));
    assert_eq!(vfs_read(&vfs, "ram/c").unwrap(), b"contents".to_vec());
    let st = vfs_stat(&vfs, "ram/c").unwrap();
    assert_eq!((st.size, st.kind, st.mode), (8, NodeKind::File, 0o640));
    let _ = vfs_open_node(&mut vfs, "ram/c", O_RDONLY | O_TRUNC, 0).unwrap();
    assert_eq!(vfs_read(&vfs, "ram/c").unwrap(), Vec::<u8>::new());
}

#[test]
fn vfs_readdir_errors_and_subdirectories() {
    let mut vfs = mounted();
    assert_eq!(vfs_readdir(&vfs, "noslash").err(), Some(VfsError::InvalidPath));
    assert_eq!(vfs_readdir(&vfs, "elsewhere/.").err(), Some(VfsError::NotMounted));
    assert_eq!(vfs_create(&mut vfs, "ram/top", b"1", 0), Ok(()));
    let listing = vfs_readdir(&vfs, "ram/.").unwrap();
    assert_eq!(listing.len(), 1);
    assert_eq!((listing[0].name.as_str(), listing[0].kind, listing[0].size), ("top", NodeKind::File, 1));
}

#[test]
fn load_elf_of_three_bytes_is_not_elf() {
    let mut vfs = mounted();
    assert_eq!(vfs_create(&mut vfs, "ram/s", b"\x7fEL", 0o644), Ok(()));
    assert!(matches!(load_elf(&vfs, "ram/s"), Err(ElfLoadError::NotElf)));
}

#[test]
fn vfs_open_existing_keeps_contents() {
    let mut vfs = mounted();
    assert_eq!(vfs_create(&mut vfs, "ram/k", b"keep", 0), Ok(()));
    let node = vfs_open_node(&mut vfs, "ram/k", O_WRONLY, 0).unwrap();
    assert_eq!(node.path(), "ram/k".to_string());
    assert_eq!(vfs_read(&vfs, "ram/k").unwrap(), b"keep".to_vec());
    assert_eq!(vfs_mkdir_then_write(&mut vfs), Err(VfsError::NotFound));
}

/// Writing to a directory's path: it exists, but the file system's write
/// finds no file there.
fn vfs_mkdir_then_write(vfs: &mut Vfs<RamFs>) -> Result<(), VfsError> {
    let mut fs = RamFs::new();
    assert_eq!(fs.mkdir("d", 0o755), Ok(()));
    assert_eq!(vfs_mount(vfs, "dirs", fs), Ok(()));
    vfs_write(vfs, "dirs/d", b"x", O_WRONLY, 0)
}

#[test]
fn vfs_unmount_undoes_mount() {
    let mut vfs = mounted();
    assert_eq!(vfs_mount(&mut vfs, "tmp", RamFs::new()), Ok(()));
    assert_eq!(vfs_unmount(&mut vfs, "tmp"), Ok(()));
    assert_eq!(vfs_unmount(&mut vfs, "tmp"), Err(VfsError::NotMounted));
    assert_eq!(vfs_read(&vfs, "tmp/x"), Err(VfsError::NotMounted));
    assert_eq!(vfs_create(&mut vfs, "ram/still", b"y", 0), Ok(()));
}
