use caledfsw1tch::check::{check_arg_count, check_paths, ArgsCheck, PathCheck, ERROR_EXIT};
use caledfsw1tch::cipher::{decode, encode};
use caledfsw1tch::file::get_new_file_handle;
use caledfsw1tch::fs::FS;
use caledfsw1tch::ops::read_reply;
use caledfsw1tch::path::get_entry_path;
use caledfsw1tch::setattr::change_file_attr;
use caledfsw1tch::{FileType, Timespec};

fn s(x: &str) -> String {
    x.to_string()
}

/// root (1) holds dir "a" (2) and file "top" (3); "a" holds file "b" (4).
fn sample() -> FS {
    let mut fs = FS::set_root_dir(4096, s("root"), s("/data/root"));
    let a = fs.add_info_entry(1, FileType::Directory, 64, s("a"), s("/data/root/a"));
    let top = fs.add_info_entry(1, FileType::RegularFile, 10, s("top"), s("/data/root/top"));
    let b = fs.add_info_entry(a, FileType::RegularFile, 3, s("b"), s("/data/root/a/b"));
    assert_eq!((a, top, b), (2, 3, 4));
    fs.set_source_path(s("/src"));
    fs
}

#[test]
fn encode_shifts_each_byte_up() {
    assert_eq!(encode(&[0, 1, 65, 254, 255]), vec![1, 2, 66, 255, 0]);
    assert_eq!(encode(&[]), Vec::<u8>::new());
}

#[test]
fn decode_shifts_each_byte_down() {
    assert_eq!(decode(&[1, 2, 66, 255, 0]), vec![0, 1, 65, 254, 255]);
}

#[test]
fn decode_undoes_encode() {
    let data: Vec<u8> = (0..=255u8).collect();
    assert_eq!(decode(&encode(&data)), data);
    assert_eq!(encode(&decode(&data)), data);
}

#[test]
fn read_reply_decodes_from_offset() {
    let stored = encode(b"hello");
    assert_eq!(read_reply(&stored, 0), b"hello".to_vec());
    assert_eq!(read_reply(&stored, 2), b"llo".to_vec());
    assert_eq!(read_reply(&stored, 5), Vec::<u8>::new());
}

#[test]
fn root_directory_attributes() {
    let fs = FS::set_root_dir(4096, s("root"), s("/data/root"));
    let a = fs.getattr(1).unwrap();
    assert_eq!(a.ino, 1);
    assert_eq!(a.size, 4096);
    assert_eq!(a.blocks, 1);
    assert_eq!(a.kind, FileType::Directory);
    assert_eq!(a.perm, 0o777);
    assert_eq!((a.uid, a.gid, a.nlink, a.rdev, a.flags), (501, 20, 0, 0, 0));
    assert_eq!(a.atime, Timespec { sec: 0, nsec: 0 });
    assert_eq!(fs.next_inode, 1);
}

#[test]
fn scanned_entries_get_consecutive_inodes() {
    let fs = sample();
    let b = fs.getattr(4).unwrap();
    assert_eq!(b.size, 3);
    assert_eq!(b.perm, 0o755);
    assert_eq!(b.kind, FileType::RegularFile);
    assert_eq!(fs.next_inode, 4);
    assert!(fs.getattr(5).is_none());
}

#[test]
fn lookup_finds_by_parent_and_name() {
    let fs = sample();
    assert_eq!(fs.lookup(1, &s("a")).unwrap().ino, 2);
    assert_eq!(fs.lookup(2, &s("b")).unwrap().ino, 4);
    assert!(fs.lookup(1, &s("b")).is_none());
    assert!(fs.lookup(2, &s("a")).is_none());
}

#[test]
fn entry_paths_follow_parents() {
    let fs = sample();
    let mut p = s("/src");
    get_entry_path(&fs, &mut p, 2, &s("x"));
    assert_eq!(p, "/src/a/x");
    let mut p = s("/src");
    get_entry_path(&fs, &mut p, 1, &s("x"));
    assert_eq!(p, "/src/x");
    let mut p = s("/src");
    get_entry_path(&fs, &mut p, 0, &s("x"));
    assert_eq!(p, "/src/x");
    let mut p = s("/src");
    get_entry_path(&fs, &mut p, 99, &s("x"));
    assert_eq!(p, "/src");
}

#[test]
fn open_gives_least_free_handles() {
    let mut fs = sample();
    assert_eq!(get_new_file_handle(&mut fs, 4), 1);
    assert_eq!(fs.handles[0].path, "/src/a/b");
    assert_eq!(get_new_file_handle(&mut fs, 3), 2);
    assert_eq!(fs.handles[1].path, "/src/top");
    assert_eq!(fs.open(4), Some(3));
    fs.release(2);
    assert_eq!(fs.handles.len(), 2);
    assert_eq!(fs.open(3), Some(2));
    assert_eq!(fs.get_new_handle(), 4);
}

#[test]
fn open_unknown_inode_fails() {
    let mut fs = sample();
    assert_eq!(get_new_file_handle(&mut fs, 42), 0);
    assert_eq!(fs.open(42), None);
    assert!(fs.handles.is_empty());
}

#[test]
fn release_after_open_restores_handles() {
    let mut fs = sample();
    fs.open(2).unwrap();
    let h = fs.open(4).unwrap();
    fs.release(h);
    assert_eq!(fs.handles.len(), 1);
    assert_eq!(fs.handles[0].handle, 1);
    fs.release(77);
    assert_eq!(fs.handles.len(), 1);
}

#[test]
fn change_file_attr_updates_requested_fields() {
    let mut fs = sample();
    let t = Timespec { sec: 7, nsec: 9 };
    let n = change_file_attr(
        &mut fs,
        3,
        Some(0x1_01ed),
        Some(1000),
        None,
        Some(99),
        None,
        Some(t),
        Some(123),
        None,
        Some(Timespec { sec: 5, nsec: 0 }),
        None,
        Some(2),
    );
    assert_eq!(n, 2);
    let a = fs.getattr(3).unwrap();
    assert_eq!(a.perm, 0o755);
    assert_eq!(a.uid, 1000);
    assert_eq!(a.gid, 20);
    assert_eq!(a.size, 99);
    assert_eq!(a.mtime, t);
    assert_eq!(a.ctime, Timespec { sec: 5, nsec: 0 });
    assert_eq!(a.atime, Timespec { sec: 0, nsec: 0 });
    assert_eq!(a.flags, 2);
    assert_eq!(a.ino, 3);
}

#[test]
fn change_file_attr_unknown_inode() {
    let mut fs = sample();
    let n = change_file_attr(&mut fs, 9, Some(1), None, None, None, None, None, None, None, None, None, None);
    assert_eq!(n, -1);
}

#[test]
fn setattr_reports_new_attributes() {
    let mut fs = sample();
    let a = fs
        .setattr(4, None, None, Some(7), Some(1), None, None, None, None, None, None, None)
        .unwrap();
    assert_eq!((a.gid, a.size, a.ino), (7, 1, 4));
    assert_eq!(fs.getattr(4).unwrap().gid, 7);
    assert!(fs.setattr(8, None, None, Some(7), None, None, None, None, None, None, None, None).is_none());
}

#[test]
fn mknod_records_a_regular_file() {
    let mut fs = sample();
    let (ino, path) = fs.begin_create(2, &s("new"));
    assert_eq!(ino, 5);
    assert_eq!(path, "/src/a/new");
    let a = fs.mknod(ino, 2, s("new"), path, 0o100644, 0).unwrap();
    assert_eq!(a.kind, FileType::RegularFile);
    assert_eq!((a.size, a.blocks, a.perm), (0, 1, 0o100644));
    assert_eq!(fs.lookup(2, &s("new")).unwrap().ino, 5);
    assert_eq!(fs.getattr(5).unwrap().ino, 5);
}

#[test]
fn mkdir_records_a_directory() {
    let mut fs = sample();
    let (ino, path) = fs.begin_create(1, &s("d"));
    assert_eq!(path, "/src/d");
    let a = fs.mkdir(ino, 1, s("d"), path, 0o40755).unwrap();
    assert_eq!(a.kind, FileType::Directory);
    assert_eq!((a.size, a.blocks, a.perm, a.rdev), (64, 2, 0o40755, 0));
}

#[test]
fn creation_in_missing_directory_gets_source_path() {
    let mut fs = sample();
    let (ino, path) = fs.begin_create(50, &s("x"));
    assert_eq!(ino, 5);
    assert_eq!(path, "/src");
    assert!(fs.mknod(ino, 50, s("x"), path, 0o644, 0).is_none());
}

#[test]
fn stale_creation_is_not_recorded() {
    let mut fs = sample();
    let (ino, path) = fs.begin_create(1, &s("x"));
    assert!(fs.mknod(ino, 1, s("x"), path.clone(), 0o644, 0).is_some());
    assert!(fs.mknod(ino, 1, s("y"), path, 0o644, 0).is_none());
    assert_eq!(fs.entries.len(), 5);
}

#[test]
fn readdir_lists_children_with_offsets() {
    let fs = sample();
    let l = fs.readdir(1, 0).unwrap();
    assert_eq!(l.len(), 2);
    assert_eq!((l[0].ino, l[0].offset, l[0].kind), (2, 1, FileType::Directory));
    assert_eq!(l[0].name, "a");
    assert_eq!((l[1].ino, l[1].offset), (3, 2));
    let l = fs.readdir(1, 1).unwrap();
    assert_eq!(l.len(), 1);
    assert_eq!((l[0].ino, l[0].offset), (3, 2));
    assert!(fs.readdir(1, 2).unwrap().is_empty());
    assert!(fs.readdir(1, -1).unwrap().is_empty());
    assert!(fs.readdir(4, 0).is_none());
}

#[test]
fn plan_write_encodes_for_open_file() {
    let mut fs = sample();
    let h = fs.open(4).unwrap();
    let p = fs.plan_write(h, b"AB").unwrap();
    assert_eq!(p.data, vec![b'B', b'C']);
    assert_eq!(p.path, "/src/a/b");
    assert_eq!(p.written, 2);
    assert!(fs.plan_write(h + 1, b"AB").is_none());
}

#[test]
fn read_path_of_entry() {
    let fs = sample();
    assert_eq!(fs.read_path(4), Some(s("/data/root/a/b")));
    assert_eq!(fs.read_path(8), None);
}

#[test]
fn argument_checks() {
    assert_eq!(check_arg_count(3, false), ArgsCheck::Proceed);
    assert_eq!(check_arg_count(2, true), ArgsCheck::Help);
    assert_eq!(check_arg_count(2, false), ArgsCheck::Usage);
    assert_eq!(check_arg_count(1, false), ArgsCheck::Usage);
    assert_eq!(check_arg_count(4, true), ArgsCheck::Usage);
    assert_eq!(ERROR_EXIT, 84);
}

#[test]
fn path_checks() {
    assert_eq!(check_paths(None, Some(true)), PathCheck::MountUnreadable);
    assert_eq!(check_paths(Some(false), None), PathCheck::MountNotDir);
    assert_eq!(check_paths(Some(true), None), PathCheck::CreateSource);
    assert_eq!(check_paths(Some(true), Some(false)), PathCheck::SourceNotDir);
    assert_eq!(check_paths(Some(true), Some(true)), PathCheck::Ready);
}

#[test]
fn failed_creation_still_uses_up_its_inode() {
    let mut fs = sample();
    let (first, _) = fs.begin_create(1, &s("gone"));
    let (second, path) = fs.begin_create(1, &s("kept"));
    assert_eq!((first, second), (5, 6));
    let a = fs.mknod(second, 1, s("kept"), path, 0o644, 0).unwrap();
    assert_eq!(a.ino, 6);
    assert!(fs.getattr(5).is_none());
    assert!(fs.lookup(1, &s("gone")).is_none());
}

#[test]
fn open_root_uses_its_own_name() {
    let mut fs = sample();
    let h = fs.open(1).unwrap();
    assert_eq!(h, 1);
    assert_eq!(fs.handles[0].path, "/src/root");
}
