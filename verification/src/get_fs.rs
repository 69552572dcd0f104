use vstd::prelude::*;

use crate::attr::{create_time, spec_create_time, FileAttr, FileType, DEFAULT_GID, DEFAULT_UID};
use crate::fs::{FileInfo, FileInfoView, FsView, FS};

verus! {

/// The permission bits of the root directory.
pub const ROOT_PERM: u16 = 0o777;

/// The permission bits of every entry found by the scan of the source tree.
pub const SCANNED_PERM: u16 = 0o755;

/// The attributes of the root directory, whose size is `size`.
pub open spec fn root_attr(size: u64) -> FileAttr {
    FileAttr {
        ino: 1,
        size,
        blocks: 1,
        atime: spec_create_time(),
        mtime: spec_create_time(),
        ctime: spec_create_time(),
        crtime: spec_create_time(),
        kind: FileType::Directory,
        perm: ROOT_PERM,
        nlink: 0,
        uid: DEFAULT_UID,
        gid: DEFAULT_GID,
        rdev: 0,
        flags: 0,
    }
}

/// The attributes of an entry found by the scan of the source tree.
pub open spec fn scanned_attr(ino: u64, kind: FileType, size: u64) -> FileAttr {
    FileAttr {
        ino,
        size,
        blocks: 1,
        atime: spec_create_time(),
        mtime: spec_create_time(),
        ctime: spec_create_time(),
        crtime: spec_create_time(),
        kind,
        perm: SCANNED_PERM,
        nlink: 0,
        uid: DEFAULT_UID,
        gid: DEFAULT_GID,
        rdev: 0,
        flags: 0,
    }
}

/// The state holding the root directory alone.
pub open spec fn spec_root_state(size: u64, name: Seq<char>, path: Seq<char>) -> FsView {
    FsView {
        entries: seq![FileInfoView { attribute: root_attr(size), parent_inode: 0, name, path }],
        handles: Seq::empty(),
        next_inode: 1,
        src_path: Seq::empty(),
    }
}

/// The state after the scan adds an entry: the next inode number is given
/// to it.
pub open spec fn spec_add_info_entry(
    v: FsView,
    parent_inode: u64,
    kind: FileType,
    size: u64,
    name: Seq<char>,
    path: Seq<char>,
) -> FsView {
    let ino = (v.next_inode + 1) as u64;
    FsView {
        entries: v.entries.push(
            FileInfoView { attribute: scanned_attr(ino, kind, size), parent_inode, name, path },
        ),
        next_inode: ino,
        ..v
    }
}

impl FS {
    /// The filesystem holding only its root directory: inode 1, named `name`,
    /// stored at `path`, of size `size`. No file is open and the source
    /// directory is not set yet.
    pub fn set_root_dir(size: u64, name: String, path: String) -> (r: FS)
        ensures
            r@ == spec_root_state(size, name@, path@),
            r@.wf(),
    {
        let t = create_time();
        let root = FileInfo {
            attribute: FileAttr {
                ino: 1,
                size,
                blocks: 1,
                atime: t,
                mtime: t,
                ctime: t,
                crtime: t,
                kind: FileType::Directory,
                perm: ROOT_PERM,
                nlink: 0,
                uid: DEFAULT_UID,
                gid: DEFAULT_GID,
                rdev: 0,
                flags: 0,
            },
            parent_inode: 0,
            name,
            path,
        };
        let mut entries: Vec<FileInfo> = Vec::new();
        entries.push(root);
        let fs = FS { entries, handles: Vec::new(), next_inode: 1, src_path: String::new() };
        assert(fs@.entries =~= spec_root_state(size, name@, path@).entries);
        assert(fs@.handles =~= Seq::<crate::fs::FileHandleView>::empty());
        fs
    }

    /// Sets the path of the source directory, under which opened files are
    /// found.
    pub fn set_source_path(&mut self, src_path: String)
        ensures
            final(self)@ == (FsView { src_path: src_path@, ..old(self)@ }),
            old(self)@.wf() ==> final(self)@.wf(),
    {
        self.src_path = src_path;
    }

    /// Adds an entry found by the scan of the source tree to the table and
    /// returns its inode, the next number after the last one given out. The
    /// table stays well formed when it was and the parent's number was given
    /// out already.
    pub fn add_info_entry(
        &mut self,
        parent_inode: u64,
        kind: FileType,
        size: u64,
        name: String,
        path: String,
    ) -> (r: u64)
        requires
            old(self).next_inode < u64::MAX,
        ensures
            final(self)@ == spec_add_info_entry(old(self)@, parent_inode, kind, size, name@, path@),
            r == final(self).next_inode,
            old(self)@.wf() && parent_inode <= old(self)@.next_inode ==> final(self)@.wf(),
    {
        let ghost v = self@;
        self.next_inode = self.next_inode + 1;
        let ino: u64 = self.next_inode;
        let t = create_time();
        let info = FileInfo {
            attribute: FileAttr {
                ino,
                size,
                blocks: 1,
                atime: t,
                mtime: t,
                ctime: t,
                crtime: t,
                kind,
                perm: SCANNED_PERM,
                nlink: 0,
                uid: DEFAULT_UID,
                gid: DEFAULT_GID,
                rdev: 0,
                flags: 0,
            },
            parent_inode,
            name,
            path,
        };
        self.entries.push(info);
        assert(self@.entries =~= spec_add_info_entry(v, parent_inode, kind, size, name@, path@).entries);
        proof {
            if v.wf() && parent_inode <= v.next_inode {
                let s = self@.entries;
                assert forall|i: int, j: int| 0 <= i < j < s.len() implies #[trigger] s[i].attribute.ino
                    < #[trigger] s[j].attribute.ino by {
                    if j == s.len() - 1 {
                        assert(v.entries[i].attribute.ino <= v.next_inode);
                    } else {
                        assert(v.entries[i].attribute.ino < v.entries[j].attribute.ino);
                    }
                }
                assert forall|i: int| 0 <= i < s.len() implies #[trigger] s[i].parent_inode
                    < s[i].attribute.ino by {
                    if i < s.len() - 1 {
                        assert(v.entries[i].parent_inode < v.entries[i].attribute.ino);
                    }
                }
                assert forall|i: int| 0 <= i < s.len() implies #[trigger] s[i].attribute.ino
                    <= self@.next_inode by {
                    if i < s.len() - 1 {
                        assert(v.entries[i].attribute.ino <= v.next_inode);
                    }
                }
            }
        }
        ino
    }
}

} // verus!
