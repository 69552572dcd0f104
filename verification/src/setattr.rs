use vstd::prelude::*;

use crate::attr::{FileAttr, Timespec};
use crate::fs::{has_ino, ino_index, lemma_ino_unique, FileInfo, FileInfoView, FsView, FS};

verus! {

/// The attributes `a` after a change request: every field that the request
/// names takes the requested value (the mode cut to its low 16 bits, the
/// change time into `ctime`); the others keep theirs.
pub open spec fn apply_setattr(
    a: FileAttr,
    mode: Option<u32>,
    uid: Option<u32>,
    gid: Option<u32>,
    size: Option<u64>,
    atime: Option<Timespec>,
    mtime: Option<Timespec>,
    crtime: Option<Timespec>,
    chgtime: Option<Timespec>,
    flags: Option<u32>,
) -> FileAttr {
    FileAttr {
        perm: match mode {
            Some(t) => t as u16,
            None => a.perm,
        },
        uid: match uid {
            Some(t) => t,
            None => a.uid,
        },
        gid: match gid {
            Some(t) => t,
            None => a.gid,
        },
        size: match size {
            Some(t) => t,
            None => a.size,
        },
        atime: match atime {
            Some(t) => t,
            None => a.atime,
        },
        mtime: match mtime {
            Some(t) => t,
            None => a.mtime,
        },
        crtime: match crtime {
            Some(t) => t,
            None => a.crtime,
        },
        ctime: match chgtime {
            Some(t) => t,
            None => a.ctime,
        },
        flags: match flags {
            Some(t) => t,
            None => a.flags,
        },
        ..a
    }
}

/// The state after a change of attributes of the entry with inode `inode`,
/// and the position of that entry (as an `i32`), or the state unchanged and
/// -1 when no entry has that inode.
pub open spec fn spec_change_file_attr(
    v: FsView,
    inode: u64,
    mode: Option<u32>,
    uid: Option<u32>,
    gid: Option<u32>,
    size: Option<u64>,
    atime: Option<Timespec>,
    mtime: Option<Timespec>,
    crtime: Option<Timespec>,
    chgtime: Option<Timespec>,
    flags: Option<u32>,
) -> (FsView, i32) {
    if has_ino(v.entries, inode) {
        let i = ino_index(v.entries, inode);
        let e = v.entries[i];
        let attr = apply_setattr(
            e.attribute,
            mode,
            uid,
            gid,
            size,
            atime,
            mtime,
            crtime,
            chgtime,
            flags,
        );
        (
            FsView {
                entries: v.entries.update(i, FileInfoView { attribute: attr, ..e }),
                ..v
            },
            i as i32,
        )
    } else {
        (v, -1i32)
    }
}

fn set_value<T: Copy>(current: T, requested: Option<T>) -> (r: T)
    ensures
        r == match requested {
            Some(t) => t,
            None => current,
        },
{
    match requested {
        Some(t) => t,
        None => current,
    }
}

impl FS {
    /// A copy of the first entry whose inode is `inode`, if there is one.
    pub fn set_default(&self, inode: u64) -> (r: Option<FileInfo>)
        requires
            self@.wf(),
        ensures
            match r {
                Some(e) => has_ino(self@.entries, inode) && e@ == self@.entries[ino_index(
                    self@.entries,
                    inode,
                )],
                None => !has_ino(self@.entries, inode),
            },
    {
        match self.find_ino(inode) {
            Some(i) => {
                proof {
                    lemma_ino_unique(self@.entries, inode, i as int);
                }
                let e = &self.entries[i];
                Some(
                    FileInfo {
                        attribute: e.attribute,
                        parent_inode: e.parent_inode,
                        name: e.name.clone(),
                        path: e.path.clone(),
                    },
                )
            },
            None => None,
        }
    }
}

/// Changes the attributes of the entry with inode `inode` as requested (see
/// [`apply_setattr`]; the file handle and backup time are not used) and
/// returns the entry's position in the table, or -1 when no entry has that
/// inode.
pub fn change_file_attr(
    fs: &mut FS,
    inode: u64,
    mode: Option<u32>,
    uid: Option<u32>,
    gid: Option<u32>,
    size: Option<u64>,
    atime: Option<Timespec>,
    mtime: Option<Timespec>,
    _fh: Option<u64>,
    crtime: Option<Timespec>,
    chgtime: Option<Timespec>,
    _bkuptime: Option<Timespec>,
    flags: Option<u32>,
) -> (r: i32)
    requires
        old(fs)@.wf(),
    ensures
        (final(fs)@, r) == spec_change_file_attr(
            old(fs)@,
            inode,
            mode,
            uid,
            gid,
            size,
            atime,
            mtime,
            crtime,
            chgtime,
            flags,
        ),
        final(fs)@.wf(),
{
    let ghost v = fs@;
    let mut new = match fs.set_default(inode) {
        Some(t) => t,
        None => return -1,
    };
    new.attribute.perm = match mode {
        Some(t) => #[verifier::truncate] (t as u16),
        None => new.attribute.perm,
    };
    new.attribute.uid = set_value(new.attribute.uid, uid);
    new.attribute.gid = set_value(new.attribute.gid, gid);
    new.attribute.size = set_value(new.attribute.size, size);
    new.attribute.atime = set_value(new.attribute.atime, atime);
    new.attribute.mtime = set_value(new.attribute.mtime, mtime);
    new.attribute.crtime = set_value(new.attribute.crtime, crtime);
    new.attribute.ctime = set_value(new.attribute.ctime, chgtime);
    new.attribute.flags = set_value(new.attribute.flags, flags);
    let n: usize = fs.entries.len();
    let mut i: usize = 0;
    while i < n
        invariant
            v == fs@,
            v.wf(),
            n == v.entries.len(),
            i <= n,
            forall|j: int| 0 <= j < i ==> v.entries[j].attribute.ino != inode,
        ensures
            i <= n,
            i < n ==> v.entries[i as int].attribute.ino == inode,
            forall|j: int| 0 <= j < i ==> v.entries[j].attribute.ino != inode,
        decreases n - i,
    {
        if fs.entries[i].attribute.ino == inode {
            break;
        }
        i = i + 1;
    }
    if i < n {
        proof {
            lemma_ino_unique(v.entries, inode, i as int);
        }
        fs.entries.set(i, new);
        let ghost attr = apply_setattr(
            v.entries[i as int].attribute,
            mode,
            uid,
            gid,
            size,
            atime,
            mtime,
            crtime,
            chgtime,
            flags,
        );
        assert(fs@.entries =~= v.entries.update(
            i as int,
            FileInfoView { attribute: attr, ..v.entries[i as int] },
        ));
        assert forall|k: int| 0 <= k < fs@.entries.len() implies #[trigger] fs@.entries[k].attribute.ino
            == v.entries[k].attribute.ino && fs@.entries[k].parent_inode == v.entries[k].parent_inode by {}
        assert(fs@.handles == v.handles);
        assert(fs@.wf()) by {
            assert forall|a: int, b: int| 0 <= a < b < fs@.entries.len() implies #[trigger] fs@.entries[a].attribute.ino
                < #[trigger] fs@.entries[b].attribute.ino by {
                assert(fs@.entries[a].attribute.ino == v.entries[a].attribute.ino);
                assert(fs@.entries[b].attribute.ino == v.entries[b].attribute.ino);
            }
            assert forall|a: int| 0 <= a < fs@.entries.len() implies #[trigger] fs@.entries[a].parent_inode
                < fs@.entries[a].attribute.ino by {
                assert(fs@.entries[a].attribute.ino == v.entries[a].attribute.ino);
            }
            assert forall|a: int| 0 <= a < fs@.entries.len() implies #[trigger] fs@.entries[a].attribute.ino
                <= fs@.next_inode by {
                assert(fs@.entries[a].attribute.ino == v.entries[a].attribute.ino);
            }
        }
        return #[verifier::truncate] (i as i32);
    }
    -1
}

} // verus!
