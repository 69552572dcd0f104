use vstd::prelude::*;

use crate::attr::{spec_create_time, FileAttr, FileType, Timespec};
use crate::file::{
    handle_index, lemma_handle_unique, spec_open, spec_release,
};
use crate::fs::{
    entry_with_ino, handle_used, has_ino, ino_index, inodes_increasing, lemma_ino_unique,
    FileInfoView, FsView,
};
use crate::laws::lemma_open_handle_fresh;
use crate::ops::{
    children, dir_attr, node_attr, spec_getattr, spec_lookup, spec_readdir, DirEntryView,
    first_child_at,
};
use crate::get_fs::{root_attr, scanned_attr, spec_add_info_entry, spec_root_state};
use crate::ops::spec_begin_create;
use crate::path::entry_path;
use crate::setattr::spec_change_file_attr;

verus! {

/// Releasing a handle that is open takes exactly that handle out of the
/// table, wherever it sits; every other open file keeps its handle and path;
/// releasing a handle that is not open changes nothing.
pub proof fn lemma_release_removes(v: FsView, fh: u64)
    requires
        v.wf(),
    ensures
        ({
            let r = spec_release(v, fh);
            &&& r.entries == v.entries
            &&& r.next_inode == v.next_inode
            &&& r.src_path == v.src_path
            &&& r.wf()
            &&& !handle_used(r.handles, fh)
            &&& handle_used(v.handles, fh) ==> r.handles.len() == v.handles.len() - 1
            &&& !handle_used(v.handles, fh) ==> r == v
            &&& forall|j: int|
                0 <= j < v.handles.len() && v.handles[j].handle != fh ==> r.handles.contains(
                    #[trigger] v.handles[j],
                )
            &&& forall|i: int| 0 <= i < r.handles.len() ==> v.handles.contains(#[trigger] r.handles[i])
        }),
{
    let r = spec_release(v, fh);
    if handle_used(v.handles, fh) {
        let k = handle_index(v.handles, fh);
        assert(0 <= k < v.handles.len() && v.handles[k].handle == fh);
        lemma_handle_unique(v, fh, k);
        let hs = v.handles.remove(k);
        assert(r.handles == hs);
        assert forall|i: int| 0 <= i < hs.len() implies #[trigger] hs[i].handle != fh by {
            let i2 = if i < k { i } else { i + 1 };
            assert(hs[i] == v.handles[i2]);
            assert(i2 != k);
            if i2 < k {
                assert(v.handles[i2].handle != v.handles[k].handle);
            } else {
                assert(v.handles[k].handle != v.handles[i2].handle);
            }
        }
        assert forall|j: int| 0 <= j < v.handles.len() && v.handles[j].handle != fh implies hs.contains(
            #[trigger] v.handles[j],
        ) by {
            if j < k {
                assert(hs[j] == v.handles[j]);
            } else {
                assert(j != k);
                assert(hs[j - 1] == v.handles[j]);
            }
        }
        assert forall|i: int| 0 <= i < hs.len() implies v.handles.contains(#[trigger] hs[i]) by {
            let i2 = if i < k { i } else { i + 1 };
            assert(hs[i] == v.handles[i2]);
        }
        assert forall|a: int, b: int| 0 <= a < b < hs.len() implies #[trigger] hs[a].handle
            != #[trigger] hs[b].handle by {
            let a2 = if a < k { a } else { a + 1 };
            let b2 = if b < k { b } else { b + 1 };
            assert(v.handles[a2].handle != v.handles[b2].handle);
        }
        assert forall|a: int| 0 <= a < hs.len() implies #[trigger] hs[a].handle >= 1 by {
            let a2 = if a < k { a } else { a + 1 };
            assert(v.handles[a2].handle >= 1);
        }
    } else {
        assert forall|j: int| 0 <= j < v.handles.len() && v.handles[j].handle != fh implies v.handles.contains(
            #[trigger] v.handles[j],
        ) by {}
        assert forall|i: int| 0 <= i < v.handles.len() implies v.handles.contains(#[trigger] v.handles[i]) by {}
    }
}

/// Opening an entry of the table adds one open file: its handle is positive,
/// was not in use, and every smaller positive number is in use; its path is
/// the source directory followed by the entry's path below it; every file
/// already open stays as it was. Opening an inode that the table does not
/// hold changes nothing and answers 0.
pub proof fn lemma_open_adds_handle(v: FsView, ino: u64)
    requires
        v.wf(),
        v.handles.len() < u64::MAX,
    ensures
        ({
            let (r, h) = spec_open(v, ino);
            &&& r.entries == v.entries
            &&& r.next_inode == v.next_inode
            &&& r.src_path == v.src_path
            &&& !has_ino(v.entries, ino) ==> r == v && h == 0
            &&& has_ino(v.entries, ino) ==> {
                &&& h >= 1
                &&& !handle_used(v.handles, h)
                &&& forall|k: u64| 1 <= k < h ==> handle_used(v.handles, k)
                &&& r.handles.len() == v.handles.len() + 1
                &&& forall|j: int| 0 <= j < v.handles.len() ==> #[trigger] r.handles[j] == v.handles[j]
                &&& r.handles[v.handles.len() as int].handle == h
                &&& exists|j: int|
                    #![trigger v.entries[j]]
                    0 <= j < v.entries.len() && v.entries[j].attribute.ino == ino
                        && r.handles[v.handles.len() as int].path == v.src_path + entry_path(
                        v.entries,
                        v.entries[j].parent_inode,
                        v.entries[j].name,
                    )
            }
        }),
{
    if has_ino(v.entries, ino) {
        lemma_open_handle_fresh(v, ino);
        let j = ino_index(v.entries, ino);
        assert(entry_with_ino(v.entries, ino, j));
        let _ = v.entries[j];
    }
}

/// Asking for the attributes of an inode gives those of an entry with that
/// inode, and nothing only when no entry has it.
pub proof fn lemma_getattr_finds(s: Seq<FileInfoView>, ino: u64)
    ensures
        match spec_getattr(s, ino) {
            Some(a) => a.ino == ino && exists|j: int|
                0 <= j < s.len() && #[trigger] s[j].attribute == a,
            None => forall|j: int| 0 <= j < s.len() ==> #[trigger] s[j].attribute.ino != ino,
        },
{
    if has_ino(s, ino) {
        let j = ino_index(s, ino);
        assert(entry_with_ino(s, ino, j));
        assert(s[j].attribute == spec_getattr(s, ino).unwrap());
    } else {
        assert forall|j: int| 0 <= j < s.len() implies #[trigger] s[j].attribute.ino != ino by {
            if s[j].attribute.ino == ino {
                assert(entry_with_ino(s, ino, j));
            }
        }
    }
}

/// A lookup of `name` in `parent` gives the attributes of the first entry of
/// the table so called in that directory, and nothing only when there is none.
pub proof fn lemma_lookup_finds(s: Seq<FileInfoView>, parent: u64, name: Seq<char>)
    ensures
        match spec_lookup(s, parent, name) {
            Some(a) => exists|j: int|
                #![trigger s[j]]
                0 <= j < s.len() && s[j].parent_inode == parent && s[j].name == name && s[j].attribute == a
                    && forall|i: int|
                    0 <= i < j ==> !(#[trigger] s[i].parent_inode == parent && s[i].name == name),
            None => forall|j: int|
                0 <= j < s.len() ==> !(#[trigger] s[j].parent_inode == parent && s[j].name == name),
        },
{
    if exists|i: int| first_child_at(s, parent, name, i) {
        let j = choose|i: int| first_child_at(s, parent, name, i);
        assert(first_child_at(s, parent, name, j));
        let _ = s[j];
        assert forall|i: int| 0 <= i < j implies !(#[trigger] s[i].parent_inode == parent && s[i].name == name) by {
            assert(!crate::ops::child_at(s, parent, name, i));
        }
    } else {
        assert forall|j: int| 0 <= j < s.len() implies !(#[trigger] s[j].parent_inode == parent && s[j].name == name) by {
            if s[j].parent_inode == parent && s[j].name == name {
                assert(crate::ops::child_at(s, parent, name, j));
                crate::laws::lemma_first_child_exists(s, parent, name, j);
            }
        }
    }
}

/// A change of attributes of an inode that the table holds sets exactly the
/// requested fields of that entry: the mode's low 16 bits as permissions, the
/// owner, group, size, access, modification, creation and change times and
/// the flags each take the requested value when one is given and keep theirs
/// otherwise; the inode, kind, blocks, links and device stay; every other
/// entry, and the entry's parent, name and path, stay as they were; the
/// answer is the entry's position.
pub proof fn lemma_setattr_fields(
    v: FsView,
    ino: u64,
    mode: Option<u32>,
    uid: Option<u32>,
    gid: Option<u32>,
    size: Option<u64>,
    atime: Option<Timespec>,
    mtime: Option<Timespec>,
    crtime: Option<Timespec>,
    chgtime: Option<Timespec>,
    flags: Option<u32>,
)
    requires
        v.wf(),
        has_ino(v.entries, ino),
        v.entries.len() <= i32::MAX,
    ensures
        ({
            let (r, n) = spec_change_file_attr(v, ino, mode, uid, gid, size, atime, mtime, crtime, chgtime, flags);
            let i = n as int;
            let o = v.entries[i];
            let e = r.entries[i];
            let a = e.attribute;
            &&& 0 <= i < v.entries.len()
            &&& o.attribute.ino == ino
            &&& r.entries.len() == v.entries.len()
            &&& r.handles == v.handles && r.next_inode == v.next_inode && r.src_path == v.src_path
            &&& forall|j: int| 0 <= j < v.entries.len() && j != i ==> #[trigger] r.entries[j] == v.entries[j]
            &&& e.parent_inode == o.parent_inode && e.name == o.name && e.path == o.path
            &&& spec_getattr(r.entries, ino) == Some(a)
            &&& a.ino == ino && a.kind == o.attribute.kind && a.blocks == o.attribute.blocks
            &&& a.nlink == o.attribute.nlink && a.rdev == o.attribute.rdev
            &&& (match mode {
                Some(m) => a.perm as int == m as int % 65536,
                None => a.perm == o.attribute.perm,
            })
            &&& (match uid {
                Some(t) => a.uid == t,
                None => a.uid == o.attribute.uid,
            })
            &&& (match gid {
                Some(t) => a.gid == t,
                None => a.gid == o.attribute.gid,
            })
            &&& (match size {
                Some(t) => a.size == t,
                None => a.size == o.attribute.size,
            })
            &&& (match atime {
                Some(t) => a.atime == t,
                None => a.atime == o.attribute.atime,
            })
            &&& (match mtime {
                Some(t) => a.mtime == t,
                None => a.mtime == o.attribute.mtime,
            })
            &&& (match crtime {
                Some(t) => a.crtime == t,
                None => a.crtime == o.attribute.crtime,
            })
            &&& (match chgtime {
                Some(t) => a.ctime == t,
                None => a.ctime == o.attribute.ctime,
            })
            &&& (match flags {
                Some(t) => a.flags == t,
                None => a.flags == o.attribute.flags,
            })
        }),
{
    let k = ino_index(v.entries, ino);
    assert(entry_with_ino(v.entries, ino, k));
    assert(k as i32 as int == k);
    crate::laws::lemma_getattr_after_setattr(v, ino, mode, uid, gid, size, atime, mtime, crtime, chgtime, flags);
    match mode {
        Some(m) => {
            assert((m as u16) as int == m as int % 65536) by {
                assert((m as u16) as u32 == m % 0x10000u32) by (bit_vector);
            }
        },
        None => {},
    }
}

/// The entries of a table whose inodes increase, taken in table order within
/// one directory, have increasing inodes too.
proof fn lemma_children_increasing(s: Seq<FileInfoView>, ino: u64)
    requires
        inodes_increasing(s),
    ensures
        inodes_increasing(children(s, ino)),
    decreases s.len(),
{
    reveal(Seq::filter);
    if s.len() > 0 {
        let r = s.drop_last();
        assert(inodes_increasing(r)) by {
            assert forall|i: int, j: int| 0 <= i < j < r.len() implies #[trigger] r[i].attribute.ino
                < #[trigger] r[j].attribute.ino by {
                assert(r[i] == s[i] && r[j] == s[j]);
            }
        }
        lemma_children_increasing(r, ino);
        let cr = children(r, ino);
        let last = s.last();
        if last.parent_inode == ino {
            let c = children(s, ino);
            assert(c == cr.push(last));
            assert forall|i: int, j: int| 0 <= i < j < c.len() implies #[trigger] c[i].attribute.ino
                < #[trigger] c[j].attribute.ino by {
                if j == c.len() - 1 {
                    let pred = |e: FileInfoView| e.parent_inode == ino;
                    assert(cr == r.filter(pred));
                    assert(c[i] == cr[i]);
                    assert(c[j] == last);
                    assert(cr.contains(cr[i]));
                    r.lemma_filter_contains_rev(pred, cr[i]);
                    let m = choose|m: int| 0 <= m < r.len() && r[m] == cr[i];
                    assert(s[m] == r[m]);
                    assert(m < s.len() - 1);
                    assert(s[m].attribute.ino < s[s.len() - 1].attribute.ino);
                    assert(c[i].attribute.ino == s[m].attribute.ino);
                    assert(c[j].attribute.ino == s[s.len() - 1].attribute.ino);
                } else {
                    assert(c[i] == cr[i] && c[j] == cr[j]);
                    assert(cr[i].attribute.ino < cr[j].attribute.ino);
                }
            }
        } else {
            assert(children(s, ino) == cr);
        }
    }
}

/// Each listed entry of a directory listing is an entry of the table in that
/// directory, with its inode, kind and name; asking for the attributes of a
/// listed inode gives the listed kind; the offsets count up from one past the
/// starting offset; the inodes come in increasing order; nothing is listed
/// only when the directory holds no entry.
pub proof fn lemma_readdir_sound(v: FsView, ino: u64, offset: i64)
    requires
        v.wf(),
    ensures
        match spec_readdir(v.entries, ino, offset) {
            None => forall|j: int| 0 <= j < v.entries.len() ==> #[trigger] v.entries[j].parent_inode != ino,
            Some(l) => {
                &&& forall|k: int|
                    0 <= k < l.len() ==> exists|j: int|
                        #![trigger v.entries[j]]
                        0 <= j < v.entries.len() && v.entries[j].parent_inode == ino
                            && v.entries[j].attribute.ino == (#[trigger] l[k]).ino
                            && v.entries[j].attribute.kind == l[k].kind && v.entries[j].name == l[k].name
                &&& forall|k: int|
                    0 <= k < l.len() ==> (match spec_getattr(v.entries, (#[trigger] l[k]).ino) {
                        Some(a) => a.kind == l[k].kind,
                        None => false,
                    })
                &&& forall|k: int|
                    0 <= k < l.len() ==> (#[trigger] l[k]).offset == ((offset as usize) as int + k + 1) as i64
                &&& forall|a: int, b: int| 0 <= a < b < l.len() ==> (#[trigger] l[a]).ino < (#[trigger] l[b]).ino
            },
        },
{
    let s = v.entries;
    let pred = |e: FileInfoView| e.parent_inode == ino;
    let c = children(s, ino);
    assert(c == s.filter(pred));
    lemma_children_increasing(s, ino);
    match spec_readdir(s, ino, offset) {
        None => {
            assert forall|j: int| 0 <= j < s.len() implies #[trigger] s[j].parent_inode != ino by {
                if s[j].parent_inode == ino {
                    s.lemma_filter_contains(pred, j);
                }
            }
        },
        Some(l) => {
            let skip = (offset as usize) as int;
            assert forall|k: int| 0 <= k < l.len() implies exists|j: int|
                #![trigger s[j]]
                0 <= j < s.len() && s[j].parent_inode == ino && s[j].attribute.ino == (#[trigger] l[k]).ino
                    && s[j].attribute.kind == l[k].kind && s[j].name == l[k].name by {
                let e = c[skip + k];
                assert(c.contains(e));
                s.lemma_filter_pred(pred, skip + k);
                s.lemma_filter_contains_rev(pred, e);
                let j = choose|j: int| 0 <= j < s.len() && s[j] == e;
                let _ = s[j];
            }
            assert forall|k: int| 0 <= k < l.len() implies (match spec_getattr(s, (#[trigger] l[k]).ino) {
                Some(a) => a.kind == l[k].kind,
                None => false,
            }) by {
                let e = c[skip + k];
                assert(c.contains(e));
                s.lemma_filter_contains_rev(pred, e);
                let j = choose|j: int| 0 <= j < s.len() && s[j] == e;
                lemma_ino_unique(s, e.attribute.ino, j);
            }
            assert forall|a: int, b: int| 0 <= a < b < l.len() implies (#[trigger] l[a]).ino < (#[trigger] l[b]).ino by {
                assert(c[skip + a].attribute.ino < c[skip + b].attribute.ino);
            }
        },
    }
}

/// A listing from offset 0 lists every entry of the directory.
pub proof fn lemma_readdir_complete(v: FsView, ino: u64)
    requires
        v.wf(),
    ensures
        forall|j: int|
            0 <= j < v.entries.len() && #[trigger] v.entries[j].parent_inode == ino ==> (spec_readdir(
                v.entries,
                ino,
                0,
            ) matches Some(l) && exists|k: int| 0 <= k < l.len() && (#[trigger] l[k]).ino == v.entries[j].attribute.ino),
{
    let s = v.entries;
    let pred = |e: FileInfoView| e.parent_inode == ino;
    let c = children(s, ino);
    assert(c == s.filter(pred));
    assert forall|j: int| 0 <= j < s.len() && #[trigger] s[j].parent_inode == ino implies (spec_readdir(
        s,
        ino,
        0,
    ) matches Some(l) && exists|k: int| 0 <= k < l.len() && (#[trigger] l[k]).ino == s[j].attribute.ino) by {
        s.lemma_filter_contains(pred, j);
        let k = choose|k: int| 0 <= k < c.len() && c[k] == s[j];
        assert((0i64 as usize) as int == 0);
        let l = spec_readdir(s, ino, 0).unwrap();
        assert(l[k].ino == s[j].attribute.ino);
    }
}

/// Resuming a listing at offset `o` gives the listing from 0 without its
/// first `o` entries: the same entries in the same order, with the same
/// resume offsets.
pub proof fn lemma_readdir_resume(s: Seq<FileInfoView>, ino: u64, o: i64)
    requires
        0 <= o,
        o as int <= usize::MAX as int,
    ensures
        match (spec_readdir(s, ino, o), spec_readdir(s, ino, 0)) {
            (Some(a), Some(b)) => {
                &&& a.len() == if o < b.len() { b.len() - o } else { 0 }
                &&& forall|k: int| 0 <= k < a.len() ==> #[trigger] a[k] == b[o + k]
            },
            (None, None) => true,
            _ => false,
        },
{
    assert((o as usize) as int == o);
    assert((0i64 as usize) as int == 0);
}

/// Announcing a creation gives out exactly the next inode number and
/// changes nothing else.
pub proof fn lemma_begin_create_counts(v: FsView)
    requires
        v.next_inode < u64::MAX,
    ensures
        spec_begin_create(v).next_inode == v.next_inode + 1,
        spec_begin_create(v).entries == v.entries,
        spec_begin_create(v).handles == v.handles,
        spec_begin_create(v).src_path == v.src_path,
{
}

/// An entry found by the scan gets the next inode number and joins the
/// table at its end with the given parent, name and path; nothing else
/// changes.
pub proof fn lemma_add_info_entry_appends(
    v: FsView,
    parent: u64,
    kind: FileType,
    size: u64,
    name: Seq<char>,
    path: Seq<char>,
)
    requires
        v.next_inode < u64::MAX,
    ensures
        ({
            let r = spec_add_info_entry(v, parent, kind, size, name, path);
            let e = r.entries[v.entries.len() as int];
            &&& r.next_inode == v.next_inode + 1
            &&& r.entries.len() == v.entries.len() + 1
            &&& forall|j: int| 0 <= j < v.entries.len() ==> #[trigger] r.entries[j] == v.entries[j]
            &&& e.attribute == scanned_attr((v.next_inode + 1) as u64, kind, size)
            &&& e.attribute.ino == v.next_inode + 1
            &&& e.parent_inode == parent && e.name == name && e.path == path
            &&& r.handles == v.handles && r.src_path == v.src_path
        }),
{
}

/// A new filesystem holds its root alone, at inode 1 with parent 0 and the
/// given name and path; no file is open, no number beyond 1 is given out, and
/// the source directory is not set.
pub proof fn lemma_root_state(size: u64, name: Seq<char>, path: Seq<char>)
    ensures
        ({
            let r = spec_root_state(size, name, path);
            &&& r.entries.len() == 1
            &&& r.entries[0].attribute == root_attr(size)
            &&& r.entries[0].attribute.ino == 1
            &&& r.entries[0].parent_inode == 0
            &&& r.entries[0].name == name && r.entries[0].path == path
            &&& r.handles.len() == 0
            &&& r.next_inode == 1
            &&& r.src_path.len() == 0
        }),
{
}

/// The attributes that the table gives each kind of new entry: the root
/// directory, an entry found by the scan, a created file and a created
/// directory. All start with owner 501, group 20, no links, no flags and the
/// creation time 0.
pub proof fn lemma_new_entry_attributes(ino: u64, size: u64, kind: FileType, mode: u32, rdev: u32)
    ensures
        ({
            let t = Timespec { sec: 0, nsec: 0 };
            let r = root_attr(size);
            let s = scanned_attr(ino, kind, size);
            let f = node_attr(ino, mode, rdev);
            let d = dir_attr(ino, mode);
            &&& r.ino == 1 && r.size == size && r.blocks == 1 && r.kind == FileType::Directory
            &&& r.perm == 0o777 && r.rdev == 0
            &&& s.ino == ino && s.size == size && s.blocks == 1 && s.kind == kind && s.perm == 0o755
            &&& s.rdev == 0
            &&& f.ino == ino && f.size == 0 && f.blocks == 1 && f.kind == FileType::RegularFile
            &&& f.perm as int == mode as int % 65536 && f.rdev == rdev
            &&& d.ino == ino && d.size == 64 && d.blocks == 2 && d.kind == FileType::Directory
            &&& d.perm as int == mode as int % 65536 && d.rdev == 0
            &&& forall|a: FileAttr|
                a == r || a == s || a == f || a == d ==> a.uid == 501 && a.gid == 20 && a.nlink == 0
                    && a.flags == 0 && a.atime == t && a.mtime == t && a.ctime == t && a.crtime == t
        }),
{
    assert((mode as u16) as int == mode as int % 65536) by {
        assert((mode as u16) as u32 == mode % 0x10000u32) by (bit_vector);
    }
    assert(spec_create_time() == Timespec { sec: 0, nsec: 0 });
}

} // verus!
