use vstd::prelude::*;

use crate::attr::{FileAttr, Timespec};
use crate::cipher::{decode_seq, encode_seq, lemma_decode_encode};
use crate::file::{
    least_free_handle, lemma_handle_unique, lemma_used_handles_bound, spec_open, spec_release,
};
use crate::fs::{entry_with_ino, handle_used, has_ino, ino_index, lemma_ino_unique, FileHandleView, FileInfoView, FsView};
use crate::ops::{
    can_record, child_at, first_child_at, spec_begin_create, spec_getattr, spec_lookup,
    spec_record,
};
use crate::setattr::{apply_setattr, spec_change_file_attr};

verus! {

/// Reading a file from `offset` after `data` was written to it gives `data`
/// from `offset` on.
pub proof fn lemma_read_after_write(data: Seq<u8>, offset: int)
    requires
        0 <= offset <= data.len(),
    ensures
        decode_seq(encode_seq(data)).skip(offset) == data.skip(offset),
{
    lemma_decode_encode(data);
}

proof fn lemma_least_free_from(hs: Seq<FileHandleView>, k: u64, u: u64)
    requires
        1 <= k <= u,
        !handle_used(hs, u),
        forall|j: u64| 1 <= j < k ==> handle_used(hs, j),
    ensures
        exists|h: u64| least_free_handle(hs, h),
    decreases u - k,
{
    if !handle_used(hs, k) {
        assert(least_free_handle(hs, k));
    } else {
        assert(k != u);
        assert forall|j: u64| 1 <= j < k + 1 implies handle_used(hs, j) by {
            if j < k {
            }
        }
        lemma_least_free_from(hs, (k + 1) as u64, u);
    }
}

/// While fewer than `u64::MAX` files are open, there is a least free handle.
pub proof fn lemma_least_free_exists(hs: Seq<FileHandleView>)
    requires
        hs.len() < u64::MAX,
    ensures
        exists|h: u64| least_free_handle(hs, h),
{
    let top = (hs.len() + 1) as u64;
    if forall|k: u64| 1 <= k <= top ==> handle_used(hs, k) {
        lemma_used_handles_bound(hs, top);
    }
    let u = choose|k: u64| 1 <= k <= top && !handle_used(hs, k);
    lemma_least_free_from(hs, 1, u);
}

/// Opening an inode gives a handle that no other open file has, and that is
/// the least such positive number.
pub proof fn lemma_open_handle_fresh(v: FsView, ino: u64)
    requires
        v.wf(),
        v.handles.len() < u64::MAX,
        has_ino(v.entries, ino),
    ensures
        least_free_handle(v.handles, spec_open(v, ino).1),
        spec_open(v, ino).1 >= 1,
        spec_open(v, ino).0.wf(),
{
    lemma_least_free_exists(v.handles);
    let h = spec_open(v, ino).1;
    let v2 = spec_open(v, ino).0;
    assert forall|a: int, b: int| 0 <= a < b < v2.handles.len() implies #[trigger] v2.handles[a].handle
        != #[trigger] v2.handles[b].handle by {
        if b == v.handles.len() {
            assert(v.handles[a].handle == v2.handles[a].handle);
        }
    }
}

/// Releasing the handle that opening an inode gave leaves the filesystem as
/// it was before the opening.
pub proof fn lemma_release_undoes_open(v: FsView, ino: u64)
    requires
        v.wf(),
        v.handles.len() < u64::MAX,
        has_ino(v.entries, ino),
    ensures
        spec_release(spec_open(v, ino).0, spec_open(v, ino).1) == v,
{
    lemma_open_handle_fresh(v, ino);
    let (v2, h) = spec_open(v, ino);
    let last = v.handles.len() as int;
    assert(v2.handles[last].handle == h);
    lemma_handle_unique(v2, h, last);
    assert(v2.handles.remove(last) =~= v.handles);
}

/// Releasing a handle that no open file has changes nothing.
pub proof fn lemma_release_unknown(v: FsView, fh: u64)
    requires
        !handle_used(v.handles, fh),
    ensures
        spec_release(v, fh) == v,
{
}

/// A creation announced in a directory that the table holds can be
/// recorded under the number that the announcement gave out.
pub proof fn lemma_announced_can_record(v: FsView, parent: u64)
    requires
        v.wf(),
        v.next_inode < u64::MAX,
        has_ino(v.entries, parent),
    ensures
        can_record(spec_begin_create(v), (v.next_inode + 1) as u64, parent),
{
    let i = ino_index(v.entries, parent);
    assert(entry_with_ino(v.entries, parent, i));
    assert(v.entries[i].attribute.ino <= v.next_inode);
    let l = v.entries.len() - 1;
    assert(v.entries[l].attribute.ino <= v.next_inode);
}

/// The number that announcing a creation gives out is held by no entry of
/// the table: inode numbers are never given out twice.
pub proof fn lemma_announced_ino_fresh(v: FsView)
    requires
        v.wf(),
        v.next_inode < u64::MAX,
    ensures
        !has_ino(spec_begin_create(v).entries, (v.next_inode + 1) as u64),
{
    if has_ino(v.entries, (v.next_inode + 1) as u64) {
        let i = ino_index(v.entries, (v.next_inode + 1) as u64);
        assert(entry_with_ino(v.entries, (v.next_inode + 1) as u64, i));
        assert(v.entries[i].attribute.ino <= v.next_inode);
    }
}

/// Once a created entry is recorded, asking for the attributes of its inode
/// gives the attributes it was recorded with, and the table stays well formed.
pub proof fn lemma_getattr_after_record(v: FsView, info: FileInfoView)
    requires
        v.wf(),
        can_record(v, info.attribute.ino, info.parent_inode),
    ensures
        spec_record(v, info).1 == Some(info.attribute),
        spec_getattr(spec_record(v, info).0.entries, info.attribute.ino) == Some(info.attribute),
        spec_record(v, info).0.wf(),
{
    let v2 = spec_record(v, info).0;
    let s = v2.entries;
    let n = v.entries.len() as int;
    let l = n - 1;
    assert(s[n] == info);
    assert forall|i: int, j: int| 0 <= i < j < s.len() implies #[trigger] s[i].attribute.ino
        < #[trigger] s[j].attribute.ino by {
        if j == n {
            if i < l {
                assert(v.entries[i].attribute.ino < v.entries[l].attribute.ino);
            }
        } else {
            assert(v.entries[i].attribute.ino < v.entries[j].attribute.ino);
        }
    }
    assert forall|i: int| 0 <= i < s.len() implies #[trigger] s[i].parent_inode < s[i].attribute.ino by {
        if i < n {
            assert(v.entries[i].parent_inode < v.entries[i].attribute.ino);
        }
    }
    assert forall|i: int| 0 <= i < s.len() implies #[trigger] s[i].attribute.ino <= v2.next_inode by {
        if i < n {
            assert(v.entries[i].attribute.ino <= v.next_inode);
        }
    }
    lemma_ino_unique(s, info.attribute.ino, n);
}

/// Once a created entry is recorded under a name that its directory did not
/// hold, looking that name up in that directory gives the recorded attributes.
pub proof fn lemma_lookup_after_record(v: FsView, info: FileInfoView)
    requires
        v.wf(),
        can_record(v, info.attribute.ino, info.parent_inode),
        spec_lookup(v.entries, info.parent_inode, info.name) == None::<FileAttr>,
    ensures
        spec_lookup(spec_record(v, info).0.entries, info.parent_inode, info.name) == Some(
            info.attribute,
        ),
{
    let s = spec_record(v, info).0.entries;
    let n = v.entries.len() as int;
    let p = info.parent_inode;
    let nm = info.name;
    assert forall|j: int| 0 <= j < n implies !child_at(s, p, nm, j) by {
        if child_at(s, p, nm, j) {
            assert(child_at(v.entries, p, nm, j));
            lemma_first_child_exists(v.entries, p, nm, j);
        }
    }
    assert(s[n] == info);
    assert(first_child_at(s, p, nm, n));
    let c = choose|c: int| first_child_at(s, p, nm, c);
    if c < n {
        assert(child_at(s, p, nm, c));
    } else if c > n {
        assert(child_at(s, p, nm, n));
    }
}

/// When some entry of `s` is called `name` in `parent`, there is a first one.
pub proof fn lemma_first_child_exists(s: Seq<FileInfoView>, parent: u64, name: Seq<char>, i: int)
    requires
        child_at(s, parent, name, i),
    ensures
        exists|k: int| first_child_at(s, parent, name, k),
    decreases i,
{
    if forall|j: int| 0 <= j < i ==> !child_at(s, parent, name, j) {
        assert(first_child_at(s, parent, name, i));
    } else {
        let j = choose|j: int| 0 <= j < i && child_at(s, parent, name, j);
        lemma_first_child_exists(s, parent, name, j);
    }
}

/// After the attributes of an inode are changed, asking for them gives the
/// changed attributes; the change keeps the table well formed and returns the
/// entry's position.
pub proof fn lemma_getattr_after_setattr(
    v: FsView,
    ino: u64,
    mode: Option<u32>,
    uid: Option<u32>,
    gid: Option<u32>,
    size: Option<u64>,
    atime: Option<Timespec>,
    mtime: Option<Timespec>,
    crtime: Option<Timespec>,
    chgtime: Option<Timespec>,
    flags: Option<u32>,
)
    requires
        v.wf(),
        has_ino(v.entries, ino),
    ensures
        spec_getattr(
            spec_change_file_attr(v, ino, mode, uid, gid, size, atime, mtime, crtime, chgtime, flags).0.entries,
            ino,
        ) == Some(
            apply_setattr(
                v.entries[ino_index(v.entries, ino)].attribute,
                mode,
                uid,
                gid,
                size,
                atime,
                mtime,
                crtime,
                chgtime,
                flags,
            ),
        ),
{
    let i = ino_index(v.entries, ino);
    assert(entry_with_ino(v.entries, ino, i));
    let s = spec_change_file_attr(v, ino, mode, uid, gid, size, atime, mtime, crtime, chgtime, flags).0.entries;
    assert(s[i].attribute.ino == ino);
    assert(inodes_kept(v.entries, s));
    lemma_ino_unique(s, ino, i);
}

spec fn inodes_kept(a: Seq<FileInfoView>, b: Seq<FileInfoView>) -> bool {
    a.len() == b.len() && forall|k: int| 0 <= k < a.len() ==> #[trigger] b[k].attribute.ino == a[k].attribute.ino
}

/// Changing attributes on an inode that the table does not hold changes
/// nothing and answers -1.
pub proof fn lemma_setattr_unknown(
    v: FsView,
    ino: u64,
    mode: Option<u32>,
    uid: Option<u32>,
    gid: Option<u32>,
    size: Option<u64>,
    atime: Option<Timespec>,
    mtime: Option<Timespec>,
    crtime: Option<Timespec>,
    chgtime: Option<Timespec>,
    flags: Option<u32>,
)
    requires
        !has_ino(v.entries, ino),
    ensures
        spec_change_file_attr(v, ino, mode, uid, gid, size, atime, mtime, crtime, chgtime, flags)
            == (v, -1i32),
{
}

/// A change of attributes never changes an entry's inode number, kind,
/// block count, link count or device number.
pub proof fn lemma_setattr_keeps_identity(
    a: FileAttr,
    mode: Option<u32>,
    uid: Option<u32>,
    gid: Option<u32>,
    size: Option<u64>,
    atime: Option<Timespec>,
    mtime: Option<Timespec>,
    crtime: Option<Timespec>,
    chgtime: Option<Timespec>,
    flags: Option<u32>,
)
    ensures
        ({
            let b = apply_setattr(a, mode, uid, gid, size, atime, mtime, crtime, chgtime, flags);
            &&& b.ino == a.ino
            &&& b.kind == a.kind
            &&& b.blocks == a.blocks
            &&& b.nlink == a.nlink
            &&& b.rdev == a.rdev
        }),
{
}

} // verus!
