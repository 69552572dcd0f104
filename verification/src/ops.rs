use vstd::prelude::*;

use crate::attr::{create_time, spec_create_time, FileAttr, FileType, Timespec, DEFAULT_GID, DEFAULT_UID};
use crate::cipher::{decode, decode_seq, encode, encode_seq};
use crate::file::{get_new_file_handle, handle_index, spec_open};
use crate::fs::{
    handle_used, has_ino, ino_index, lemma_ino_unique, FileInfo, FileInfoView,
    FsView, FS,
};
use crate::path::{entry_path, get_entry_path};
use crate::setattr::{apply_setattr, change_file_attr, spec_change_file_attr};

verus! {

/// The size reported for a new directory.
pub const NEW_DIR_SIZE: u64 = 64;

/// The `i`-th entry of `s` is called `name` and sits in the directory with
/// inode `parent`.
pub open spec fn child_at(s: Seq<FileInfoView>, parent: u64, name: Seq<char>, i: int) -> bool {
    0 <= i < s.len() && s[i].parent_inode == parent && s[i].name == name
}

/// The `i`-th entry of `s` is the first one called `name` in the directory
/// with inode `parent`.
pub open spec fn first_child_at(s: Seq<FileInfoView>, parent: u64, name: Seq<char>, i: int) -> bool {
    child_at(s, parent, name, i) && forall|j: int| 0 <= j < i ==> !child_at(s, parent, name, j)
}

/// The attributes that a lookup of `name` in the directory `parent` reports:
/// those of the first entry so called there, if there is one.
pub open spec fn spec_lookup(s: Seq<FileInfoView>, parent: u64, name: Seq<char>) -> Option<FileAttr> {
    if exists|i: int| first_child_at(s, parent, name, i) {
        Some(s[choose|i: int| first_child_at(s, parent, name, i)].attribute)
    } else {
        None
    }
}

/// The attributes reported for inode `ino`, if the table holds it.
pub open spec fn spec_getattr(s: Seq<FileInfoView>, ino: u64) -> Option<FileAttr> {
    if has_ino(s, ino) {
        Some(s[ino_index(s, ino)].attribute)
    } else {
        None
    }
}

/// The attributes of a new regular file.
pub open spec fn node_attr(ino: u64, mode: u32, rdev: u32) -> FileAttr {
    FileAttr {
        ino,
        size: 0,
        blocks: 1,
        atime: spec_create_time(),
        mtime: spec_create_time(),
        ctime: spec_create_time(),
        crtime: spec_create_time(),
        kind: FileType::RegularFile,
        perm: mode as u16,
        nlink: 0,
        uid: DEFAULT_UID,
        gid: DEFAULT_GID,
        rdev,
        flags: 0,
    }
}

/// The attributes of a new directory.
pub open spec fn dir_attr(ino: u64, mode: u32) -> FileAttr {
    FileAttr {
        ino,
        size: NEW_DIR_SIZE,
        blocks: 2,
        atime: spec_create_time(),
        mtime: spec_create_time(),
        ctime: spec_create_time(),
        crtime: spec_create_time(),
        kind: FileType::Directory,
        perm: mode as u16,
        nlink: 0,
        uid: DEFAULT_UID,
        gid: DEFAULT_GID,
        rdev: 0,
        flags: 0,
    }
}

/// The state once a creation has been announced: one more inode number is
/// given out.
pub open spec fn spec_begin_create(v: FsView) -> FsView {
    FsView { next_inode: (v.next_inode + 1) as u64, ..v }
}

/// A created entry with inode `ino` in the directory `parent` can join the
/// table: its number was given out and is above every number in the table,
/// and its parent's number is below its own.
pub open spec fn can_record(v: FsView, ino: u64, parent: u64) -> bool {
    &&& v.entries.last().attribute.ino < ino <= v.next_inode
    &&& parent < ino
}

/// The state after a created entry joins the table, and the attributes it
/// is reported with; the state unchanged and nothing when it cannot join.
pub open spec fn spec_record(v: FsView, info: FileInfoView) -> (FsView, Option<FileAttr>) {
    if can_record(v, info.attribute.ino, info.parent_inode) {
        (FsView { entries: v.entries.push(info), ..v }, Some(info.attribute))
    } else {
        (v, None)
    }
}

/// A listed entry of a directory: its inode, the offset that resumes the
/// listing after it, its kind and its name.
pub struct DirEntry {
    pub ino: u64,
    pub offset: i64,
    pub kind: FileType,
    pub name: String,
}

/// The mathematical value of a [`DirEntry`].
pub struct DirEntryView {
    pub ino: u64,
    pub offset: i64,
    pub kind: FileType,
    pub name: Seq<char>,
}

impl View for DirEntry {
    type V = DirEntryView;

    open spec fn view(&self) -> DirEntryView {
        DirEntryView { ino: self.ino, offset: self.offset, kind: self.kind, name: self.name@ }
    }
}

/// The entries of the table that sit in the directory with inode `ino`, in
/// table order.
pub open spec fn children(s: Seq<FileInfoView>, ino: u64) -> Seq<FileInfoView> {
    s.filter(|e: FileInfoView| e.parent_inode == ino)
}

/// The listing of the `k`-th child (counting from 0).
pub open spec fn dir_entry_of(e: FileInfoView, k: int) -> DirEntryView {
    DirEntryView { ino: e.attribute.ino, offset: (k + 1) as i64, kind: e.attribute.kind, name: e.name }
}

/// The listing of the directory `ino` from `offset` on: nothing when the
/// directory has no entry at all; otherwise each child from position
/// `offset` (taken as an unsigned index) on, with the offset that follows it.
pub open spec fn spec_readdir(s: Seq<FileInfoView>, ino: u64, offset: i64) -> Option<Seq<DirEntryView>> {
    let c = children(s, ino);
    let skip = (offset as usize) as int;
    if c.len() == 0 {
        None
    } else {
        Some(
            Seq::new(
                if skip < c.len() { (c.len() - skip) as nat } else { 0 },
                |k: int| dir_entry_of(c[skip + k], skip + k),
            ),
        )
    }
}

/// What a write to an open file amounts to: the bytes to store, the path of
/// the stored file, and the byte count to report.
pub struct WritePlan {
    pub data: Vec<u8>,
    pub path: String,
    pub written: u32,
}

proof fn lemma_first_child_unique(s: Seq<FileInfoView>, parent: u64, name: Seq<char>, a: int, b: int)
    requires
        first_child_at(s, parent, name, a),
        first_child_at(s, parent, name, b),
    ensures
        a == b,
{
    if a < b {
        assert(child_at(s, parent, name, a));
    } else if b < a {
        assert(child_at(s, parent, name, b));
    }
}

impl FS {
    /// The attributes of the first entry called `name` in the directory
    /// `parent`, if there is one.
    pub fn lookup(&self, parent: u64, name: &String) -> (r: Option<FileAttr>)
        ensures
            r == spec_lookup(self@.entries, parent, name@),
    {
        let ghost s = self@.entries;
        let n: usize = self.entries.len();
        let mut i: usize = 0;
        while i < n
            invariant
                s == self@.entries,
                n == s.len(),
                i <= n,
                forall|j: int| 0 <= j < i ==> !child_at(s, parent, name@, j),
            decreases n - i,
        {
            let entry = &self.entries[i];
            if entry.parent_inode == parent && entry.name == *name {
                proof {
                    assert(s[i as int] == entry@);
                    assert(first_child_at(s, parent, name@, i as int));
                    let c = choose|c: int| first_child_at(s, parent, name@, c);
                    lemma_first_child_unique(s, parent, name@, c, i as int);
                }
                return Some(entry.attribute);
            }
            proof {
                assert(s[i as int] == entry@);
            }
            i = i + 1;
        }
        None
    }

    /// The attributes of inode `ino`, if the table holds it.
    pub fn getattr(&self, ino: u64) -> (r: Option<FileAttr>)
        requires
            self@.wf(),
        ensures
            r == spec_getattr(self@.entries, ino),
    {
        match self.find_ino(ino) {
            Some(i) => {
                proof {
                    lemma_ino_unique(self@.entries, ino, i as int);
                }
                Some(self.entries[i].attribute)
            },
            None => None,
        }
    }

    /// Changes the attributes of inode `ino` as requested and reports the
    /// new attributes; reports nothing and changes nothing when the table
    /// does not hold the inode.
    pub fn setattr(
        &mut self,
        ino: u64,
        mode: Option<u32>,
        uid: Option<u32>,
        gid: Option<u32>,
        size: Option<u64>,
        atime: Option<Timespec>,
        mtime: Option<Timespec>,
        fh: Option<u64>,
        crtime: Option<Timespec>,
        chgtime: Option<Timespec>,
        bkuptime: Option<Timespec>,
        flags: Option<u32>,
    ) -> (r: Option<FileAttr>)
        requires
            old(self)@.wf(),
            old(self)@.entries.len() <= i32::MAX,
        ensures
            final(self)@ == spec_change_file_attr(
                old(self)@,
                ino,
                mode,
                uid,
                gid,
                size,
                atime,
                mtime,
                crtime,
                chgtime,
                flags,
            ).0,
            final(self)@.wf(),
            r == if has_ino(old(self)@.entries, ino) {
                Some(
                    apply_setattr(
                        old(self)@.entries[ino_index(old(self)@.entries, ino)].attribute,
                        mode,
                        uid,
                        gid,
                        size,
                        atime,
                        mtime,
                        crtime,
                        chgtime,
                        flags,
                    ),
                )
            } else {
                None::<FileAttr>
            },
    {
        let ghost v = self@;
        let n = change_file_attr(
            self,
            ino,
            mode,
            uid,
            gid,
            size,
            atime,
            mtime,
            fh,
            crtime,
            chgtime,
            bkuptime,
            flags,
        );
        if n == -1 {
            return None;
        }
        let ghost i = ino_index(v.entries, ino);
        proof {
            assert(has_ino(v.entries, ino));
            assert(0 <= i < v.entries.len());
            assert(i as i32 == i);
            assert(n as usize as int == i);
        }
        let a = self.entries[n as usize].attribute;
        assert(a == self@.entries[i].attribute);
        Some(a)
    }

    /// Announces the creation of an entry called `name` in the directory
    /// `parent`: gives out the next inode number and returns it with the path
    /// at which the entry is to be created (the source directory followed by
    /// the entry's path below it).
    pub fn begin_create(&mut self, parent: u64, name: &String) -> (r: (u64, String))
        requires
            old(self)@.wf(),
            old(self).next_inode < u64::MAX,
        ensures
            final(self)@ == spec_begin_create(old(self)@),
            final(self)@.wf(),
            r.0 == final(self).next_inode,
            r.1@ == old(self)@.src_path + entry_path(old(self)@.entries, parent, name@),
    {
        let mut path = self.src_path.clone();
        get_entry_path(self, &mut path, parent, name);
        let ghost v = self@;
        self.next_inode = self.next_inode + 1;
        assert forall|i: int| 0 <= i < self@.entries.len() implies #[trigger] self@.entries[i].attribute.ino
            <= self@.next_inode by {
            assert(v.entries[i].attribute.ino <= v.next_inode);
        }
        (self.next_inode, path)
    }

    fn record(&mut self, info: FileInfo) -> (r: Option<FileAttr>)
        requires
            old(self)@.wf(),
        ensures
            (final(self)@, r) == spec_record(old(self)@, info@),
            final(self)@.wf(),
    {
        let ghost v = self@;
        let last: u64 = self.entries[self.entries.len() - 1].attribute.ino;
        if !(last < info.attribute.ino && info.attribute.ino <= self.next_inode
            && info.parent_inode < info.attribute.ino) {
            return None;
        }
        let attr = info.attribute;
        let ghost iv = info@;
        self.entries.push(info);
        assert(self@.entries =~= v.entries.push(iv));
        proof {
            let s = self@.entries;
            assert forall|i: int, j: int| 0 <= i < j < s.len() implies #[trigger] s[i].attribute.ino
                < #[trigger] s[j].attribute.ino by {
                if j == s.len() - 1 {
                    if i < v.entries.len() - 1 {
                        assert(v.entries[i].attribute.ino < v.entries[v.entries.len() - 1].attribute.ino);
                    }
                } else {
                    assert(v.entries[i].attribute.ino < v.entries[j].attribute.ino);
                }
            }
            assert forall|i: int| 0 <= i < s.len() implies #[trigger] s[i].parent_inode
                < s[i].attribute.ino by {
                if i < s.len() - 1 {
                    assert(v.entries[i].parent_inode < v.entries[i].attribute.ino);
                }
            }
            assert forall|i: int| 0 <= i < s.len() implies #[trigger] s[i].attribute.ino
                <= self@.next_inode by {
                if i < s.len() - 1 {
                    assert(v.entries[i].attribute.ino <= v.next_inode);
                }
            }
        }
        Some(attr)
    }

    /// Records a regular file created with inode `ino` (as given out by
    /// [`FS::begin_create`]) under `name` in the directory `parent`, stored at
    /// `path`, and returns its attributes; records nothing when the entry
    /// cannot join the table (see [`can_record`]).
    pub fn mknod(
        &mut self,
        ino: u64,
        parent: u64,
        name: String,
        path: String,
        mode: u32,
        rdev: u32,
    ) -> (r: Option<FileAttr>)
        requires
            old(self)@.wf(),
        ensures
            (final(self)@, r) == spec_record(
                old(self)@,
                FileInfoView { attribute: node_attr(ino, mode, rdev), parent_inode: parent, name: name@, path: path@ },
            ),
            final(self)@.wf(),
    {
        let t = create_time();
        let info = FileInfo {
            attribute: FileAttr {
                ino,
                size: 0,
                blocks: 1,
                atime: t,
                mtime: t,
                ctime: t,
                crtime: t,
                kind: FileType::RegularFile,
                perm: #[verifier::truncate] (mode as u16),
                nlink: 0,
                uid: DEFAULT_UID,
                gid: DEFAULT_GID,
                rdev,
                flags: 0,
            },
            parent_inode: parent,
            name,
            path,
        };
        self.record(info)
    }

    /// Records a directory created with inode `ino` (as given out by
    /// [`FS::begin_create`]) under `name` in the directory `parent`, stored at
    /// `path`, and returns its attributes; records nothing when the entry
    /// cannot join the table (see [`can_record`]).
    pub fn mkdir(&mut self, ino: u64, parent: u64, name: String, path: String, mode: u32) -> (r:
        Option<FileAttr>)
        requires
            old(self)@.wf(),
        ensures
            (final(self)@, r) == spec_record(
                old(self)@,
                FileInfoView { attribute: dir_attr(ino, mode), parent_inode: parent, name: name@, path: path@ },
            ),
            final(self)@.wf(),
    {
        let t = create_time();
        let info = FileInfo {
            attribute: FileAttr {
                ino,
                size: NEW_DIR_SIZE,
                blocks: 2,
                atime: t,
                mtime: t,
                ctime: t,
                crtime: t,
                kind: FileType::Directory,
                perm: #[verifier::truncate] (mode as u16),
                nlink: 0,
                uid: DEFAULT_UID,
                gid: DEFAULT_GID,
                rdev: 0,
                flags: 0,
            },
            parent_inode: parent,
            name,
            path,
        };
        self.record(info)
    }

    /// Opens inode `ino` and returns its new handle; returns nothing when the
    /// table does not hold the inode.
    pub fn open(&mut self, ino: u64) -> (r: Option<u64>)
        requires
            old(self)@.wf(),
            old(self)@.handles.len() < u64::MAX,
        ensures
            final(self)@ == spec_open(old(self)@, ino).0,
            final(self)@.wf(),
            r == if has_ino(old(self)@.entries, ino) {
                Some(spec_open(old(self)@, ino).1)
            } else {
                None::<u64>
            },
    {
        let handle = get_new_file_handle(self, ino);
        if handle == 0 {
            None
        } else {
            Some(handle)
        }
    }

    /// The path of the stored file of inode `ino`, if the table holds it.
    pub fn read_path(&self, ino: u64) -> (r: Option<String>)
        requires
            self@.wf(),
        ensures
            match r {
                Some(p) => has_ino(self@.entries, ino) && p@ == self@.entries[ino_index(
                    self@.entries,
                    ino,
                )].path,
                None => !has_ino(self@.entries, ino),
            },
    {
        match self.find_ino(ino) {
            Some(i) => {
                proof {
                    lemma_ino_unique(self@.entries, ino, i as int);
                }
                Some(self.entries[i].path.clone())
            },
            None => None,
        }
    }

    /// What a write of `data` through the handle `fh` stores, where, and
    /// what byte count it reports; nothing when no open file has that handle.
    pub fn plan_write(&self, fh: u64, data: &[u8]) -> (r: Option<WritePlan>)
        requires
            self@.wf(),
        ensures
            match r {
                Some(p) => {
                    &&& handle_used(self@.handles, fh)
                    &&& p.data@ == encode_seq(data@)
                    &&& p.path@ == self@.handles[handle_index(self@.handles, fh)].path
                    &&& p.written == #[verifier::truncate] (data@.len() as u32)
                },
                None => !handle_used(self@.handles, fh),
            },
    {
        let encoded = encode(data);
        let n: usize = self.handles.len();
        let mut i: usize = 0;
        while i < n
            invariant
                self@.wf(),
                encoded@ == encode_seq(data@),
                n == self@.handles.len(),
                i <= n,
                forall|j: int| 0 <= j < i ==> self@.handles[j].handle != fh,
            decreases n - i,
        {
            if self.handles[i].handle == fh {
                proof {
                    crate::file::lemma_handle_unique(self@, fh, i as int);
                }
                let written: u32 = #[verifier::truncate] (encoded.len() as u32);
                return Some(WritePlan { data: encoded, path: self.handles[i].path.clone(), written });
            }
            i = i + 1;
        }
        None
    }

    /// Lists the directory `ino` from `offset` on (see [`spec_readdir`]).
    pub fn readdir(&self, ino: u64, offset: i64) -> (r: Option<Vec<DirEntry>>)
        ensures
            match r {
                Some(v) => spec_readdir(self@.entries, ino, offset) == Some(
                    v@.map_values(|d: DirEntry| d@),
                ),
                None => spec_readdir(self@.entries, ino, offset) == None::<Seq<DirEntryView>>,
            },
    {
        let ghost s = self@.entries;
        let ghost pred = |e: FileInfoView| e.parent_inode == ino;
        let mut kids: Vec<DirEntry> = Vec::new();
        let n: usize = self.entries.len();
        let mut i: usize = 0;
        while i < n
            invariant
                s == self@.entries,
                n == s.len(),
                i <= n,
                pred == (|e: FileInfoView| e.parent_inode == ino),
                kids@.len() == s.take(i as int).filter(pred).len(),
                forall|k: int|
                    0 <= k < kids@.len() ==> #[trigger] kids@[k]@ == dir_entry_of(
                        s.take(i as int).filter(pred)[k],
                        k,
                    ),
            decreases n - i,
        {
            proof {
                reveal_with_fuel(Seq::<_>::filter, 1);
                assert(s.take((i + 1) as int).drop_last() =~= s.take(i as int));
            }
            let entry = &self.entries[i];
            if entry.parent_inode == ino {
                let k: usize = kids.len();
                let d = DirEntry {
                    ino: entry.attribute.ino,
                    offset: #[verifier::truncate] ((k + 1) as i64),
                    kind: entry.attribute.kind,
                    name: entry.name.clone(),
                };
                kids.push(d);
                proof {
                    assert(s[i as int] == entry@);
                }
            } else {
                proof {
                    assert(s[i as int] == entry@);
                }
            }
            i = i + 1;
        }
        assert(s.take(n as int) =~= s);
        if kids.len() == 0 {
            return None;
        }
        let ghost c = children(s, ino);
        assert(c == s.filter(pred));
        let skip: usize = #[verifier::truncate] (offset as usize);
        let m: usize = kids.len();
        let mut out: Vec<DirEntry> = Vec::new();
        let mut j: usize = skip;
        while j < m
            invariant
                c.len() == m,
                kids@.len() == m,
                skip <= j <= m || (skip > m && out@.len() == 0),
                j >= skip,
                out@.len() == j - skip,
                forall|k: int| 0 <= k < kids@.len() ==> #[trigger] kids@[k]@ == dir_entry_of(c[k], k),
                forall|k: int|
                    0 <= k < out@.len() ==> #[trigger] out@[k]@ == dir_entry_of(
                        c[skip + k],
                        skip + k,
                    ),
            decreases m - j,
        {
            let d = &kids[j];
            out.push(DirEntry {
                ino: d.ino,
                offset: d.offset,
                kind: d.kind,
                name: d.name.clone(),
            });
            j = j + 1;
        }
        assert(out@.map_values(|d: DirEntry| d@) =~= spec_readdir(s, ino, offset).unwrap());
        Some(out)
    }
}

/// The bytes handed to a reader of a stored file whose content is `content`,
/// from position `offset` on.
pub fn read_reply(content: &[u8], offset: i64) -> (r: Vec<u8>)
    requires
        0 <= offset <= content@.len(),
    ensures
        r@ == decode_seq(content@).skip(offset as int),
{
    let decoded = decode(content);
    let n: usize = decoded.len();
    let start: usize = offset as usize;
    let mut out: Vec<u8> = Vec::new();
    let mut i: usize = start;
    while i < n
        invariant
            n == decoded@.len(),
            start <= i <= n,
            out@ == decoded@.subrange(start as int, i as int),
        decreases n - i,
    {
        out.push(decoded[i]);
        assert(decoded@.subrange(start as int, (i + 1) as int) =~= decoded@.subrange(
            start as int,
            i as int,
        ).push(decoded@[i as int]));
        i = i + 1;
    }
    assert(out@ =~= decoded@.skip(offset as int));
    out
}

} // verus!
