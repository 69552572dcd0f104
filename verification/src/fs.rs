use vstd::prelude::*;

use crate::attr::FileAttr;

verus! {

/// One entry of the inode table: its attributes, the inode of the directory
/// that holds it (0 for the root), its name and the path of the stored file.
pub struct FileInfo {
    pub attribute: FileAttr,
    pub parent_inode: u64,
    pub name: String,
    pub path: String,
}

/// The mathematical value of a [`FileInfo`].
pub struct FileInfoView {
    pub attribute: FileAttr,
    pub parent_inode: u64,
    pub name: Seq<char>,
    pub path: Seq<char>,
}

impl View for FileInfo {
    type V = FileInfoView;

    open spec fn view(&self) -> FileInfoView {
        FileInfoView {
            attribute: self.attribute,
            parent_inode: self.parent_inode,
            name: self.name@,
            path: self.path@,
        }
    }
}

/// An open file: the handle given out by `open` and the stored file's path.
pub struct FileHandle {
    pub handle: u64,
    pub path: String,
}

/// The mathematical value of a [`FileHandle`].
pub struct FileHandleView {
    pub handle: u64,
    pub path: Seq<char>,
}

impl View for FileHandle {
    type V = FileHandleView;

    open spec fn view(&self) -> FileHandleView {
        FileHandleView { handle: self.handle, path: self.path@ }
    }
}

/// The state of the filesystem: the inode table, the open-file handles, the
/// last inode number given out, and the path of the source directory.
pub struct FS {
    pub entries: Vec<FileInfo>,
    pub handles: Vec<FileHandle>,
    pub next_inode: u64,
    pub src_path: String,
}

/// The mathematical value of an [`FS`].
pub struct FsView {
    pub entries: Seq<FileInfoView>,
    pub handles: Seq<FileHandleView>,
    pub next_inode: u64,
    pub src_path: Seq<char>,
}

impl View for FS {
    type V = FsView;

    open spec fn view(&self) -> FsView {
        FsView {
            entries: self.entries@.map_values(|e: FileInfo| e@),
            handles: self.handles@.map_values(|h: FileHandle| h@),
            next_inode: self.next_inode,
            src_path: self.src_path@,
        }
    }
}

/// The `i`-th entry of `s` exists and has inode `ino`.
pub open spec fn entry_with_ino(s: Seq<FileInfoView>, ino: u64, i: int) -> bool {
    0 <= i < s.len() && s[i].attribute.ino == ino
}

/// Some entry of `s` has inode `ino`.
pub open spec fn has_ino(s: Seq<FileInfoView>, ino: u64) -> bool {
    exists|i: int| entry_with_ino(s, ino, i)
}

/// The position of the entry with inode `ino` (meaningful when there is one).
pub open spec fn ino_index(s: Seq<FileInfoView>, ino: u64) -> int {
    choose|i: int| entry_with_ino(s, ino, i)
}

/// The inode numbers of `s` strictly increase along the table.
pub open spec fn inodes_increasing(s: Seq<FileInfoView>) -> bool {
    forall|i: int, j: int|
        0 <= i < j < s.len() ==> #[trigger] s[i].attribute.ino < #[trigger] s[j].attribute.ino
}

/// Some open handle of `hs` is `h`.
pub open spec fn handle_used(hs: Seq<FileHandleView>, h: u64) -> bool {
    exists|i: int| 0 <= i < hs.len() && #[trigger] hs[i].handle == h
}

impl FsView {
    /// The invariant that every operation keeps: the table holds the root
    /// first; inode numbers strictly increase along the table, none exceeds
    /// the last number given out, and every entry's parent has a smaller
    /// number than the entry; open handles are nonzero and pairwise distinct.
    pub open spec fn wf(self) -> bool {
        &&& self.entries.len() > 0
        &&& inodes_increasing(self.entries)
        &&& forall|i: int|
            0 <= i < self.entries.len() ==> #[trigger] self.entries[i].parent_inode
                < self.entries[i].attribute.ino
        &&& forall|i: int|
            0 <= i < self.entries.len() ==> #[trigger] self.entries[i].attribute.ino
                <= self.next_inode
        &&& forall|i: int| 0 <= i < self.handles.len() ==> #[trigger] self.handles[i].handle >= 1
        &&& forall|i: int, j: int|
            0 <= i < j < self.handles.len() ==> #[trigger] self.handles[i].handle
                != #[trigger] self.handles[j].handle
    }
}

/// In a table whose inodes strictly increase, an inode occurs at one place
/// only, which is the place that `ino_index` names.
pub proof fn lemma_ino_unique(s: Seq<FileInfoView>, ino: u64, i: int)
    requires
        inodes_increasing(s),
        entry_with_ino(s, ino, i),
    ensures
        has_ino(s, ino),
        ino_index(s, ino) == i,
{
    let k = ino_index(s, ino);
    assert(entry_with_ino(s, ino, k));
    if k < i {
        assert(s[k].attribute.ino < s[i].attribute.ino);
    } else if i < k {
        assert(s[i].attribute.ino < s[k].attribute.ino);
    }
}

impl FS {
    /// Finds the first entry whose inode is `ino`.
    pub fn find_ino(&self, ino: u64) -> (r: Option<usize>)
        ensures
            match r {
                Some(i) => {
                    &&& entry_with_ino(self@.entries, ino, i as int)
                    &&& forall|j: int| 0 <= j < i ==> self@.entries[j].attribute.ino != ino
                },
                None => !has_ino(self@.entries, ino),
            },
    {
        let n: usize = self.entries.len();
        let mut i: usize = 0;
        while i < n
            invariant
                n == self.entries.len(),
                i <= n,
                forall|j: int| 0 <= j < i ==> self@.entries[j].attribute.ino != ino,
            decreases n - i,
        {
            if self.entries[i].attribute.ino == ino {
                return Some(i);
            }
            i = i + 1;
        }
        assert(!has_ino(self@.entries, ino)) by {
            if has_ino(self@.entries, ino) {
                let k = ino_index(self@.entries, ino);
                assert(self@.entries[k].attribute.ino == ino);
            }
        }
        None
    }
}

} // verus!
