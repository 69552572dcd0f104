use vstd::prelude::*;
use vstd::set_lib::{lemma_int_range, lemma_len_subset, set_int_range};

use crate::fs::{
    entry_with_ino, handle_used, has_ino, ino_index, lemma_ino_unique, FileHandle, FileHandleView,
    FsView, FS,
};
use crate::path::{entry_path, get_entry_path};

verus! {

/// `h` is the handle that a new open file gets: the least positive number
/// that no open file uses.
pub open spec fn least_free_handle(hs: Seq<FileHandleView>, h: u64) -> bool {
    &&& h >= 1
    &&& !handle_used(hs, h)
    &&& forall|k: u64| 1 <= k < h ==> handle_used(hs, k)
}

/// The position of the open file with handle `fh` (meaningful when there is
/// one).
pub open spec fn handle_index(hs: Seq<FileHandleView>, fh: u64) -> int {
    choose|i: int| 0 <= i < hs.len() && hs[i].handle == fh
}

/// The path under which an entry of the table is opened: the source
/// directory followed by the entry's path below it.
pub open spec fn open_path(v: FsView, inode: u64) -> Seq<char> {
    let e = v.entries[ino_index(v.entries, inode)];
    v.src_path + entry_path(v.entries, e.parent_inode, e.name)
}

/// The state after opening the entry with inode `inode`, and the handle
/// returned: a fresh handle for the entry's path, or 0 and no change when no
/// entry has that inode.
pub open spec fn spec_open(v: FsView, inode: u64) -> (FsView, u64) {
    if has_ino(v.entries, inode) {
        let h = choose|h: u64| least_free_handle(v.handles, h);
        (
            FsView {
                handles: v.handles.push(FileHandleView { handle: h, path: open_path(v, inode) }),
                ..v
            },
            h,
        )
    } else {
        (v, 0)
    }
}

/// The state after releasing the handle `fh`: that open file leaves the
/// handle table; an unknown handle changes nothing.
pub open spec fn spec_release(v: FsView, fh: u64) -> FsView {
    if handle_used(v.handles, fh) {
        FsView { handles: v.handles.remove(handle_index(v.handles, fh)), ..v }
    } else {
        v
    }
}

/// If every number from 1 to `h` is an open handle, there are at least `h`
/// open files.
pub proof fn lemma_used_handles_bound(hs: Seq<FileHandleView>, h: u64)
    requires
        forall|k: u64| 1 <= k <= h ==> handle_used(hs, k),
    ensures
        h <= hs.len(),
{
    let ints = hs.map_values(|x: FileHandleView| x.handle as int);
    let t = ints.to_set();
    let r = set_int_range(1, h + 1);
    assert(r.subset_of(t)) by {
        assert forall|k: int| r.contains(k) implies t.contains(k) by {
            let ku = k as u64;
            assert(handle_used(hs, ku));
            let i = choose|i: int| 0 <= i < hs.len() && #[trigger] hs[i].handle == ku;
            assert(ints[i] == k);
        }
    }
    lemma_int_range(1, h + 1);
    ints.lemma_cardinality_of_set();
    vstd::seq_lib::seq_to_set_is_finite(ints);
    lemma_len_subset(r, t);
}

/// Two handles that are each the least free one are the same.
pub proof fn lemma_least_free_unique(hs: Seq<FileHandleView>, a: u64, b: u64)
    requires
        least_free_handle(hs, a),
        least_free_handle(hs, b),
    ensures
        a == b,
{
    if a < b {
        assert(handle_used(hs, a));
    } else if b < a {
        assert(handle_used(hs, b));
    }
}

/// In a table of distinct handles, a handle occurs at one place only.
pub proof fn lemma_handle_unique(v: FsView, fh: u64, i: int)
    requires
        v.wf(),
        0 <= i < v.handles.len(),
        v.handles[i].handle == fh,
    ensures
        handle_used(v.handles, fh),
        handle_index(v.handles, fh) == i,
{
    let k = handle_index(v.handles, fh);
    assert(0 <= k < v.handles.len() && v.handles[k].handle == fh);
    if k < i {
        assert(v.handles[k].handle != v.handles[i].handle);
    } else if i < k {
        assert(v.handles[i].handle != v.handles[k].handle);
    }
}

impl FS {
    /// Returns the least positive number that no open file uses as its
    /// handle.
    pub fn get_new_handle(&self) -> (r: u64)
        requires
            self@.handles.len() < u64::MAX,
        ensures
            least_free_handle(self@.handles, r),
    {
        let ghost hs = self@.handles;
        let n: usize = self.handles.len();
        let mut handle: u64 = 0;
        loop
            invariant
                hs == self@.handles,
                n == hs.len(),
                hs.len() < u64::MAX,
                handle <= hs.len(),
                forall|k: u64| 1 <= k <= handle ==> handle_used(hs, k),
            decreases hs.len() - handle,
        {
            handle = handle + 1;
            let mut used = false;
            let mut j: usize = 0;
            while j < n
                invariant
                    hs == self@.handles,
                    n == hs.len(),
                    j <= n,
                    used == (exists|i: int| 0 <= i < j && #[trigger] hs[i].handle == handle),
                decreases n - j,
            {
                if self.handles[j].handle == handle {
                    assert(hs[j as int].handle == handle);
                    used = true;
                }
                j = j + 1;
            }
            if !used {
                assert(!handle_used(hs, handle));
                assert forall|k: u64| 1 <= k < handle implies handle_used(hs, k) by {}
                return handle;
            }
            assert(handle_used(hs, handle));
            proof {
                lemma_used_handles_bound(hs, handle);
            }
        }
    }

    /// Takes the handle `fh` out of the table of open files, if it is there.
    pub fn release(&mut self, fh: u64)
        requires
            old(self)@.wf(),
        ensures
            final(self)@ == spec_release(old(self)@, fh),
            final(self)@.wf(),
    {
        let ghost v = self@;
        let n: usize = self.handles.len();
        let mut i: usize = 0;
        while i < n
            invariant
                v == self@,
                v == old(self)@,
                v.wf(),
                n == v.handles.len(),
                i <= n,
                forall|j: int| 0 <= j < i ==> v.handles[j].handle != fh,
            decreases n - i,
        {
            if self.handles[i].handle == fh {
                proof {
                    lemma_handle_unique(v, fh, i as int);
                }
                let _ = self.handles.remove(i);
                assert(self@.handles =~= v.handles.remove(i as int));
                assert(self@ == spec_release(v, fh));
                assert forall|a: int, b: int|
                    0 <= a < b < self@.handles.len() implies #[trigger] self@.handles[a].handle
                    != #[trigger] self@.handles[b].handle by {
                    let a2 = if a < i { a } else { a + 1 };
                    let b2 = if b < i { b } else { b + 1 };
                    assert(v.handles[a2].handle != v.handles[b2].handle);
                }
                assert forall|a: int| 0 <= a < self@.handles.len() implies #[trigger] self@.handles[a].handle >= 1 by {
                    let a2 = if a < i { a } else { a + 1 };
                    assert(v.handles[a2].handle >= 1);
                }
                return;
            }
            i = i + 1;
        }
        assert(!handle_used(v.handles, fh));
    }
}

/// Opens the entry with inode `inode`: gives it the least free handle, with
/// the path of the entry under the source directory, and returns the handle;
/// returns 0 and changes nothing when no entry has that inode.
pub fn get_new_file_handle(fs: &mut FS, inode: u64) -> (r: u64)
    requires
        old(fs)@.wf(),
        old(fs)@.handles.len() < u64::MAX,
    ensures
        (final(fs)@, r) == spec_open(old(fs)@, inode),
        final(fs)@.wf(),
        has_ino(old(fs)@.entries, inode) ==> r >= 1,
{
    let ghost v = fs@;
    let mut n_handle: u64 = 0;
    let n: usize = fs.entries.len();
    let mut i: usize = 0;
    while i < n
        invariant
            v.wf(),
            v.handles.len() < u64::MAX,
            fs@.entries == v.entries,
            fs@.next_inode == v.next_inode,
            fs@.src_path == v.src_path,
            fs@.wf(),
            n == v.entries.len(),
            i <= n,
            has_ino(v.entries, inode) && ino_index(v.entries, inode) < i ==> (fs@, n_handle)
                == spec_open(v, inode) && n_handle >= 1,
            !(has_ino(v.entries, inode) && ino_index(v.entries, inode) < i) ==> fs@ == v
                && n_handle == 0,
        decreases n - i,
    {
        if fs.entries[i].attribute.ino == inode {
            proof {
                lemma_ino_unique(v.entries, inode, i as int);
            }
            let parent: u64 = fs.entries[i].parent_inode;
            let name = fs.entries[i].name.clone();
            let mut src_path = fs.src_path.clone();
            get_entry_path(fs, &mut src_path, parent, &name);
            let handle = fs.get_new_handle();
            n_handle = handle;
            fs.handles.push(FileHandle { handle, path: src_path });
            proof {
                let h = choose|h: u64| least_free_handle(v.handles, h);
                lemma_least_free_unique(v.handles, h, handle);
                assert(fs@.handles =~= v.handles.push(
                    FileHandleView { handle: handle, path: open_path(v, inode) },
                ));
                assert forall|a: int, b: int|
                    0 <= a < b < fs@.handles.len() implies #[trigger] fs@.handles[a].handle
                    != #[trigger] fs@.handles[b].handle by {
                    if b == v.handles.len() {
                        assert(v.handles[a].handle == fs@.handles[a].handle);
                    }
                }
            }
        } else {
            proof {
                if has_ino(v.entries, inode) && ino_index(v.entries, inode) == i {
                    assert(entry_with_ino(v.entries, inode, ino_index(v.entries, inode)));
                }
            }
        }
        i = i + 1;
    }
    proof {
        if has_ino(v.entries, inode) {
            assert(entry_with_ino(v.entries, inode, ino_index(v.entries, inode)));
        }
    }
    n_handle
}

} // verus!
