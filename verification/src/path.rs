use vstd::prelude::*;

use crate::fs::{entry_with_ino, has_ino, ino_index, lemma_ino_unique, FileInfo, FileInfoView, FsView, FS};

verus! {

/// The path, relative to the source directory, of the directory with inode
/// `ino`: the names of its ancestors below the top, each after a `/`. An entry
/// whose parent is 0 or is not in the table counts as the top and adds
/// nothing; an inode that is not in the table has the empty path.
pub open spec fn dir_path(s: Seq<FileInfoView>, ino: u64) -> Seq<char>
    decreases ino,
{
    if has_ino(s, ino) {
        let e = s[ino_index(s, ino)];
        if e.parent_inode != 0 && has_ino(s, e.parent_inode) && e.parent_inode < ino {
            dir_path(s, e.parent_inode) + seq!['/'] + e.name
        } else {
            Seq::empty()
        }
    } else {
        Seq::empty()
    }
}

/// What is appended for a child called `name` of the entry `infos`: the
/// path of `infos` below the top, then `/` and `name`.
pub open spec fn child_path(s: Seq<FileInfoView>, infos: FileInfoView, name: Seq<char>) -> Seq<
    char,
> {
    let above = if infos.parent_inode != 0 && has_ino(s, infos.parent_inode) {
        dir_path(s, infos.parent_inode) + seq!['/'] + infos.name
    } else {
        Seq::empty()
    };
    above + seq!['/'] + name
}

/// What `get_entry_path` appends for an entry called `name` in the directory
/// with inode `parent_inode`: the child path under the first entry of the
/// table when the parent is 0, the child path under the parent when it is in
/// the table, and nothing when it is not.
pub open spec fn entry_path(s: Seq<FileInfoView>, parent_inode: u64, name: Seq<char>) -> Seq<char> {
    if parent_inode == 0 {
        child_path(s, s[0], name)
    } else if has_ino(s, parent_inode) {
        dir_path(s, parent_inode) + seq!['/'] + name
    } else {
        Seq::empty()
    }
}

/// The child path under the entry with inode `ino` is that directory's path
/// followed by `/` and the child's name.
pub proof fn lemma_child_path_of_entry(v: FsView, k: int, name: Seq<char>)
    requires
        v.wf(),
        0 <= k < v.entries.len(),
    ensures
        child_path(v.entries, v.entries[k], name) == dir_path(
            v.entries,
            v.entries[k].attribute.ino,
        ) + seq!['/'] + name,
{
    let s = v.entries;
    let ino = s[k].attribute.ino;
    lemma_ino_unique(s, ino, k);
    assert(s[k].parent_inode < ino);
}

fn append_child(string: &mut String, name: &String)
    ensures
        final(string)@ == old(string)@ + seq!['/'] + name@,
{
    let slash = "/";
    proof {
        reveal_strlit("/");
    }
    string.append(slash);
    string.append(name.as_str());
}

/// Appends to `string` the path of `infos` below the top followed by `/`
/// and `name`, looking parents up in the table.
fn get_entry_path_rec(fs: &FS, string: &mut String, infos: &FileInfo, name: &String)
    requires
        fs@.wf(),
    ensures
        final(string)@ == old(string)@ + child_path(fs@.entries, infos@, name@),
    decreases infos.parent_inode,
{
    let ghost s = fs@.entries;
    let ghost start = string@;
    if infos.parent_inode != 0 {
        let n: usize = fs.entries.len();
        let mut i: usize = 0;
        while i < n
            invariant
                fs@.wf(),
                s == fs@.entries,
                n == s.len(),
                i <= n,
                infos.parent_inode != 0,
                has_ino(s, infos.parent_inode) && ino_index(s, infos.parent_inode) < i ==> string@
                    == start + dir_path(s, infos.parent_inode) + seq!['/'] + infos.name@,
                !(has_ino(s, infos.parent_inode) && ino_index(s, infos.parent_inode) < i)
                    ==> string@ == start,
            decreases n - i,
        {
            let entry = &fs.entries[i];
            if entry.attribute.ino == infos.parent_inode {
                proof {
                    assert(s[i as int] == entry@);
                    lemma_ino_unique(s, infos.parent_inode, i as int);
                    assert(s[i as int].parent_inode < s[i as int].attribute.ino);
                    lemma_child_path_of_entry(fs@, i as int, infos.name@);
                }
                get_entry_path_rec(fs, string, entry, &infos.name);
            } else {
                proof {
                    if has_ino(s, infos.parent_inode) && ino_index(s, infos.parent_inode) == i {
                        assert(entry_with_ino(s, infos.parent_inode, ino_index(s, infos.parent_inode)));
                        assert(s[i as int] == entry@);
                    }
                }
            }
            i = i + 1;
        }
        proof {
            if has_ino(s, infos.parent_inode) {
                let k = ino_index(s, infos.parent_inode);
                assert(entry_with_ino(s, infos.parent_inode, k));
            }
        }
    }
    append_child(string, name);
}

/// Appends to `string` the path, relative to the source directory, of an
/// entry called `name` in the directory with inode `parent_inode` (see
/// [`entry_path`]). A parent of 0 stands for the first entry of the table.
pub fn get_entry_path(fs: &FS, string: &mut String, parent_inode: u64, name: &String)
    requires
        fs@.wf(),
    ensures
        final(string)@ == old(string)@ + entry_path(fs@.entries, parent_inode, name@),
{
    let ghost s = fs@.entries;
    let ghost start = string@;
    if parent_inode == 0 {
        get_entry_path_rec(fs, string, &fs.entries[0], name);
    } else {
        let n: usize = fs.entries.len();
        let mut i: usize = 0;
        while i < n
            invariant
                fs@.wf(),
                s == fs@.entries,
                n == s.len(),
                i <= n,
                parent_inode != 0,
                has_ino(s, parent_inode) && ino_index(s, parent_inode) < i ==> string@ == start
                    + dir_path(s, parent_inode) + seq!['/'] + name@,
                !(has_ino(s, parent_inode) && ino_index(s, parent_inode) < i) ==> string@ == start,
            decreases n - i,
        {
            let entry = &fs.entries[i];
            if entry.attribute.ino == parent_inode {
                proof {
                    assert(s[i as int] == entry@);
                    lemma_ino_unique(s, parent_inode, i as int);
                    lemma_child_path_of_entry(fs@, i as int, name@);
                }
                get_entry_path_rec(fs, string, entry, name);
            } else {
                proof {
                    if has_ino(s, parent_inode) && ino_index(s, parent_inode) == i {
                        assert(entry_with_ino(s, parent_inode, ino_index(s, parent_inode)));
                        assert(s[i as int] == entry@);
                    }
                }
            }
            i = i + 1;
        }
        proof {
            if has_ino(s, parent_inode) {
                let k = ino_index(s, parent_inode);
                assert(entry_with_ino(s, parent_inode, k));
            }
        }
    }
}

} // verus!
