use vstd::prelude::*;

use crate::cipher::{decode_byte, decode_seq, encode_byte, encode_seq};
use crate::fs::{entry_with_ino, has_ino, lemma_ino_unique, FsView};
use crate::path::{entry_path, lemma_child_path_of_entry};

verus! {

/// A written byte is stored as the next byte value modulo 256, and a stored
/// byte is read as the previous byte value modulo 256.
pub proof fn lemma_byte_shift(b: u8)
    ensures
        encode_byte(b) as int == (b as int + 1) % 256,
        decode_byte(b) as int == (b as int + 255) % 256,
        (decode_byte(b) as int + 1) % 256 == b as int,
{
}

/// Encoding and decoding work byte by byte and keep the length: the `i`-th
/// stored byte is the `i`-th written byte plus one modulo 256, and the `i`-th
/// read byte is the `i`-th stored byte minus one modulo 256.
pub proof fn lemma_cipher_bytes(s: Seq<u8>)
    ensures
        encode_seq(s).len() == s.len(),
        decode_seq(s).len() == s.len(),
        forall|i: int| 0 <= i < s.len() ==> #[trigger] encode_seq(s)[i] as int == (s[i] as int + 1) % 256,
        forall|i: int| 0 <= i < s.len() ==> #[trigger] decode_seq(s)[i] as int == (s[i] as int + 255) % 256,
{
}

/// A read from `offset` hands over one byte for each stored byte from
/// `offset` on, each the stored byte minus one modulo 256.
pub proof fn lemma_read_bytes(content: Seq<u8>, offset: int)
    requires
        0 <= offset <= content.len(),
    ensures
        decode_seq(content).skip(offset).len() == content.len() - offset,
        forall|i: int|
            0 <= i < content.len() - offset ==> #[trigger] decode_seq(content).skip(offset)[i] as int
                == (content[offset + i] as int + 255) % 256,
{
}

/// The path of an entry created in directory `d` is the path under which
/// `d` itself sits in its parent, then `/` and the entry's name.
pub proof fn lemma_path_step(v: FsView, k: int, name: Seq<char>)
    requires
        v.wf(),
        0 <= k < v.entries.len(),
        v.entries[k].parent_inode != 0,
        has_ino(v.entries, v.entries[k].parent_inode),
    ensures
        entry_path(v.entries, v.entries[k].parent_inode, v.entries[k].name) + seq!['/'] + name
            == entry_path(v.entries, v.entries[k].attribute.ino, name),
{
    let s = v.entries;
    let d = s[k];
    lemma_ino_unique(s, d.attribute.ino, k);
    assert(d.parent_inode < d.attribute.ino);
    assert(d.attribute.ino != 0);
}

/// The path of an entry created in a directory at the top (one whose parent
/// is 0 or not in the table) is `/` followed by the entry's name.
pub proof fn lemma_path_top(v: FsView, k: int, name: Seq<char>)
    requires
        v.wf(),
        0 <= k < v.entries.len(),
        v.entries[k].parent_inode == 0 || !has_ino(v.entries, v.entries[k].parent_inode),
    ensures
        entry_path(v.entries, v.entries[k].attribute.ino, name) == seq!['/'] + name,
{
    let s = v.entries;
    let d = s[k];
    lemma_ino_unique(s, d.attribute.ino, k);
    assert(d.parent_inode < d.attribute.ino);
    assert(seq!['/'] + name =~= Seq::<char>::empty() + seq!['/'] + name);
}

/// Parent 0 stands for the first entry of the table.
pub proof fn lemma_path_zero(v: FsView, name: Seq<char>)
    requires
        v.wf(),
    ensures
        entry_path(v.entries, 0, name) == entry_path(v.entries, v.entries[0].attribute.ino, name),
{
    let s = v.entries;
    lemma_ino_unique(s, s[0].attribute.ino, 0);
    assert(s[0].parent_inode < s[0].attribute.ino);
    lemma_child_path_of_entry(v, 0, name);
}

/// A directory that the table does not hold gives no path at all.
pub proof fn lemma_path_missing(v: FsView, parent: u64, name: Seq<char>)
    requires
        parent != 0,
        !has_ino(v.entries, parent),
    ensures
        entry_path(v.entries, parent, name) == Seq::<char>::empty(),
{
}

} // verus!
