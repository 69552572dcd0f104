# caledfsw1tch

A FUSE filesystem that mirrors a source directory and stores every file's
bytes shifted up by one (255 wraps to 0); reads through the mount point shift
them back down.

- `src/` is the verified library (Verus): the inode table and its invariant
  (`fs.rs`), path construction (`path.rs`), open-file handles (`file.rs`),
  attribute changes (`setattr.rs`), the table built by the scan
  (`get_fs.rs`), the filesystem operations (`ops.rs`), the byte cipher
  (`cipher.rs`), the command-line decisions (`check.rs`) and the laws that
  relate the operations (`laws.rs`).
- `app/` is the program: argument handling, the scan of the source tree, the
  file I/O and the `fuse` callbacks, which hand plain values to the library.
- `tests/` runs the library on concrete values.
