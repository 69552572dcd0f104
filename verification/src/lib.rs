//! The verified core of an encrypting pass-through filesystem.
//!
//! The filesystem mirrors a source directory: every entry of the source tree
//! gets an inode, and file contents are stored shifted by one byte value, so
//! that what is read through the mount point is the stored byte minus one and
//! what is written is stored as the written byte plus one.
//!
//! This crate holds the inode table, the open-file handle table, path
//! construction, attribute updates and the byte cipher, each with a contract;
//! the mounting, the directory scan and the file I/O stand around it.
pub mod attr;
pub mod check;
pub mod cipher;
pub mod file;
pub mod fs;
pub mod get_fs;
pub mod laws;
pub mod laws_data;
pub mod laws_table;
pub mod ops;
pub mod path;
pub mod setattr;

pub use attr::{FileAttr, FileType, Timespec};
pub use file::get_new_file_handle;
pub use fs::{FileHandle, FileInfo, FS};
pub use path::get_entry_path;
pub use setattr::change_file_attr;
