use vstd::prelude::*;

verus! {

/// A point in time: seconds since the epoch and nanoseconds within the second.
#[derive(Clone, Copy, Debug, PartialEq, Eq, Structural)]
pub struct Timespec {
    pub sec: i64,
    pub nsec: i32,
}

/// The kind of a filesystem entry.
#[derive(Clone, Copy, Debug, PartialEq, Eq, Structural)]
pub enum FileType {
    NamedPipe,
    CharDevice,
    BlockDevice,
    Directory,
    RegularFile,
    Symlink,
    Socket,
}

/// The attributes reported for an inode.
#[derive(Clone, Copy, Debug, PartialEq, Eq, Structural)]
pub struct FileAttr {
    pub ino: u64,
    pub size: u64,
    pub blocks: u64,
    pub atime: Timespec,
    pub mtime: Timespec,
    pub ctime: Timespec,
    pub crtime: Timespec,
    pub kind: FileType,
    pub perm: u16,
    pub nlink: u32,
    pub uid: u32,
    pub gid: u32,
    pub rdev: u32,
    pub flags: u32,
}

/// The owner that every entry of the filesystem starts with.
pub const DEFAULT_UID: u32 = 501;

/// The group that every entry of the filesystem starts with.
pub const DEFAULT_GID: u32 = 20;

/// The time stamp given to every entry when it enters the table.
pub open spec fn spec_create_time() -> Timespec {
    Timespec { sec: 0, nsec: 0 }
}

/// Returns the time stamp given to every entry when it enters the table.
pub fn create_time() -> (t: Timespec)
    ensures
        t == spec_create_time(),
{
    Timespec { sec: 0, nsec: 0 }
}

/// How long the kernel may keep an attribute or entry reply.
pub open spec fn spec_reply_ttl() -> Timespec {
    Timespec { sec: 1, nsec: 0 }
}

/// Returns how long the kernel may keep an attribute or entry reply.
pub fn reply_ttl() -> (t: Timespec)
    ensures
        t == spec_reply_ttl(),
{
    Timespec { sec: 1, nsec: 0 }
}

} // verus!
