//! A snapshot of what the file system reports for one entry, as plain values.

use vstd::prelude::*;

verus! {

/// The kind of a file-system entry, fixed by the operating system.
#[derive(Clone, Copy, Debug, PartialEq, Eq, Structural)]
pub enum FileKind {
    Directory,
    Symlink,
    CharDevice,
    BlockDevice,
    Fifo,
    Socket,
    Regular,
}

/// What a symbolic link points at, when the link itself could be read.
#[derive(Clone, Debug)]
pub struct LinkTarget {
    /// The target as the link stores it.
    pub text: String,
    /// The kind of the resolved target, not following a further link.
    pub kind: FileKind,
    /// The resolved target's mode bits.
    pub mode: u32,
}

/// What is known of an entry, read without following a final symbolic link.
#[derive(Clone, Debug)]
pub struct EntryMeta {
    pub kind: FileKind,
    /// Type and permission bits, as `st_mode`.
    pub mode: u32,
    pub nlink: u64,
    pub uid: u32,
    pub gid: u32,
    /// Size in bytes.
    pub size: u64,
    /// The device number of a device node.
    pub rdev: u64,
    /// Allocated blocks of 512 bytes.
    pub blocks: u64,
    /// Modification time in seconds since the epoch, when the system reports one.
    pub mtime: Option<i64>,
    /// Whether a POSIX access ACL is attached.
    pub has_acl: bool,
    /// The owner's name, when the user database knows the uid.
    pub user_name: Option<String>,
    /// The group's name, when the group database knows the gid.
    pub group_name: Option<String>,
    /// For a symbolic link: whether following it fails.
    pub broken: bool,
    /// For a symbolic link: its target, or `None` when the link cannot be read.
    pub link: Option<LinkTarget>,
}

} // verus!
