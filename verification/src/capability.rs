//! Capability bitmask advertised by a storage backend.

use vstd::prelude::*;

verus! {

/// The set of operations a backend supports. Mirrors the capability record
/// that every accessor reports from `info()`.
#[derive(Clone, Copy, Debug, PartialEq, Eq, Structural)]
pub struct Capability {
    pub read: bool,
    pub write: bool,
    pub append: bool,
    pub create_dir: bool,
    pub seek: bool,
    pub range: bool,
    pub rename: bool,
    pub copy: bool,
    pub delimiter_listing: bool,
    pub blocking: bool,
}

impl Capability {
    /// A capability with nothing supported.
    pub fn none() -> (c: Capability)
        ensures
            c == (Capability {
                read: false,
                write: false,
                append: false,
                create_dir: false,
                seek: false,
                range: false,
                rename: false,
                copy: false,
                delimiter_listing: false,
                blocking: false,
            }),
    {
        Capability {
            read: false,
            write: false,
            append: false,
            create_dir: false,
            seek: false,
            range: false,
            rename: false,
            copy: false,
            delimiter_listing: false,
            blocking: false,
        }
    }

    /// The capability the overlay composite advertises for itself: every
    /// operation of the storage contract is routed, so all are claimed.
    pub fn full() -> (c: Capability)
        ensures
            c == (Capability {
                read: true,
                write: true,
                append: true,
                create_dir: true,
                seek: true,
                range: true,
                rename: true,
                copy: true,
                delimiter_listing: true,
                blocking: true,
            }),
    {
        Capability {
            read: true,
            write: true,
            append: true,
            create_dir: true,
            seek: true,
            range: true,
            rename: true,
            copy: true,
            delimiter_listing: true,
            blocking: true,
        }
    }
}

/// What the NFS layer advertises to clients.
#[derive(Clone, Copy, Debug, PartialEq, Eq, Structural)]
pub enum VfsCapabilities {
    ReadOnly,
    ReadWrite,
}

/// The NFS adapter is read-write exactly when the accessor can write.
pub fn vfs_capabilities(cap: &Capability) -> (v: VfsCapabilities)
    ensures
        v == (if cap.write {
            VfsCapabilities::ReadWrite
        } else {
            VfsCapabilities::ReadOnly
        }),
{
    if cap.write {
        VfsCapabilities::ReadWrite
    } else {
        VfsCapabilities::ReadOnly
    }
}

} // verus!
