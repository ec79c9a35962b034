//! NFSv3 attribute fabrication: the fixed-shape `fattr3` record the adapter
//! builds from a backend's metadata.

use vstd::prelude::*;

verus! {

/// File type as NFSv3 reports it: regular file or directory.
#[derive(Debug, Clone, Copy, PartialEq, Eq, Structural)]
pub enum Ftype {
    Regular,
    Directory,
}

/// An NFSv3 timestamp; the adapter reports whole seconds only.
#[derive(Debug, Clone, Copy, PartialEq, Eq, Structural)]
pub struct NfsTime {
    pub seconds: u32,
    pub nseconds: u32,
}

/// The NFSv3 file attribute record.
#[derive(Debug, Clone, Copy, PartialEq, Eq, Structural)]
pub struct Fattr {
    pub ftype: Ftype,
    pub mode: u32,
    pub nlink: u32,
    pub uid: u32,
    pub gid: u32,
    pub size: u64,
    pub used: u64,
    pub rdev1: u32,
    pub rdev2: u32,
    pub fsid: u64,
    pub fileid: u64,
    pub atime: NfsTime,
    pub mtime: NfsTime,
    pub ctime: NfsTime,
}

/// What the adapter reads from a backend's stat result.
#[derive(Debug, Clone, Copy, PartialEq, Eq)]
pub struct FileMeta {
    pub is_dir: bool,
    pub content_length: u64,
    /// Last-modified time in whole seconds, when the backend knows it.
    pub last_modified: Option<u32>,
}

/// Directories report mode 0o777, regular files 0o755.
pub const MODE_DIR: u32 = 0o777;

pub const MODE_FILE: u32 = 0o755;

/// The static owner reported for every entry.
pub const STATIC_UID: u32 = 507;

pub const STATIC_GID: u32 = 507;

/// The timestamp reported for a backend: the last-modified second, or zero
/// when the backend does not know it.
pub open spec fn spec_mtime_of(meta: FileMeta) -> NfsTime {
    match meta.last_modified {
        Some(s) => NfsTime { seconds: s, nseconds: 0 },
        None => NfsTime { seconds: 0, nseconds: 0 },
    }
}

/// The attribute record fabricated for id `id` with metadata `meta`.
pub open spec fn spec_fattr_for(id: u64, meta: FileMeta) -> Fattr {
    Fattr {
        ftype: if meta.is_dir {
            Ftype::Directory
        } else {
            Ftype::Regular
        },
        mode: if meta.is_dir {
            MODE_DIR
        } else {
            MODE_FILE
        },
        nlink: 0,
        uid: STATIC_UID,
        gid: STATIC_GID,
        size: meta.content_length,
        used: meta.content_length,
        rdev1: 0,
        rdev2: 0,
        fsid: 0,
        fileid: id,
        atime: spec_mtime_of(meta),
        mtime: spec_mtime_of(meta),
        ctime: spec_mtime_of(meta),
    }
}

/// Build the attribute record for `id` from `meta`.
pub fn fattr_for(id: u64, meta: &FileMeta) -> (r: Fattr)
    ensures
        r == spec_fattr_for(id, *meta),
{
    let t = match meta.last_modified {
        Some(s) => NfsTime { seconds: s, nseconds: 0 },
        None => NfsTime { seconds: 0, nseconds: 0 },
    };
    Fattr {
        ftype: if meta.is_dir {
            Ftype::Directory
        } else {
            Ftype::Regular
        },
        mode: if meta.is_dir {
            MODE_DIR
        } else {
            MODE_FILE
        },
        nlink: 0,
        uid: STATIC_UID,
        gid: STATIC_GID,
        size: meta.content_length,
        used: meta.content_length,
        rdev1: 0,
        rdev2: 0,
        fsid: 0,
        fileid: id,
        atime: t,
        mtime: t,
        ctime: t,
    }
}

} // verus!
