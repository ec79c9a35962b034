//! The error taxonomy of the crate, and the NFS status codes the adapter
//! reports to clients.

use vstd::prelude::*;

verus! {

/// Errors surfaced by the mount driver, the builder and the control plane.
#[derive(Debug)]
pub enum OpendalMountError {
    /// The mount or umount subprocess failed.
    MountFailure { mount_point: String, reason: String },
    /// No backend constructor is registered under this name.
    UnsupportedScheme { scheme: String },
    /// The registry already holds a filesystem at this mount point.
    AlreadyMounted { mount_point: String },
    /// A backend failed to initialize.
    BackendConstruction { cause: String },
    /// A control-plane lookup missed.
    ServiceNotFound { id: u128 },
    /// An underlying I/O failure.
    Io { cause: String },
    /// A builder was finished with a required field missing.
    InvalidConfig { field: String },
}

/// The NFSv3 status codes the adapter returns on failure.
#[derive(Debug, Clone, Copy, PartialEq, Eq, Structural)]
pub enum NfsError {
    /// `NFS3ERR_NOENT`: no such file or directory.
    NoEnt,
    /// `NFS3ERR_IO`: any other I/O failure.
    Io,
    /// `NFS3ERR_NOTSUPP`: the operation is not supported.
    NotSupp,
    /// `NFS3ERR_ROFS`: a write was attempted on a read-only filesystem.
    Rofs,
}

/// What a backend reports when an operation fails.
#[derive(Debug, Clone, Copy, PartialEq, Eq, Structural)]
pub enum BackendError {
    /// The path does not exist.
    NotFound,
    /// Anything else.
    Other,
}

/// The NFS layer maps a backend's not-found to `NFS3ERR_NOENT` and every
/// other backend failure to `NFS3ERR_IO`.
pub fn nfs_status_of(err: BackendError) -> (r: NfsError)
    ensures
        r == (if err == BackendError::NotFound {
            NfsError::NoEnt
        } else {
            NfsError::Io
        }),
{
    match err {
        BackendError::NotFound => NfsError::NoEnt,
        BackendError::Other => NfsError::Io,
    }
}

} // verus!
