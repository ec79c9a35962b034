//! A policy-driven overlay filesystem served over NFSv3.
//!
//! Two storage backends, a `base` and an `overlay`, are composed into one
//! virtual tree. A pure policy decides, for every operation on a path, which
//! backend owns the operation, and merges paged directory listings from the
//! two sides. An NFS adapter translates 64-bit file ids to string paths and
//! fabricates NFSv3 attributes; a mount module builds the platform mount
//! command lines; a small control plane keeps a registry of running services.

pub mod capability;
pub mod text;
pub mod errors;
pub mod policy;
pub mod hash;
pub mod translator;
pub mod attr;
pub mod store;
pub mod overlay;
pub mod stream;
pub mod fs;
pub mod mount;
pub mod control;
