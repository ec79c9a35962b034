//! Building the platform-specific mount and umount command lines. The
//! embedding process spawns them; everything here only computes the exact
//! program and argument vector.

use vstd::prelude::*;

pub mod linux;
pub mod macos;
pub mod windows;

verus! {

/// A command to spawn: the program and its argument vector.
#[derive(Debug)]
pub struct MountCommand {
    pub program: String,
    pub args: Vec<String>,
}

/// The views of an argument vector.
pub open spec fn args_view(s: Seq<String>) -> Seq<Seq<char>> {
    s.map_values(|x: String| x@)
}

/// Attaching the served tree to the host: the embedding process spawns the
/// platform command built by [`linux`], [`macos`] or [`windows`]; nothing
/// is computed here.
pub fn mount() {
}

} // verus!
