//! The stable 64-bit path hash that file ids are derived from.
//!
//! Ids must be deterministic for a given path within a process run (and are
//! in fact deterministic across runs): the hash is a pure function of the
//! path's characters, FNV-1a folded over them.

use vstd::prelude::*;

verus! {

pub const FNV_OFFSET_BASIS: u64 = 0xcbf29ce484222325;

pub const FNV_PRIME: u64 = 0x100000001b3;

/// One FNV-1a step: mix one character into the running hash.
pub open spec fn spec_fnv_step(h: u64, c: char) -> u64 {
    vstd::wrapping::u64_specs::wrapping_mul(h ^ (c as u64), FNV_PRIME)
}

/// FNV-1a over a character sequence.
pub open spec fn spec_fnv(s: Seq<char>) -> u64
    decreases s.len(),
{
    if s.len() == 0 {
        FNV_OFFSET_BASIS
    } else {
        spec_fnv_step(spec_fnv(s.drop_last()), s.last())
    }
}

/// The file id of a path: its FNV-1a hash. The root directory does not go
/// through this function; it is pinned to id 1 by the translator.
pub open spec fn spec_path_id(path: Seq<char>) -> u64 {
    spec_fnv(path)
}

/// Compute the id of `path`.
pub fn path_id(path: &str) -> (id: u64)
    ensures
        id == spec_path_id(path@),
{
    let len: usize = path.unicode_len();
    let mut h: u64 = FNV_OFFSET_BASIS;
    let mut i: usize = 0;
    proof {
        assert(path@.subrange(0, 0) =~= Seq::<char>::empty());
    }
    while i < len
        invariant
            len == path@.len(),
            i <= len,
            h == spec_fnv(path@.subrange(0, i as int)),
        decreases len - i,
    {
        let c = path.get_char(i);
        proof {
            assert(path@.subrange(0, i + 1).drop_last() =~= path@.subrange(0, i as int));
            assert(path@.subrange(0, i + 1).last() == path@[i as int]);
        }
        h = (h ^ (c as u64)).wrapping_mul(FNV_PRIME);
        i = i + 1;
    }
    proof {
        assert(path@.subrange(0, len as int) =~= path@);
    }
    h
}

} // verus!
