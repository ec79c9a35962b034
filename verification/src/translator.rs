//! The id ↔ path translator: a bijection between 64-bit file ids and path
//! strings, seeded with the root pair `1 ↔ "/"`, growing on demand and never
//! shrinking while the process runs.

use vstd::prelude::*;
use crate::errors::NfsError;
use crate::hash;

verus! {

/// The file id reserved for the root directory.
pub const ROOT_ID: u64 = 1;

#[verifier::external_type_specification]
#[verifier::external_body]
#[verifier::reject_recursive_types(L)]
#[verifier::reject_recursive_types(R)]
#[verifier::reject_recursive_types(LS)]
#[verifier::reject_recursive_types(RS)]
pub struct ExBiHashMap<L, R, LS, RS>(bimap::BiHashMap<L, R, LS, RS>);

/// The concrete bimap instantiation the translator uses.
pub type IdPathBiMap = bimap::BiMap<u64, String>;

/// What an id-to-path bimap holds: the map from left values (ids) to right
/// values (paths). The bimap maintains both directions; this one map, with
/// the translator's injectivity invariant, determines both.
pub uninterp spec fn bi_pairs(m: IdPathBiMap) -> Map<u64, Seq<char>>;

/// The empty id-to-path map.
pub open spec fn empty_id_map() -> Map<u64, Seq<char>> {
    Map::empty()
}

/// Relies on bimap::BiHashMap::new: creates a bimap with no pairs.
#[verifier::external_body]
fn bimap_new() -> (m: IdPathBiMap)
    ensures
        bi_pairs(m) == empty_id_map(),
{
    bimap::BiMap::new()
}

/// Relies on bimap::BiHashMap::get_by_left: yields the right value paired
/// with the given left value, if the pair exists.
#[verifier::external_body]
fn bimap_get_by_left(m: &IdPathBiMap, id: u64) -> (r: Option<String>)
    ensures
        match r {
            Some(p) => bi_pairs(*m).dom().contains(id) && p@ == bi_pairs(*m)[id],
            None => !bi_pairs(*m).dom().contains(id),
        },
{
    m.get_by_left(&id).cloned()
}

/// Relies on bimap::BiHashMap::get_by_right: yields the left value paired
/// with the given right value, if the pair exists; the bimap holds at most
/// one pair per right value.
#[verifier::external_body]
fn bimap_get_by_right(m: &IdPathBiMap, path: &str) -> (r: Option<u64>)
    ensures
        match r {
            Some(id) => bi_pairs(*m).dom().contains(id) && bi_pairs(*m)[id] == path@,
            None => forall|id: u64| bi_pairs(*m).dom().contains(id) ==> bi_pairs(*m)[id] != path@,
        },
{
    m.get_by_right(path).copied()
}

/// Relies on bimap::BiHashMap::insert_no_overwrite: inserts the pair and
/// returns Ok exactly when neither the left nor the right value is already
/// paired; on Err the bimap is unchanged.
#[verifier::external_body]
fn bimap_insert_new(m: &mut IdPathBiMap, id: u64, path: String) -> (r: bool)
    ensures
        r == (!bi_pairs(*old(m)).dom().contains(id) && (forall|k: u64|
            bi_pairs(*old(m)).dom().contains(k) ==> bi_pairs(*old(m))[k] != path@)),
        r ==> bi_pairs(*final(m)) == bi_pairs(*old(m)).insert(id, path@),
        !r ==> bi_pairs(*final(m)) == bi_pairs(*old(m)),
{
    m.insert_no_overwrite(id, path).is_ok()
}

/// Does some live id map to this path?
pub open spec fn spec_has_path(m: Map<u64, Seq<char>>, p: Seq<char>) -> bool {
    exists|k: u64| m.dom().contains(k) && m[k] == p
}

/// `m2` keeps every pair of `m1`: the map has only grown.
pub open spec fn spec_extends(m1: Map<u64, Seq<char>>, m2: Map<u64, Seq<char>>) -> bool {
    forall|k: u64| #[trigger] m1.dom().contains(k) ==> m2.dom().contains(k) && m1[k] == m2[k]
}

/// A path live in a map stays live in any extension of it.
pub proof fn lemma_has_path_extends(m1: Map<u64, Seq<char>>, m2: Map<u64, Seq<char>>, p: Seq<char>)
    requires
        spec_extends(m1, m2),
        spec_has_path(m1, p),
    ensures
        spec_has_path(m2, p),
{
    let k = choose|k: u64| m1.dom().contains(k) && m1[k] == p;
    assert(m1.dom().contains(k));
}

/// No two live ids map to one path.
pub open spec fn spec_injective(m: Map<u64, Seq<char>>) -> bool {
    forall|i: u64, j: u64| m.dom().contains(i) && m.dom().contains(j) && m[i] == m[j] ==> i == j
}

/// The id a live path maps from. Meaningful only under [`spec_has_path`];
/// unique under the translator's injectivity invariant.
pub open spec fn spec_id_of(m: Map<u64, Seq<char>>, p: Seq<char>) -> u64 {
    choose|k: u64| m.dom().contains(k) && m[k] == p
}

/// The bidirectional id ↔ path map, guarded by the process-wide lock of the
/// embedding server. Entries are inserted by directory traversal and lookup
/// and never removed.
pub struct PathIdMap {
    inodes: IdPathBiMap,
}

impl View for PathIdMap {
    type V = Map<u64, Seq<char>>;

    closed spec fn view(&self) -> Map<u64, Seq<char>> {
        bi_pairs(self.inodes)
    }
}

impl PathIdMap {
    /// Well-formed: the root pair is present and no two ids map to one path.
    pub open spec fn wf(&self) -> bool {
        &&& self@.dom().contains(ROOT_ID)
        &&& self@[ROOT_ID] == "/"@
        &&& spec_injective(self@)
    }

    /// A fresh translator holding exactly the root pair.
    pub fn new() -> (t: PathIdMap)
        ensures
            t.wf(),
            t@ == Map::<u64, Seq<char>>::empty().insert(ROOT_ID, "/"@),
    {
        let mut m = bimap_new();
        let _ = bimap_insert_new(&mut m, ROOT_ID, "/".to_owned());
        PathIdMap { inodes: m }
    }

    /// Read-only id resolution.
    pub fn path_for(&self, id: u64) -> (r: Option<String>)
        ensures
            match r {
                Some(p) => self@.dom().contains(id) && p@ == self@[id],
                None => !self@.dom().contains(id),
            },
    {
        bimap_get_by_left(&self.inodes, id)
    }

    /// Read-only path resolution: the id of a live path.
    pub fn id_of(&self, path: &str) -> (r: Option<u64>)
        ensures
            match r {
                Some(id) => self@.dom().contains(id) && self@[id] == path@,
                None => !spec_has_path(self@, path@),
            },
    {
        bimap_get_by_right(&self.inodes, path)
    }

    /// Resolve a path to its id. A live path always resolves to its existing
    /// id and leaves the map unchanged. An unknown path is inserted under its
    /// hash when `insert` is set, unless the hash collides with a live id, a
    /// fatal condition reported as an I/O error; without `insert` an unknown
    /// path reports `NoEnt`.
    pub fn id_for(&mut self, path: &str, insert: bool) -> (r: Result<u64, NfsError>)
        requires
            old(self).wf(),
        ensures
            final(self).wf(),
            spec_extends(old(self)@, final(self)@),
            (r is Ok) <==> (spec_has_path(old(self)@, path@) || (insert && !old(
                self,
            )@.dom().contains(hash::spec_path_id(path@)))),
            match r {
                Ok(id) => {
                    &&& final(self)@.dom().contains(id)
                    &&& final(self)@[id] == path@
                    &&& (spec_has_path(old(self)@, path@) ==> final(self)@ == old(self)@)
                    &&& (!spec_has_path(old(self)@, path@) ==> id == hash::spec_path_id(path@)
                        && final(self)@ == old(self)@.insert(id, path@))
                },
                Err(e) => {
                    &&& final(self)@ == old(self)@
                    &&& !spec_has_path(old(self)@, path@)
                    &&& e == (if insert {
                        NfsError::Io
                    } else {
                        NfsError::NoEnt
                    })
                },
            },
    {
        match bimap_get_by_right(&self.inodes, path) {
            Some(id) => Ok(id),
            None => {
                if insert {
                    let id = hash::path_id(path);
                    let ok = bimap_insert_new(&mut self.inodes, id, path.to_owned());
                    if ok {
                        proof {
                            assert forall|i: u64, j: u64|
                                self@.dom().contains(i) && self@.dom().contains(j) && self@[i]
                                    == self@[j] implies i == j by {
                                if i != id && j != id {
                                    assert(old(self)@.dom().contains(i));
                                    assert(old(self)@.dom().contains(j));
                                }
                            }
                        }
                        Ok(id)
                    } else {
                        Err(NfsError::Io)
                    }
                } else {
                    Err(NfsError::NoEnt)
                }
            },
        }
    }
}

/// Every live path round-trips: the id it resolves to is unique, and that id
/// resolves back to the very same path. With the contracts of [`PathIdMap::id_for`]
/// and [`PathIdMap::path_for`], this pins `path_for(id_for(p)) == p` for every
/// live path `p`, and the stability of `id_for(p)` across calls.
pub proof fn lemma_path_id_round_trip(t: &PathIdMap, p: Seq<char>)
    requires
        t.wf(),
        spec_has_path(t@, p),
    ensures
        t@.dom().contains(spec_id_of(t@, p)),
        t@[spec_id_of(t@, p)] == p,
        forall|k: u64| t@.dom().contains(k) && t@[k] == p ==> k == spec_id_of(t@, p),
{
    let id = spec_id_of(t@, p);
    assert(t@.dom().contains(id) && t@[id] == p);
}

/// The root is pinned: a well-formed translator always maps id 1 to `/`.
pub proof fn lemma_root_pinned(t: &PathIdMap)
    requires
        t.wf(),
    ensures
        t@.dom().contains(ROOT_ID),
        t@[ROOT_ID] == "/"@,
{
}

} // verus!
