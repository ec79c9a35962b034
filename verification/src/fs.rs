//! The NFSv3 filesystem adapter: translates 64-bit file ids to paths,
//! forwards to the overlay composite, and fabricates NFSv3 attributes.

use vstd::prelude::*;
use crate::attr::{fattr_for, spec_fattr_for, Fattr};
use crate::capability::{vfs_capabilities, VfsCapabilities};
use crate::errors::NfsError;
use crate::hash::spec_path_id;
use crate::overlay::{spec_write_op, OverlayBackend};
use crate::policy::{Policy, PolicyOperation, Source};
use crate::store::{
    spec_create_dir_map, spec_read_range, spec_stat_result, spec_write_map, MemBackend,
};
use crate::text::{join_path, spec_join_path};
use crate::translator::{
    lemma_has_path_extends, spec_extends, spec_has_path, spec_id_of, spec_injective, PathIdMap,
    ROOT_ID,
};

verus! {

/// One entry of a `readdir` page.
pub struct DirEntry {
    pub fileid: u64,
    pub name: String,
    pub attr: Fattr,
}

/// The mathematical shadow of a [`DirEntry`].
pub struct DirEntryView {
    pub fileid: u64,
    pub name: Seq<char>,
    pub attr: Fattr,
}

impl View for DirEntry {
    type V = DirEntryView;

    open spec fn view(&self) -> DirEntryView {
        DirEntryView { fileid: self.fileid, name: self.name@, attr: self.attr }
    }
}

/// The views of a sequence of directory entries.
pub open spec fn dir_entries_view(s: Seq<DirEntry>) -> Seq<DirEntryView> {
    s.map_values(|e: DirEntry| e@)
}

/// One `readdir` page: the entries, and whether the listing was drained.
pub struct ReadDirResult {
    pub entries: Vec<DirEntry>,
    pub end: bool,
}

/// The attribute changes an NFS client may request. The adapter accepts and
/// ignores them: the object stores do not support permission or ownership
/// mutation, so `setattr` reports the current attributes unchanged.
#[derive(Debug, Clone, Copy, PartialEq, Eq)]
pub struct Sattr {
    pub mode: Option<u32>,
    pub uid: Option<u32>,
    pub gid: Option<u32>,
    pub size: Option<u64>,
}

/// What `getattr` reports for id `id` against path `p`: the stat of the
/// owner backend, as an attribute record; a failed stat is reported as
/// `NoEnt`.
pub open spec fn spec_getattr_path<P: Policy + Copy>(
    fs: OverlayBackend<MemBackend, MemBackend, P>,
    id: u64,
    p: Seq<char>,
) -> Result<Fattr, NfsError> {
    match spec_stat_result(fs.spec_selected(p, PolicyOperation::Stat), p) {
        Ok(m) => Ok(spec_fattr_for(id, m)),
        Err(_) => Err(NfsError::NoEnt),
    }
}

/// What `getattr` reports for id `id`: `NoEnt` for a dead id, otherwise the
/// stat of its path.
pub open spec fn spec_getattr<P: Policy + Copy>(
    fs: OverlayBackend<MemBackend, MemBackend, P>,
    ids: Map<u64, Seq<char>>,
    id: u64,
) -> Result<Fattr, NfsError> {
    if ids.dom().contains(id) {
        spec_getattr_path(fs, id, ids[id])
    } else {
        Err(NfsError::NoEnt)
    }
}

/// The id a path resolves to when insertion is allowed: its live id, or its
/// hash when that is free, or nothing on a hash collision.
pub open spec fn spec_resolve_id(ids: Map<u64, Seq<char>>, p: Seq<char>) -> Option<u64> {
    if spec_has_path(ids, p) {
        Some(spec_id_of(ids, p))
    } else if !ids.dom().contains(spec_path_id(p)) {
        Some(spec_path_id(p))
    } else {
        None
    }
}

/// The id map after a resolving insertion of `p`.
pub open spec fn spec_ids_after_resolve(ids: Map<u64, Seq<char>>, p: Seq<char>) -> Map<
    u64,
    Seq<char>,
> {
    if !spec_has_path(ids, p) && !ids.dom().contains(spec_path_id(p)) {
        ids.insert(spec_path_id(p), p)
    } else {
        ids
    }
}

/// The id map after every entry of a listing is resolved in order, front
/// to back, each new path inserted under its hash.
pub open spec fn spec_ids_after_listing(
    ids: Map<u64, Seq<char>>,
    l: Seq<crate::policy::EntryView>,
) -> Map<u64, Seq<char>>
    decreases l.len(),
{
    if l.len() == 0 {
        ids
    } else {
        spec_ids_after_resolve(spec_ids_after_listing(ids, l.drop_last()), l.last().path)
    }
}

/// Can every entry of the listing be resolved to an id, inserting front to
/// back: no new path's hash collides with an id live at its turn.
pub open spec fn spec_listing_resolvable(
    ids: Map<u64, Seq<char>>,
    l: Seq<crate::policy::EntryView>,
) -> bool
    decreases l.len(),
{
    if l.len() == 0 {
        true
    } else {
        spec_listing_resolvable(ids, l.drop_last()) && spec_resolve_id(
            spec_ids_after_listing(ids, l.drop_last()),
            l.last().path,
        ) is Some
    }
}

/// Resolvability of a listing passes to each of its prefixes.
proof fn lemma_resolvable_prefix(
    ids: Map<u64, Seq<char>>,
    l: Seq<crate::policy::EntryView>,
    n: int,
)
    requires
        0 <= n <= l.len(),
        spec_listing_resolvable(ids, l),
    ensures
        spec_listing_resolvable(ids, l.subrange(0, n)),
    decreases l.len() - n,
{
    if n == l.len() {
        assert(l.subrange(0, n) =~= l);
    } else {
        lemma_resolvable_prefix(ids, l.drop_last(), n);
        assert(l.drop_last().subrange(0, n) =~= l.subrange(0, n));
    }
}

/// Did a write of `data` to `path` happen between `f0` and `f1`: the owner
/// side took the write, the other side is untouched.
pub open spec fn spec_fs_write<P: Policy + Copy>(
    f0: OverlayBackend<MemBackend, MemBackend, P>,
    path: Seq<char>,
    data: Seq<u8>,
    append: bool,
    f1: OverlayBackend<MemBackend, MemBackend, P>,
) -> bool {
    &&& f1.policy == f0.policy
    &&& match f0.policy.spec_owner(path, spec_write_op(append)) {
        Source::Base => f1.base@ == spec_write_map(f0.base@, path, data, append)
            && f1.base.spec_cap() == f0.base.spec_cap() && f1.overlay == f0.overlay,
        Source::Overlay => f1.overlay@ == spec_write_map(f0.overlay@, path, data, append)
            && f1.overlay.spec_cap() == f0.overlay.spec_cap() && f1.base == f0.base,
    }
}

/// Did a directory creation at `path` happen between `f0` and `f1`.
pub open spec fn spec_fs_create_dir<P: Policy + Copy>(
    f0: OverlayBackend<MemBackend, MemBackend, P>,
    path: Seq<char>,
    f1: OverlayBackend<MemBackend, MemBackend, P>,
) -> bool {
    &&& f1.policy == f0.policy
    &&& match f0.policy.spec_owner(path, PolicyOperation::CreateDir) {
        Source::Base => f1.base@ == spec_create_dir_map(f0.base@, path) && f1.base.spec_cap()
            == f0.base.spec_cap() && f1.overlay == f0.overlay,
        Source::Overlay => f1.overlay@ == spec_create_dir_map(f0.overlay@, path)
            && f1.overlay.spec_cap() == f0.overlay.spec_cap() && f1.base == f0.base,
    }
}

/// The full composite listing of `dir`: one page per side, merged by the
/// policy.
pub open spec fn spec_listing<P: Policy + Copy>(
    fs: OverlayBackend<MemBackend, MemBackend, P>,
    dir: Seq<char>,
) -> Seq<crate::policy::EntryView> {
    crate::overlay::page_entries(
        fs.policy.spec_merge(Some(fs.base.spec_list(dir)), Some(fs.overlay.spec_list(dir))),
    )
}

/// The annotated listing: each entry resolved to its id and attributes,
/// with trailing slashes trimmed from names; entries whose path has no live
/// id or whose stat fails are dropped.
pub open spec fn spec_annotate<P: Policy + Copy>(
    fs: OverlayBackend<MemBackend, MemBackend, P>,
    ids: Map<u64, Seq<char>>,
    l: Seq<crate::policy::EntryView>,
) -> Seq<DirEntryView>
    decreases l.len(),
{
    if l.len() == 0 {
        Seq::empty()
    } else {
        let pre = spec_annotate(fs, ids, l.drop_last());
        let e = l.last();
        if spec_has_path(ids, e.path) {
            let id = spec_id_of(ids, e.path);
            match spec_getattr_path(fs, id, e.path) {
                Ok(a) => pre.push(
                    DirEntryView {
                        fileid: id,
                        name: crate::text::spec_trim_end_slashes(e.name),
                        attr: a,
                    },
                ),
                Err(_) => pre,
            }
        } else {
            pre
        }
    }
}

/// Growing the id map does not change the annotation of entries whose paths
/// are already live: their ids are pinned by injectivity.
pub proof fn lemma_annotate_grow<P: Policy + Copy>(
    fs: OverlayBackend<MemBackend, MemBackend, P>,
    ids: Map<u64, Seq<char>>,
    ids2: Map<u64, Seq<char>>,
    l: Seq<crate::policy::EntryView>,
)
    requires
        spec_extends(ids, ids2),
        spec_injective(ids2),
        forall|k: int| 0 <= k < l.len() ==> spec_has_path(ids, #[trigger] l[k].path),
    ensures
        spec_annotate(fs, ids2, l) == spec_annotate(fs, ids, l),
    decreases l.len(),
{
    if l.len() > 0 {
        assert(forall|k: int|
            0 <= k < l.drop_last().len() ==> spec_has_path(ids, #[trigger] l.drop_last()[k].path));
        lemma_annotate_grow(fs, ids, ids2, l.drop_last());
        let e = l.last();
        assert(spec_has_path(ids, l[l.len() - 1].path));
        let k1 = spec_id_of(ids, e.path);
        assert(ids.dom().contains(k1) && ids[k1] == e.path);
        assert(ids2.dom().contains(k1) && ids2[k1] == e.path);
        let k2 = spec_id_of(ids2, e.path);
        assert(ids2.dom().contains(k2) && ids2[k2] == e.path);
        assert(k2 == k1);
    }
}

/// Where the reported window starts: index zero for a zero cursor, one past
/// the first entry carrying the cursor id, or the end when no entry does.
pub open spec fn spec_start(s: Seq<DirEntryView>, cursor: u64) -> int
    decreases s.len(),
{
    if cursor == 0 {
        0
    } else if s.len() == 0 {
        0
    } else if s[0].fileid == cursor {
        1
    } else {
        1 + spec_start(s.subrange(1, s.len() as int), cursor)
    }
}

proof fn lemma_start_found(s: Seq<DirEntryView>, cursor: u64, j: int)
    requires
        cursor != 0,
        0 <= j < s.len(),
        s[j].fileid == cursor,
        forall|k: int| 0 <= k < j ==> s[k].fileid != cursor,
    ensures
        spec_start(s, cursor) == j + 1,
    decreases j,
{
    if j > 0 {
        let t = s.subrange(1, s.len() as int);
        assert(t[j - 1] == s[j]);
        assert forall|k: int| 0 <= k < j - 1 implies t[k].fileid != cursor by {
            assert(t[k] == s[k + 1]);
        }
        lemma_start_found(t, cursor, j - 1);
    }
}

proof fn lemma_start_nomatch(s: Seq<DirEntryView>, cursor: u64)
    requires
        cursor != 0,
        forall|k: int| 0 <= k < s.len() ==> s[k].fileid != cursor,
    ensures
        spec_start(s, cursor) == s.len(),
    decreases s.len(),
{
    if s.len() > 0 {
        let t = s.subrange(1, s.len() as int);
        assert forall|k: int| 0 <= k < t.len() implies t[k].fileid != cursor by {
            assert(t[k] == s[k + 1]);
        }
        lemma_start_nomatch(t, cursor);
    }
}

/// Select the `readdir` window from an annotated listing: skip entries up
/// to and including the one with id `start_after` (none when it is zero,
/// all when no entry has it), then take at most `max_entries`. The window
/// is final exactly when it reaches the end of the listing.
pub fn select_window(entries: Vec<DirEntry>, start_after: u64, max_entries: usize) -> (r: (
    Vec<DirEntry>,
    bool,
))
    ensures
        ({
            let s = dir_entries_view(entries@);
            let st = spec_start(s, start_after);
            let cnt = if s.len() - st < max_entries {
                s.len() - st
            } else {
                max_entries as int
            };
            &&& dir_entries_view(r.0@) == s.subrange(st, st + cnt)
            &&& r.1 == (st + cnt == s.len())
            &&& r.0@.len() <= max_entries
        }),
{
    let ghost orig = entries@;
    let ghost s = dir_entries_view(entries@);
    let len: usize = entries.len();
    let mut st: usize = 0;
    if start_after != 0 {
        let mut j: usize = 0;
        let mut found = false;
        while j < len && !found
            invariant
                len == entries@.len(),
                s == dir_entries_view(entries@),
                j <= len,
                forall|k: int| 0 <= k < j ==> s[k].fileid != start_after,
                found ==> j < len && s[j as int].fileid == start_after,
            decreases len - j + (if found {
                0int
            } else {
                1int
            }),
        {
            proof {
                assert(s[j as int] == entries@[j as int]@);
            }
            if entries[j].fileid == start_after {
                found = true;
            } else {
                j = j + 1;
            }
        }
        if found {
            st = j + 1;
            proof {
                lemma_start_found(s, start_after, j as int);
            }
        } else {
            st = len;
            proof {
                lemma_start_nomatch(s, start_after);
            }
        }
    }
    proof {
        assert(st as int == spec_start(s, start_after));
    }
    let remaining: usize = len - st;
    let cnt: usize = if remaining < max_entries {
        remaining
    } else {
        max_entries
    };
    let endpos: usize = st + cnt;
    let endflag = endpos == len;
    let mut out = entries;
    out.truncate(endpos);
    let mut dropped: usize = 0;
    while dropped < st
        invariant
            dropped <= st,
            st + cnt == endpos <= orig.len(),
            out@ == orig.subrange(dropped as int, endpos as int),
        decreases st - dropped,
    {
        let _ = out.remove(0);
        proof {
            assert(orig.subrange(dropped as int, endpos as int).remove(0) =~= orig.subrange(
                dropped + 1,
                endpos as int,
            ));
        }
        dropped = dropped + 1;
    }
    proof {
        assert(dir_entries_view(orig.subrange(st as int, endpos as int)) =~= s.subrange(
            st as int,
            st as int + cnt as int,
        ));
    }
    (out, endflag)
}

/// A write through the composite followed by a read of the same path, at
/// offset zero and with the written length, yields the bytes written,
/// whenever the policy routes the write and the read to the same backend.
pub proof fn lemma_composite_write_read_round_trip<P: Policy + Copy>(
    f0: OverlayBackend<MemBackend, MemBackend, P>,
    f1: OverlayBackend<MemBackend, MemBackend, P>,
    p: Seq<char>,
    data: Seq<u8>,
)
    requires
        spec_fs_write(f0, p, data, false, f1),
        f0.policy.spec_owner(p, PolicyOperation::Write) == f0.policy.spec_owner(
            p,
            PolicyOperation::Read,
        ),
        data.len() <= u64::MAX,
    ensures
        crate::store::spec_read_result(
            f1.spec_selected(p, PolicyOperation::Read),
            p,
            0,
            data.len() as u64,
        ) == Ok::<Seq<u8>, crate::errors::BackendError>(data),
{
    match f0.policy.spec_owner(p, PolicyOperation::Write) {
        Source::Base => {
            crate::store::lemma_write_read_round_trip(f0.base@, p, data);
        },
        Source::Overlay => {
            crate::store::lemma_write_read_round_trip(f0.overlay@, p, data);
        },
    }
}

/// Under the base-only policy the overlay is completely masked: every
/// single-backend operation is answered by the base, and the merged listing
/// is the base's listing alone.
pub proof fn lemma_base_only_masks_overlay(
    b: OverlayBackend<MemBackend, MemBackend, crate::policy::BaseOnlyPolicy>,
    path: Seq<char>,
    op: PolicyOperation,
)
    ensures
        b.spec_selected(path, op) == b.base@,
        spec_listing(b, path) == b.base.spec_list(path),
{
}

/// Under the union policy every name listed by either side appears in the
/// composite listing.
pub proof fn lemma_union_listing_complete(
    b: OverlayBackend<MemBackend, MemBackend, crate::policy::UnionPolicy>,
    dir: Seq<char>,
    n: Seq<char>,
)
    requires
        crate::policy::contains_name(b.base.spec_list(dir), n) || crate::policy::contains_name(
            b.overlay.spec_list(dir),
            n,
        ),
    ensures
        crate::policy::contains_name(spec_listing(b, dir), n),
{
    crate::policy::lemma_union_merge_complete(b.base.spec_list(dir), b.overlay.spec_list(dir), n);
}

/// Under the base-only policy the composite listing carries each child
/// exactly once: the masked listing inherits the base store's
/// distinctness. With [`lemma_base_only_masks_overlay`] and the store's
/// listing lemmas, the composite listing of a base-only overlay is pinned
/// exactly: the base's live immediate children, each once and nothing
/// else.
pub proof fn lemma_base_only_listing_distinct(
    b: OverlayBackend<MemBackend, MemBackend, crate::policy::BaseOnlyPolicy>,
    dir: Seq<char>,
    k1: int,
    k2: int,
)
    requires
        b.wf(),
        0 <= k1 < k2 < spec_listing(b, dir).len(),
    ensures
        spec_listing(b, dir)[k1].path != spec_listing(b, dir)[k2].path,
        spec_listing(b, dir)[k1].name != spec_listing(b, dir)[k2].name,
{
    lemma_base_only_masks_overlay(b, dir, PolicyOperation::Stat);
    b.base.lemma_list_distinct(dir, k1, k2);
}

/// Under the union policy the composite listing carries each name at most
/// once: both sides list distinct names, and the merge deduplicates across
/// them.
pub proof fn lemma_union_listing_distinct(
    b: OverlayBackend<MemBackend, MemBackend, crate::policy::UnionPolicy>,
    dir: Seq<char>,
    k1: int,
    k2: int,
)
    requires
        b.wf(),
        0 <= k1 < k2 < spec_listing(b, dir).len(),
    ensures
        spec_listing(b, dir)[k1].name != spec_listing(b, dir)[k2].name,
{
    let bl = b.base.spec_list(dir);
    let ol = b.overlay.spec_list(dir);
    assert forall|i: int, j: int| 0 <= i < j < bl.len() implies bl[i].name != bl[j].name by {
        b.base.lemma_list_distinct(dir, i, j);
    }
    assert forall|i: int, j: int| 0 <= i < j < ol.len() implies ol[i].name != ol[j].name by {
        b.overlay.lemma_list_distinct(dir, i, j);
    }
    crate::policy::lemma_union_merge_distinct(bl, ol, k1, k2);
}

/// Under the base-only policy a listed entry's path is the directory
/// joined with its name, with nothing to trim: the masked listing is the
/// base's own.
pub proof fn lemma_base_only_listing_entry_shape(
    b: OverlayBackend<MemBackend, MemBackend, crate::policy::BaseOnlyPolicy>,
    dir: Seq<char>,
    k: int,
)
    requires
        b.wf(),
        0 <= k < spec_listing(b, dir).len(),
    ensures
        spec_listing(b, dir)[k].path == spec_join_path(dir, spec_listing(b, dir)[k].name),
        crate::text::spec_trim_end_slashes(spec_listing(b, dir)[k].name) == spec_listing(
            b,
            dir,
        )[k].name,
{
    lemma_base_only_masks_overlay(b, dir, PolicyOperation::Stat);
    b.base.lemma_list_entry_shape(dir, k);
}

/// Under the union policy a listed entry's path is the directory joined
/// with its name, with nothing to trim: every merged entry comes from one
/// of the two stores, and each store lists children under their names.
/// With the translator's injectivity this carries the NFS id-stability law
/// beyond single instances: looking a reported name up joins exactly the
/// path the listing carried, and one live path has one id.
pub proof fn lemma_union_listing_entry_shape(
    b: OverlayBackend<MemBackend, MemBackend, crate::policy::UnionPolicy>,
    dir: Seq<char>,
    k: int,
)
    requires
        b.wf(),
        0 <= k < spec_listing(b, dir).len(),
    ensures
        spec_listing(b, dir)[k].path == spec_join_path(dir, spec_listing(b, dir)[k].name),
        crate::text::spec_trim_end_slashes(spec_listing(b, dir)[k].name) == spec_listing(
            b,
            dir,
        )[k].name,
{
    let bl = b.base.spec_list(dir);
    let ol = b.overlay.spec_list(dir);
    crate::policy::lemma_union_merge_sound(bl, ol, k);
    let e = spec_listing(b, dir)[k];
    if crate::policy::contains_entry(ol, e) {
        let j = choose|j: int| 0 <= j < ol.len() && ol[j] == e;
        b.overlay.lemma_list_entry_shape(dir, j);
    } else {
        let j = choose|j: int| 0 <= j < bl.len() && bl[j] == e;
        b.base.lemma_list_entry_shape(dir, j);
    }
}

/// The NFSv3 adapter over the overlay composite.
pub struct OpendalFs<P> {
    pub fs: OverlayBackend<MemBackend, MemBackend, P>,
    pub ids: PathIdMap,
}

impl<P: Policy + Copy> OpendalFs<P> {
    /// Both stores well-formed, and the id map well-formed.
    pub open spec fn wf(&self) -> bool {
        self.fs.wf() && self.ids.wf()
    }

    /// A fresh adapter over `fs`, knowing only the root id.
    pub fn new(fs: OverlayBackend<MemBackend, MemBackend, P>) -> (r: OpendalFs<P>)
        ensures
            r.fs == fs,
            r.ids.wf(),
            r.ids@ == Map::<u64, Seq<char>>::empty().insert(ROOT_ID, "/"@),
    {
        OpendalFs { fs, ids: PathIdMap::new() }
    }

    /// The root directory id is always 1.
    pub fn root_dir(&self) -> (r: u64)
        ensures
            r == ROOT_ID,
    {
        1
    }

    /// Read-write exactly when the policy-granted capability can write.
    pub fn capabilities(&self) -> (r: VfsCapabilities)
        ensures
            r == (if self.fs.policy.spec_capability(
                self.fs.base.spec_cap(),
                self.fs.overlay.spec_cap(),
            ).write {
                VfsCapabilities::ReadWrite
            } else {
                VfsCapabilities::ReadOnly
            }),
    {
        let info = self.fs.info();
        vfs_capabilities(&info.1)
    }

    /// Look a name up in a directory. Lookup never creates ids: a path that
    /// was never observed by `readdir` or a create reports `NoEnt`.
    pub fn lookup(&self, dirid: u64, name: &str) -> (r: Result<u64, NfsError>)
        requires
            self.wf(),
        ensures
            match r {
                Ok(id) => self.ids@.dom().contains(dirid) && self.ids@.dom().contains(id)
                    && self.ids@[id] == spec_join_path(self.ids@[dirid], name@),
                Err(e) => e == NfsError::NoEnt && (!self.ids@.dom().contains(dirid)
                    || !spec_has_path(
                    self.ids@,
                    spec_join_path(self.ids@[dirid], name@),
                )),
            },
    {
        match self.ids.path_for(dirid) {
            Some(parent) => {
                let path = join_path(parent.as_str(), name);
                match self.ids.id_of(path.as_str()) {
                    Some(id) => Ok(id),
                    None => Err(NfsError::NoEnt),
                }
            },
            None => Err(NfsError::NoEnt),
        }
    }

    /// The attributes of a live id, from the owner backend's stat.
    pub fn getattr(&self, id: u64) -> (r: Result<Fattr, NfsError>)
        requires
            self.wf(),
        ensures
            r == spec_getattr(self.fs, self.ids@, id),
    {
        match self.ids.path_for(id) {
            Some(path) => {
                match self.fs.stat(path.as_str()) {
                    Ok(meta) => Ok(fattr_for(id, &meta)),
                    Err(_) => Err(NfsError::NoEnt),
                }
            },
            None => Err(NfsError::NoEnt),
        }
    }

    /// Attribute changes are not supported by the object stores: `setattr`
    /// ignores the request and reports the current attributes.
    pub fn setattr(&self, id: u64, _attrs: Sattr) -> (r: Result<Fattr, NfsError>)
        requires
            self.wf(),
        ensures
            r == spec_getattr(self.fs, self.ids@, id),
    {
        self.getattr(id)
    }

    /// Read `count` bytes at `offset`: the owner backend's ranged read,
    /// clamped to the content; `eof` exactly when fewer bytes came back than
    /// were asked for.
    pub fn read(&self, id: u64, offset: u64, count: u32) -> (r: Result<(Vec<u8>, bool), NfsError>)
        requires
            self.wf(),
        ensures
            ({
                if !self.ids@.dom().contains(id) {
                    r is Err && (r matches Err(e) && e == NfsError::NoEnt)
                } else {
                    let p = self.ids@[id];
                    let m = self.fs.spec_selected(p, PolicyOperation::Read);
                    if m.dom().contains(p) {
                        r matches Ok(d) && d.0@ == spec_read_range(m[p].data, offset, count as u64)
                            && d.1 == (d.0@.len() < count)
                    } else {
                        r matches Err(e) && e == NfsError::NoEnt
                    }
                }
            }),
    {
        match self.ids.path_for(id) {
            Some(path) => {
                match self.fs.read_range(path.as_str(), offset, count as u64) {
                    Ok(data) => {
                        let eof = data.len() < count as usize;
                        Ok((data, eof))
                    },
                    Err(_) => Err(NfsError::NoEnt),
                }
            },
            None => Err(NfsError::NoEnt),
        }
    }

    /// Write `data` at `offset`: an overwrite at offset zero, the appender
    /// path otherwise. Reports the post-write attributes.
    pub fn write(&mut self, id: u64, offset: u64, data: Vec<u8>) -> (r: Result<Fattr, NfsError>)
        requires
            old(self).wf(),
        ensures
            final(self).wf(),
            final(self).ids == old(self).ids,
            ({
                if !old(self).ids@.dom().contains(id) {
                    final(self).fs == old(self).fs && (r matches Err(e) && e == NfsError::NoEnt)
                } else {
                    let p = old(self).ids@[id];
                    spec_fs_write(old(self).fs, p, data@, offset != 0, final(self).fs) && r
                        == spec_getattr(final(self).fs, final(self).ids@, id)
                }
            }),
    {
        match self.ids.path_for(id) {
            Some(path) => {
                self.fs.write(path.as_str(), data, offset != 0);
                self.getattr(id)
            },
            None => Err(NfsError::NoEnt),
        }
    }

    /// Resolve `path` to an id, inserting it when new. A hash collision is
    /// fatal and reported as an I/O error.
    fn resolve_insert(&mut self, path: &str) -> (r: Result<u64, NfsError>)
        requires
            old(self).wf(),
        ensures
            final(self).fs == old(self).fs,
            final(self).ids.wf(),
            spec_extends(old(self).ids@, final(self).ids@),
            final(self).ids@ == spec_ids_after_resolve(old(self).ids@, path@),
            match spec_resolve_id(old(self).ids@, path@) {
                Some(id) => r == Ok::<u64, NfsError>(id) && final(self).ids@.dom().contains(id)
                    && final(self).ids@[id] == path@,
                None => r == Err::<u64, NfsError>(NfsError::Io),
            },
    {
        let r = self.ids.id_for(path, true);
        proof {
            if spec_has_path(old(self).ids@, path@) {
                if let Ok(id) = r {
                    assert(id == spec_id_of(old(self).ids@, path@)) by {
                        let k = spec_id_of(old(self).ids@, path@);
                        assert(old(self).ids@.dom().contains(k) && old(self).ids@[k] == path@);
                    }
                }
            }
            assert(final(self).ids@ =~= spec_ids_after_resolve(old(self).ids@, path@));
        }
        r
    }

    /// Create a file: allocate the child's id and issue a zero-length
    /// overwrite, so the file exists empty; an existing file is truncated.
    pub fn create(&mut self, dirid: u64, name: &str, _attrs: Sattr) -> (r: Result<
        (u64, Fattr),
        NfsError,
    >)
        requires
            old(self).wf(),
        ensures
            final(self).wf(),
            spec_extends(old(self).ids@, final(self).ids@),
            ({
                if !old(self).ids@.dom().contains(dirid) {
                    final(self).fs == old(self).fs && final(self).ids@ == old(self).ids@ && (r
                        matches Err(e) && e == NfsError::NoEnt)
                } else {
                    let p = spec_join_path(old(self).ids@[dirid], name@);
                    match spec_resolve_id(old(self).ids@, p) {
                        Some(id) => {
                            &&& final(self).ids@ == spec_ids_after_resolve(old(self).ids@, p)
                            &&& spec_fs_write(old(self).fs, p, Seq::empty(), false, final(self).fs)
                            &&& r == (match spec_getattr(final(self).fs, final(self).ids@, id) {
                                Ok(a) => Ok::<(u64, Fattr), NfsError>((id, a)),
                                Err(e) => Err::<(u64, Fattr), NfsError>(e),
                            })
                        },
                        None => final(self).fs == old(self).fs && final(self).ids@ == old(self).ids@
                            && (r matches Err(e) && e == NfsError::Io),
                    }
                }
            }),
    {
        match self.ids.path_for(dirid) {
            Some(parent) => {
                let path = join_path(parent.as_str(), name);
                match self.resolve_insert(path.as_str()) {
                    Ok(id) => {
                        match self.write(id, 0, Vec::new()) {
                            Ok(attr) => Ok((id, attr)),
                            Err(e) => Err(e),
                        }
                    },
                    Err(e) => Err(e),
                }
            },
            None => Err(NfsError::NoEnt),
        }
    }

    /// Exclusive create: writes one sentinel byte so the file exists. This
    /// is best-effort only: an existence pre-check would be racy, so a
    /// collision with an existing file is not detected, a deliberate
    /// weakening of NFS exclusive-create semantics.
    pub fn create_exclusive(&mut self, dirid: u64, name: &str) -> (r: Result<u64, NfsError>)
        requires
            old(self).wf(),
        ensures
            final(self).wf(),
            spec_extends(old(self).ids@, final(self).ids@),
            ({
                if !old(self).ids@.dom().contains(dirid) {
                    final(self).fs == old(self).fs && final(self).ids@ == old(self).ids@ && (r
                        matches Err(e) && e == NfsError::NoEnt)
                } else {
                    let p = spec_join_path(old(self).ids@[dirid], name@);
                    match spec_resolve_id(old(self).ids@, p) {
                        Some(id) => {
                            &&& final(self).ids@ == spec_ids_after_resolve(old(self).ids@, p)
                            &&& spec_fs_write(
                                old(self).fs,
                                p,
                                seq![0u8],
                                false,
                                final(self).fs,
                            )
                            &&& r == (match spec_getattr(final(self).fs, final(self).ids@, id) {
                                Ok(_) => Ok::<u64, NfsError>(id),
                                Err(e) => Err::<u64, NfsError>(e),
                            })
                        },
                        None => final(self).fs == old(self).fs && final(self).ids@ == old(self).ids@
                            && (r matches Err(e) && e == NfsError::Io),
                    }
                }
            }),
    {
        match self.ids.path_for(dirid) {
            Some(parent) => {
                let path = join_path(parent.as_str(), name);
                match self.resolve_insert(path.as_str()) {
                    Ok(id) => {
                        let mut one: Vec<u8> = Vec::new();
                        one.push(0u8);
                        proof {
                            assert(one@ =~= seq![0u8]);
                        }
                        match self.write(id, 0, one) {
                            Ok(_) => Ok(id),
                            Err(e) => Err(e),
                        }
                    },
                    Err(e) => Err(e),
                }
            },
            None => Err(NfsError::NoEnt),
        }
    }

    /// Make a directory: allocate the child's id and create the directory
    /// through the owner backend.
    pub fn mkdir(&mut self, dirid: u64, name: &str) -> (r: Result<(u64, Fattr), NfsError>)
        requires
            old(self).wf(),
        ensures
            final(self).wf(),
            spec_extends(old(self).ids@, final(self).ids@),
            ({
                if !old(self).ids@.dom().contains(dirid) {
                    final(self).fs == old(self).fs && final(self).ids@ == old(self).ids@ && (r
                        matches Err(e) && e == NfsError::NoEnt)
                } else {
                    let p = spec_join_path(old(self).ids@[dirid], name@);
                    match spec_resolve_id(old(self).ids@, p) {
                        Some(id) => {
                            &&& final(self).ids@ == spec_ids_after_resolve(old(self).ids@, p)
                            &&& spec_fs_create_dir(old(self).fs, p, final(self).fs)
                            &&& r == (match spec_getattr(final(self).fs, final(self).ids@, id) {
                                Ok(a) => Ok::<(u64, Fattr), NfsError>((id, a)),
                                Err(e) => Err::<(u64, Fattr), NfsError>(e),
                            })
                        },
                        None => final(self).fs == old(self).fs && final(self).ids@ == old(self).ids@
                            && (r matches Err(e) && e == NfsError::Io),
                    }
                }
            }),
    {
        match self.ids.path_for(dirid) {
            Some(parent) => {
                let path = join_path(parent.as_str(), name);
                match self.resolve_insert(path.as_str()) {
                    Ok(id) => {
                        self.fs.create_dir(path.as_str());
                        match self.getattr(id) {
                            Ok(a) => Ok((id, a)),
                            Err(e) => Err(e),
                        }
                    },
                    Err(e) => Err(e),
                }
            },
            None => Err(NfsError::NoEnt),
        }
    }

    /// Enumerate a directory. The composite listing is drained; every entry
    /// gets its id (inserted on demand) and its attributes; entries up to
    /// and including the one with id `start_after` are skipped (none when
    /// `start_after` is zero); at most `max_entries` are reported; `end`
    /// holds exactly when the page reaches the end of the listing.
    pub fn readdir(&mut self, dirid: u64, start_after: u64, max_entries: usize) -> (r: Result<
        ReadDirResult,
        NfsError,
    >)
        requires
            old(self).wf(),
        ensures
            final(self).wf(),
            final(self).fs == old(self).fs,
            spec_extends(old(self).ids@, final(self).ids@),
            !old(self).ids@.dom().contains(dirid) ==> final(self).ids@ == old(self).ids@ && (r
                matches Err(e) && e == NfsError::NoEnt),
            ({
                let l = spec_listing(old(self).fs, old(self).ids@[dirid]);
                old(self).ids@.dom().contains(dirid) ==> {
                    &&& ((r is Ok) <==> spec_listing_resolvable(old(self).ids@, l))
                    &&& (r matches Err(e) ==> e == NfsError::Io)
                    &&& (r is Ok ==> (final(self).ids@ == spec_ids_after_listing(
                        old(self).ids@,
                        l,
                    ) && (forall|k: int|
                        0 <= k < l.len() ==> spec_has_path(final(self).ids@, l[k].path))))
                    &&& (r matches Ok(page) ==> {
                        let ann = spec_annotate(old(self).fs, final(self).ids@, l);
                        let st = spec_start(ann, start_after);
                        let cnt = if ann.len() - st < max_entries {
                            ann.len() - st
                        } else {
                            max_entries as int
                        };
                        dir_entries_view(page.entries@) == ann.subrange(st, st + cnt) && page.end
                            == (st + cnt == ann.len())
                    })
                }
            }),
    {
        let path = match self.ids.path_for(dirid) {
            Some(p) => p,
            None => {
                return Err(NfsError::NoEnt);
            },
        };
        let listing = self.fs.list(path.as_str());
        let ghost l = crate::policy::entries_view(listing@);
        let ghost fs0 = self.fs;
        let mut ann: Vec<DirEntry> = Vec::new();
        let mut i: usize = 0;
        proof {
            assert(l.subrange(0, 0) =~= Seq::<crate::policy::EntryView>::empty());
            assert(dir_entries_view(ann@) =~= spec_annotate(fs0, self.ids@, l.subrange(0, 0)));
        }
        while i < listing.len()
            invariant
                self.ids@ == spec_ids_after_listing(old(self).ids@, l.subrange(0, i as int)),
                spec_listing_resolvable(old(self).ids@, l.subrange(0, i as int)),
                old(self).wf(),
                self.fs == fs0,
                fs0 == old(self).fs,
                fs0.wf(),
                self.ids.wf(),
                old(self).ids@.dom().contains(dirid),
                path@ == old(self).ids@[dirid],
                l == spec_listing(fs0, path@),
                spec_extends(old(self).ids@, self.ids@),
                i <= listing@.len(),
                l == crate::policy::entries_view(listing@),
                forall|k: int| 0 <= k < i ==> spec_has_path(self.ids@, l[k].path),
                dir_entries_view(ann@) == spec_annotate(fs0, self.ids@, l.subrange(0, i as int)),
            decreases listing@.len() - i,
        {
            let ghost ids_pre = self.ids@;
            let entry_path = &listing[i].path;
            proof {
                assert(l[i as int] == listing@[i as int]@);
            }
            let id = match self.resolve_insert(entry_path.as_str()) {
                Ok(id) => id,
                Err(e) => {
                    proof {
                        assert(!spec_listing_resolvable(old(self).ids@, l)) by {
                            if spec_listing_resolvable(old(self).ids@, l) {
                                lemma_resolvable_prefix(old(self).ids@, l, i + 1);
                                assert(l.subrange(0, i + 1).drop_last() =~= l.subrange(
                                    0,
                                    i as int,
                                ));
                                assert(l.subrange(0, i + 1).last() == l[i as int]);
                            }
                        }
                    }
                    return Err(e);
                },
            };
            proof {
                assert forall|k: int| 0 <= k < i + 1 implies spec_has_path(
                    self.ids@,
                    l[k].path,
                ) by {
                    if k < i {
                        lemma_has_path_extends(ids_pre, self.ids@, l[k].path);
                    } else {
                        assert(self.ids@.dom().contains(id) && self.ids@[id] == l[i as int].path);
                    }
                }
                assert forall|k: int|
                    0 <= k < l.subrange(0, i as int).len() implies spec_has_path(
                    ids_pre,
                    #[trigger] l.subrange(0, i as int)[k].path,
                ) by {
                    assert(l.subrange(0, i as int)[k] == l[k]);
                }
                lemma_annotate_grow(fs0, ids_pre, self.ids@, l.subrange(0, i as int));
                assert(dir_entries_view(ann@) == spec_annotate(
                    fs0,
                    self.ids@,
                    l.subrange(0, i as int),
                ));
                assert(l.subrange(0, i + 1).drop_last() =~= l.subrange(0, i as int));
                assert(l.subrange(0, i + 1).last() == l[i as int]);
                assert(self.ids@ == spec_ids_after_listing(old(self).ids@, l.subrange(0, i + 1)));
                assert(spec_listing_resolvable(old(self).ids@, l.subrange(0, i + 1)));
                assert(spec_id_of(self.ids@, l[i as int].path) == id) by {
                    let k = spec_id_of(self.ids@, l[i as int].path);
                    assert(self.ids@.dom().contains(k) && self.ids@[k] == l[i as int].path);
                }
            }
            match self.fs.stat(entry_path.as_str()) {
                Ok(meta) => {
                    let attr = fattr_for(id, &meta);
                    let name = crate::text::trim_end_slashes(listing[i].name.as_str());
                    ann.push(DirEntry { fileid: id, name, attr });
                    proof {
                        assert(dir_entries_view(ann@) =~= spec_annotate(
                            fs0,
                            self.ids@,
                            l.subrange(0, i + 1),
                        ));
                    }
                },
                Err(_) => {
                    proof {
                        assert(dir_entries_view(ann@) =~= spec_annotate(
                            fs0,
                            self.ids@,
                            l.subrange(0, i + 1),
                        ));
                    }
                },
            }
            i = i + 1;
        }
        proof {
            assert(l.subrange(0, listing@.len() as int) =~= l);
        }
        let (entries, end) = select_window(ann, start_after, max_entries);
        Ok(ReadDirResult { entries, end })
    }

    /// Removal is not supported.
    pub fn remove(&self, _dirid: u64, _name: &str) -> (r: Result<(), NfsError>)
        ensures
            r == Err::<(), NfsError>(NfsError::NotSupp),
    {
        Err(NfsError::NotSupp)
    }

    /// Renaming is not supported.
    pub fn rename(&self, _from_dirid: u64, _from_name: &str, _to_dirid: u64, _to_name: &str) -> (r:
        Result<(), NfsError>)
        ensures
            r == Err::<(), NfsError>(NfsError::NotSupp),
    {
        Err(NfsError::NotSupp)
    }

    /// Symbolic links are a write operation the stores do not have: the
    /// adapter reports a read-only filesystem.
    pub fn symlink(&self, _dirid: u64, _name: &str, _target: &str) -> (r: Result<
        (u64, Fattr),
        NfsError,
    >)
        ensures
            r == Err::<(u64, Fattr), NfsError>(NfsError::Rofs),
    {
        Err(NfsError::Rofs)
    }

    /// Reading links is not supported.
    pub fn readlink(&self, _id: u64) -> (r: Result<String, NfsError>)
        ensures
            r == Err::<String, NfsError>(NfsError::NotSupp),
    {
        Err(NfsError::NotSupp)
    }
}

} // verus!
