//! An in-memory storage backend: the crate's model of the storage-accessor
//! contract. It holds plain paths and byte contents, so every operation of
//! the overlay composition can be verified against it; the embedding server
//! substitutes real object stores at the edges.

use vstd::prelude::*;
use crate::capability::Capability;
use crate::errors::BackendError;
use crate::attr::FileMeta;
use crate::policy::{Entry, EntryView, entries_view};
use crate::text;

verus! {

/// What one stored object is: a directory marker or a regular file with its
/// bytes.
pub struct NodeView {
    pub is_dir: bool,
    pub data: Seq<u8>,
}

/// One stored object with its full path.
#[derive(Debug)]
pub struct FileNode {
    pub path: String,
    pub is_dir: bool,
    pub data: Vec<u8>,
}

impl View for FileNode {
    type V = NodeView;

    open spec fn view(&self) -> NodeView {
        NodeView { is_dir: self.is_dir, data: self.data@ }
    }
}

/// The map a node sequence denotes: later nodes win, though a well-formed
/// store never holds one path twice.
pub open spec fn spec_store_map(s: Seq<FileNode>) -> Map<Seq<char>, NodeView>
    decreases s.len(),
{
    if s.len() == 0 {
        Map::empty()
    } else {
        spec_store_map(s.drop_last()).insert(s.last().path@, s.last()@)
    }
}

/// The metadata a stat of node `n` reports. The model store does not track
/// modification times, so it reports them unknown.
pub open spec fn spec_meta_of(n: NodeView) -> FileMeta {
    FileMeta { is_dir: n.is_dir, content_length: n.data.len() as u64, last_modified: None }
}

/// What a stat of `p` against contents `m` returns.
pub open spec fn spec_stat_result(m: Map<Seq<char>, NodeView>, p: Seq<char>) -> Result<
    FileMeta,
    BackendError,
> {
    if m.dom().contains(p) {
        Ok(spec_meta_of(m[p]))
    } else {
        Err(BackendError::NotFound)
    }
}

/// The bytes a ranged read of `[offset, offset + count)` yields from `data`:
/// the range clamped to the content length.
pub open spec fn spec_read_range(data: Seq<u8>, offset: u64, count: u64) -> Seq<u8> {
    let len = data.len() as int;
    let lo = if offset as int <= len {
        offset as int
    } else {
        len
    };
    let hi = if offset as int + count as int <= len {
        offset as int + count as int
    } else {
        len
    };
    data.subrange(lo, hi)
}

/// What a ranged read of `p` against contents `m` returns.
pub open spec fn spec_read_result(
    m: Map<Seq<char>, NodeView>,
    p: Seq<char>,
    offset: u64,
    count: u64,
) -> Result<Seq<u8>, BackendError> {
    if m.dom().contains(p) {
        Ok(spec_read_range(m[p].data, offset, count))
    } else {
        Err(BackendError::NotFound)
    }
}

/// The contents `m` holds after a write of `data` to `p`: appended to the
/// old bytes when `append` is set and the path exists, the new bytes alone
/// otherwise.
pub open spec fn spec_write_map(
    m: Map<Seq<char>, NodeView>,
    p: Seq<char>,
    data: Seq<u8>,
    append: bool,
) -> Map<Seq<char>, NodeView> {
    m.insert(
        p,
        NodeView {
            is_dir: false,
            data: if append && m.dom().contains(p) {
                m[p].data + data
            } else {
                data
            },
        },
    )
}

/// The contents `m` holds after a directory is created at `p`.
pub open spec fn spec_create_dir_map(m: Map<Seq<char>, NodeView>, p: Seq<char>) -> Map<
    Seq<char>,
    NodeView,
> {
    m.insert(p, NodeView { is_dir: true, data: Seq::empty() })
}

/// `dir` with exactly one trailing `/`, the prefix of its children's paths.
pub open spec fn spec_dir_prefix(dir: Seq<char>) -> Seq<char> {
    if dir.len() > 0 && dir.last() == '/' {
        dir
    } else {
        dir + seq!['/']
    }
}

/// Is `p` an immediate child of `dir`: below it, and with no further `/`?
pub open spec fn spec_is_child(dir: Seq<char>, p: Seq<char>) -> bool {
    let pre = spec_dir_prefix(dir);
    &&& p.len() > pre.len()
    &&& p.subrange(0, pre.len() as int) == pre
    &&& forall|k: int| pre.len() <= k < p.len() ==> p[k] != '/'
}

/// The name of child `p` within `dir`.
pub open spec fn spec_child_name(dir: Seq<char>, p: Seq<char>) -> Seq<char> {
    p.subrange(spec_dir_prefix(dir).len() as int, p.len() as int)
}

/// The listing of `dir` over a node sequence, in insertion order.
pub open spec fn spec_list_nodes(s: Seq<FileNode>, dir: Seq<char>) -> Seq<EntryView>
    decreases s.len(),
{
    if s.len() == 0 {
        Seq::empty()
    } else {
        let pre = spec_list_nodes(s.drop_last(), dir);
        if spec_is_child(dir, s.last().path@) {
            pre.push(EntryView { path: s.last().path@, name: spec_child_name(dir, s.last().path@) })
        } else {
            pre
        }
    }
}

/// Pairwise-distinct paths.
pub open spec fn spec_distinct_paths(s: Seq<FileNode>) -> bool {
    forall|i: int, j: int| 0 <= i < j < s.len() ==> s[i].path@ != s[j].path@
}

/// The in-memory backend: a flat sequence of nodes with distinct paths, and
/// the capability it advertises.
#[derive(Debug)]
pub struct MemBackend {
    nodes: Vec<FileNode>,
    pub cap: Capability,
}

impl View for MemBackend {
    type V = Map<Seq<char>, NodeView>;

    closed spec fn view(&self) -> Map<Seq<char>, NodeView> {
        spec_store_map(self.nodes@)
    }
}

/// Each node's path names it in the store map, and the store map holds
/// nothing else.
proof fn lemma_node_map(s: Seq<FileNode>)
    requires
        spec_distinct_paths(s),
    ensures
        forall|p: Seq<char>|
            #[trigger] spec_store_map(s).dom().contains(p) ==> exists|i: int|
                0 <= i < s.len() && s[i].path@ == p,
        forall|i: int|
            0 <= i < s.len() ==> spec_store_map(s).dom().contains(#[trigger] s[i].path@)
                && spec_store_map(s)[s[i].path@] == s[i]@,
    decreases s.len(),
{
    if s.len() > 0 {
        let t = s.drop_last();
        lemma_node_map(t);
        assert forall|p: Seq<char>| #[trigger]
            spec_store_map(s).dom().contains(p) implies exists|i: int|
            0 <= i < s.len() && s[i].path@ == p by {
            if p == s.last().path@ {
                assert(s[s.len() - 1].path@ == p);
            } else {
                assert(spec_store_map(t).dom().contains(p));
                let i = choose|i: int| 0 <= i < t.len() && t[i].path@ == p;
                assert(s[i].path@ == p);
            }
        }
        assert forall|i: int| 0 <= i < s.len() implies spec_store_map(s).dom().contains(
            #[trigger] s[i].path@,
        ) && spec_store_map(s)[s[i].path@] == s[i]@ by {
            if i < s.len() - 1 {
                assert(t[i] == s[i]);
                assert(s[i].path@ != s.last().path@);
            } else {
                assert(s[i] == s.last());
            }
        }
    }
}

/// Removing node `i` removes exactly its path from the store map.
proof fn lemma_map_remove_node(s: Seq<FileNode>, i: int)
    requires
        spec_distinct_paths(s),
        0 <= i < s.len(),
    ensures
        spec_distinct_paths(s.remove(i)),
        spec_store_map(s.remove(i)) == spec_store_map(s).remove(s[i].path@),
        forall|k: int|
            0 <= k < s.remove(i).len() ==> #[trigger] s.remove(i)[k].path@ != s[i].path@,
{
    let t = s.remove(i);
    lemma_node_map(s);
    assert forall|k: int| 0 <= k < t.len() implies #[trigger] t[k].path@ != s[i].path@ by {
        if k < i {
            assert(t[k] == s[k]);
        } else {
            assert(t[k] == s[k + 1]);
        }
    }
    assert forall|a: int, b: int| 0 <= a < b < t.len() implies t[a].path@ != t[b].path@ by {
        if b < i {
            assert(t[a] == s[a] && t[b] == s[b]);
        } else if a < i {
            assert(t[a] == s[a] && t[b] == s[b + 1]);
        } else {
            assert(t[a] == s[a + 1] && t[b] == s[b + 1]);
        }
    }
    lemma_node_map(t);
    let mt = spec_store_map(t);
    let ms = spec_store_map(s);
    assert forall|p: Seq<char>| #[trigger] mt.dom().contains(p) implies ms.remove(
        s[i].path@,
    ).dom().contains(p) && ms.remove(s[i].path@)[p] == mt[p] by {
        let k = choose|k: int| 0 <= k < t.len() && t[k].path@ == p;
        let k2: int = if k < i {
            k
        } else {
            k + 1
        };
        assert(s[k2] == t[k]);
        assert(ms.dom().contains(p) && ms[p] == s[k2]@);
        assert(p != s[i].path@);
        assert(mt[p] == t[k]@);
    }
    assert forall|p: Seq<char>| #[trigger]
        ms.remove(s[i].path@).dom().contains(p) implies mt.dom().contains(p) by {
        assert(ms.dom().contains(p));
        let k2 = choose|k2: int| 0 <= k2 < s.len() && s[k2].path@ == p;
        assert(k2 != i);
        let k: int = if k2 < i {
            k2
        } else {
            k2 - 1
        };
        assert(t[k] == s[k2]);
        assert(t[k].path@ == p);
    }
    assert(mt =~= ms.remove(s[i].path@));
}

impl MemBackend {
    /// Well-formed: no path occurs twice.
    pub closed spec fn wf(&self) -> bool {
        spec_distinct_paths(self.nodes@)
    }

    /// The capability this store was built with.
    pub closed spec fn spec_cap(&self) -> Capability {
        self.cap
    }

    /// The listing of `dir`, in insertion order.
    pub closed spec fn spec_list(&self, dir: Seq<char>) -> Seq<EntryView> {
        spec_list_nodes(self.nodes@, dir)
    }

    /// An empty store advertising capability `cap`.
    pub fn new(cap: Capability) -> (s: MemBackend)
        ensures
            s.wf(),
            s@ == Map::<Seq<char>, NodeView>::empty(),
            s.spec_cap() == cap,
    {
        MemBackend { nodes: Vec::new(), cap }
    }

    /// The advertised capability.
    pub fn capability(&self) -> (c: Capability)
        ensures
            c == self.spec_cap(),
    {
        self.cap
    }

    fn find(&self, path: &str) -> (r: Option<usize>)
        ensures
            match r {
                Some(i) => i < self.nodes@.len() && self.nodes@[i as int].path@ == path@,
                None => forall|i: int| 0 <= i < self.nodes@.len() ==> self.nodes@[i].path@ != path@,
            },
    {
        let mut i: usize = 0;
        while i < self.nodes.len()
            invariant
                i <= self.nodes@.len(),
                forall|j: int| 0 <= j < i ==> self.nodes@[j].path@ != path@,
            decreases self.nodes@.len() - i,
        {
            if text::str_eq(self.nodes[i].path.as_str(), path) {
                return Some(i);
            }
            i = i + 1;
        }
        None
    }

    /// Stat: the metadata of `path`, or not-found.
    pub fn stat(&self, path: &str) -> (r: Result<FileMeta, BackendError>)
        requires
            self.wf(),
        ensures
            r == spec_stat_result(self@, path@),
    {
        proof {
            lemma_node_map(self.nodes@);
        }
        match self.find(path) {
            Some(i) => {
                let n = &self.nodes[i];
                Ok(
                    FileMeta {
                        is_dir: n.is_dir,
                        content_length: n.data.len() as u64,
                        last_modified: None,
                    },
                )
            },
            None => Err(BackendError::NotFound),
        }
    }

    /// Ranged read of `[offset, offset + count)`, clamped to the content.
    pub fn read_range(&self, path: &str, offset: u64, count: u64) -> (r: Result<
        Vec<u8>,
        BackendError,
    >)
        requires
            self.wf(),
        ensures
            match r {
                Ok(d) => self@.dom().contains(path@) && d@ == spec_read_range(
                    self@[path@].data,
                    offset,
                    count,
                ),
                Err(e) => !self@.dom().contains(path@) && e == BackendError::NotFound,
            },
    {
        proof {
            lemma_node_map(self.nodes@);
        }
        match self.find(path) {
            Some(i) => {
                let n = &self.nodes[i];
                let len: usize = n.data.len();
                let lo: usize = if offset > len as u64 {
                    len
                } else {
                    offset as usize
                };
                let remaining: usize = len - lo;
                let take: usize = if count > remaining as u64 {
                    remaining
                } else {
                    count as usize
                };
                let mut out: Vec<u8> = Vec::new();
                let mut j: usize = 0;
                proof {
                    assert(out@ =~= n.data@.subrange(lo as int, lo as int));
                }
                while j < take
                    invariant
                        len == n.data@.len(),
                        lo + take <= len,
                        j <= take,
                        out@ == n.data@.subrange(lo as int, lo as int + j as int),
                    decreases take - j,
                {
                    let b = n.data[lo + j];
                    out.push(b);
                    proof {
                        assert(out@ =~= n.data@.subrange(lo as int, lo as int + j + 1));
                    }
                    j = j + 1;
                }
                proof {
                    assert(self@[path@].data == n.data@);
                    assert(out@ =~= spec_read_range(n.data@, offset, count));
                }
                Ok(out)
            },
            None => Err(BackendError::NotFound),
        }
    }

    /// Write `data` to `path`: overwrite, or append to the existing bytes.
    pub fn write(&mut self, path: &str, data: Vec<u8>, append: bool)
        requires
            old(self).wf(),
        ensures
            final(self).wf(),
            final(self).spec_cap() == old(self).spec_cap(),
            final(self)@ == spec_write_map(old(self)@, path@, data@, append),
    {
        proof {
            lemma_node_map(self.nodes@);
        }
        let ghost s0 = self.nodes@;
        let ghost m0 = self@;
        match self.find(path) {
            Some(i) => {
                let node = self.nodes.remove(i);
                proof {
                    lemma_map_remove_node(s0, i as int);
                }
                let mut nd: Vec<u8> = if append {
                    node.data
                } else {
                    Vec::new()
                };
                let mut tail = data;
                nd.append(&mut tail);
                let ghost s1 = self.nodes@;
                self.nodes.push(FileNode { path: path.to_owned(), is_dir: false, data: nd });
                proof {
                    assert(self.nodes@.drop_last() =~= s1);
                    assert(m0.dom().contains(path@) && m0[path@] == s0[i as int]@);
                    assert(self@ =~= spec_write_map(m0, path@, data@, append));
                }
            },
            None => {
                self.nodes.push(FileNode { path: path.to_owned(), is_dir: false, data });
                proof {
                    assert(self.nodes@.drop_last() =~= s0);
                    if m0.dom().contains(path@) {
                        let i = choose|i: int| 0 <= i < s0.len() && s0[i].path@ == path@;
                        assert(false);
                    }
                    assert(self@ =~= spec_write_map(m0, path@, data@, append));
                }
            },
        }
    }

    /// Create a directory at `path`.
    pub fn create_dir(&mut self, path: &str)
        requires
            old(self).wf(),
        ensures
            final(self).wf(),
            final(self).spec_cap() == old(self).spec_cap(),
            final(self)@ == spec_create_dir_map(old(self)@, path@),
    {
        proof {
            lemma_node_map(self.nodes@);
        }
        let ghost s0 = self.nodes@;
        let ghost m0 = self@;
        match self.find(path) {
            Some(i) => {
                let _ = self.nodes.remove(i);
                proof {
                    lemma_map_remove_node(s0, i as int);
                }
                let ghost s1 = self.nodes@;
                self.nodes.push(FileNode { path: path.to_owned(), is_dir: true, data: Vec::new() });
                proof {
                    assert(self.nodes@.drop_last() =~= s1);
                    assert(self@ =~= spec_create_dir_map(m0, path@));
                }
            },
            None => {
                self.nodes.push(FileNode { path: path.to_owned(), is_dir: true, data: Vec::new() });
                proof {
                    assert(self.nodes@.drop_last() =~= s0);
                    assert(self@ =~= spec_create_dir_map(m0, path@));
                }
            },
        }
    }

    /// List the immediate children of `dir`, in insertion order.
    pub fn list(&self, dir: &str) -> (r: Vec<Entry>)
        requires
            self.wf(),
        ensures
            entries_view(r@) == self.spec_list(dir@),
    {
        let prefix = dir_prefix(dir);
        let prelen: usize = prefix.as_str().unicode_len();
        let mut out: Vec<Entry> = Vec::new();
        let mut i: usize = 0;
        proof {
            assert(self.nodes@.subrange(0, 0) =~= Seq::<FileNode>::empty());
            assert(entries_view(out@) =~= spec_list_nodes(self.nodes@.subrange(0, 0), dir@));
        }
        while i < self.nodes.len()
            invariant
                prefix@ == spec_dir_prefix(dir@),
                prelen == prefix@.len(),
                i <= self.nodes@.len(),
                entries_view(out@) == spec_list_nodes(self.nodes@.subrange(0, i as int), dir@),
            decreases self.nodes@.len() - i,
        {
            proof {
                assert(self.nodes@.subrange(0, i + 1).drop_last() =~= self.nodes@.subrange(
                    0,
                    i as int,
                ));
                assert(self.nodes@.subrange(0, i + 1).last() == self.nodes@[i as int]);
            }
            let p = &self.nodes[i].path;
            let plen: usize = p.as_str().unicode_len();
            let mut pushed = false;
            if plen > prelen && text::starts_with(p.as_str(), prefix.as_str()) {
                let rest = p.as_str().substring_char(prelen, plen);
                if !text::contains_slash(rest) {
                    proof {
                        assert forall|k: int| prelen <= k < p@.len() implies p@[k] != '/' by {
                            assert(rest@[k - prelen] == p@[k]);
                        }
                        assert(spec_is_child(dir@, p@));
                        assert(rest@ == spec_child_name(dir@, p@));
                    }
                    let name = rest.to_owned();
                    out.push(Entry { path: p.clone(), name });
                    pushed = true;
                    proof {
                        assert(entries_view(out@) =~= spec_list_nodes(
                            self.nodes@.subrange(0, i + 1),
                            dir@,
                        ));
                    }
                } else {
                    proof {
                        let j = choose|j: int| 0 <= j < rest@.len() && rest@[j] == '/';
                        assert(p@[prelen + j] == '/');
                        assert(!spec_is_child(dir@, p@));
                    }
                }
            } else {
                proof {
                    if spec_is_child(dir@, p@) {
                        assert(text::spec_starts_with(p@, prefix@)) by {
                            assert(p@.subrange(0, prelen as int) == prefix@);
                        }
                        assert(false);
                    }
                }
            }
            if !pushed {
                proof {
                    assert(entries_view(out@) =~= spec_list_nodes(
                        self.nodes@.subrange(0, i + 1),
                        dir@,
                    ));
                }
            }
            i = i + 1;
        }
        proof {
            assert(self.nodes@.subrange(0, self.nodes@.len() as int) =~= self.nodes@);
        }
        out
    }

    /// Every stored content fits in memory: its length is bounded by the
    /// address space.
    pub proof fn lemma_view_data_bounded(&self, p: Seq<char>)
        requires
            self.wf(),
            self@.dom().contains(p),
        ensures
            self@[p].data.len() <= usize::MAX,
    {
        lemma_node_map(self.nodes@);
        let i = choose|i: int| 0 <= i < self.nodes@.len() && self.nodes@[i].path@ == p;
        vstd::std_specs::vec::axiom_spec_len(&self.nodes@[i].data);
    }

    /// Every listed entry names a live immediate child, under its name
    /// within the directory.
    pub proof fn lemma_list_sound(&self, dir: Seq<char>, k: int)
        requires
            self.wf(),
            0 <= k < self.spec_list(dir).len(),
        ensures
            self@.dom().contains(self.spec_list(dir)[k].path),
            spec_is_child(dir, self.spec_list(dir)[k].path),
            self.spec_list(dir)[k].name == spec_child_name(dir, self.spec_list(dir)[k].path),
    {
        lemma_node_map(self.nodes@);
        lemma_list_nodes_sound(self.nodes@, dir, k);
        let i = choose|i: int|
            0 <= i < self.nodes@.len() && self.nodes@[i].path@ == self.spec_list(dir)[k].path;
    }

    /// A listed entry's path is exactly the directory joined with its
    /// name; the name holds no slash, so trimming trailing slashes leaves
    /// it unchanged. Looking a reported name up under its directory
    /// therefore resolves the very path the listing reported.
    pub proof fn lemma_list_entry_shape(&self, dir: Seq<char>, k: int)
        requires
            self.wf(),
            0 <= k < self.spec_list(dir).len(),
        ensures
            self.spec_list(dir)[k].path == text::spec_join_path(
                dir,
                self.spec_list(dir)[k].name,
            ),
            text::spec_trim_end_slashes(self.spec_list(dir)[k].name) == self.spec_list(
                dir,
            )[k].name,
    {
        self.lemma_list_sound(dir, k);
        let e = self.spec_list(dir)[k];
        assert(e.path =~= spec_dir_prefix(dir) + e.name);
        assert(text::spec_join_path(dir, e.name) =~= spec_dir_prefix(dir) + e.name);
        assert forall|j: int| 0 <= j < e.name.len() implies e.name[j] != '/' by {
            assert(e.name[j] == e.path[spec_dir_prefix(dir).len() + j]);
        }
        assert(e.name.len() > 0);
    }

    /// A well-formed store lists each child exactly once: two listed
    /// entries never share a path, nor a name. With [`Self::lemma_list_sound`]
    /// and [`Self::lemma_list_complete`] this pins the listing as exactly
    /// the live immediate children, each once.
    pub proof fn lemma_list_distinct(&self, dir: Seq<char>, k1: int, k2: int)
        requires
            self.wf(),
            0 <= k1 < k2 < self.spec_list(dir).len(),
        ensures
            self.spec_list(dir)[k1].path != self.spec_list(dir)[k2].path,
            self.spec_list(dir)[k1].name != self.spec_list(dir)[k2].name,
    {
        lemma_list_nodes_distinct(self.nodes@, dir, k1, k2);
        self.lemma_list_sound(dir, k1);
        self.lemma_list_sound(dir, k2);
        let e1 = self.spec_list(dir)[k1];
        let e2 = self.spec_list(dir)[k2];
        // A child's path is its name under the directory prefix, so equal
        // names would force equal paths.
        assert(e1.path =~= spec_dir_prefix(dir) + e1.name);
        assert(e2.path =~= spec_dir_prefix(dir) + e2.name);
    }

    /// Every live immediate child of `dir` is listed.
    pub proof fn lemma_list_complete(&self, dir: Seq<char>, p: Seq<char>)
        requires
            self.wf(),
            self@.dom().contains(p),
            spec_is_child(dir, p),
        ensures
            exists|k: int| 0 <= k < self.spec_list(dir).len() && self.spec_list(dir)[k].path == p,
    {
        lemma_node_map(self.nodes@);
        let i = choose|i: int| 0 <= i < self.nodes@.len() && self.nodes@[i].path@ == p;
        lemma_list_nodes_complete(self.nodes@, dir, i);
        let k = choose|k: int|
            0 <= k < spec_list_nodes(self.nodes@, dir).len() && spec_list_nodes(self.nodes@, dir)[k].path
                == self.nodes@[i].path@;
        assert(self.spec_list(dir)[k].path == p);
    }
}

/// Exec form of [`spec_dir_prefix`].
pub fn dir_prefix(dir: &str) -> (r: String)
    ensures
        r@ == spec_dir_prefix(dir@),
{
    let dlen: usize = dir.unicode_len();
    if dlen > 0 && dir.get_char(dlen - 1) == '/' {
        dir.to_owned()
    } else {
        let mut s = dir.to_owned();
        s.append("/");
        proof {
            reveal_strlit("/");
            assert(s@ =~= dir@ + seq!['/']);
        }
        s
    }
}

/// Writing a file and reading it back at offset zero with its own length
/// yields exactly the bytes written.
pub proof fn lemma_write_read_round_trip(m: Map<Seq<char>, NodeView>, p: Seq<char>, data: Seq<u8>)
    requires
        data.len() <= u64::MAX,
    ensures
        spec_read_result(spec_write_map(m, p, data, false), p, 0, data.len() as u64) == Ok::<
            Seq<u8>,
            BackendError,
        >(data),
{
    let m2 = spec_write_map(m, p, data, false);
    assert(m2[p].data == data);
    assert(spec_read_range(data, 0, data.len() as u64) =~= data);
}

proof fn lemma_list_nodes_sound(s: Seq<FileNode>, dir: Seq<char>, k: int)
    requires
        0 <= k < spec_list_nodes(s, dir).len(),
    ensures
        exists|i: int| 0 <= i < s.len() && s[i].path@ == spec_list_nodes(s, dir)[k].path,
        spec_is_child(dir, spec_list_nodes(s, dir)[k].path),
        spec_list_nodes(s, dir)[k].name == spec_child_name(dir, spec_list_nodes(s, dir)[k].path),
    decreases s.len(),
{
    let t = s.drop_last();
    let pre = spec_list_nodes(t, dir);
    if spec_is_child(dir, s.last().path@) && k == pre.len() {
        assert(s[s.len() - 1].path@ == spec_list_nodes(s, dir)[k].path);
    } else {
        lemma_list_nodes_sound(t, dir, k);
        assert(spec_list_nodes(s, dir)[k] == pre[k]);
        let i = choose|i: int| 0 <= i < t.len() && t[i].path@ == pre[k].path;
        assert(s[i].path@ == pre[k].path);
    }
}

proof fn lemma_list_nodes_distinct(s: Seq<FileNode>, dir: Seq<char>, k1: int, k2: int)
    requires
        spec_distinct_paths(s),
        0 <= k1 < k2 < spec_list_nodes(s, dir).len(),
    ensures
        spec_list_nodes(s, dir)[k1].path != spec_list_nodes(s, dir)[k2].path,
    decreases s.len(),
{
    let t = s.drop_last();
    let pre = spec_list_nodes(t, dir);
    if spec_is_child(dir, s.last().path@) && k2 == pre.len() {
        lemma_list_nodes_sound(t, dir, k1);
        let i = choose|i: int| 0 <= i < t.len() && t[i].path@ == pre[k1].path;
        assert(s[i] == t[i]);
        assert(s[i].path@ != s[s.len() - 1].path@);
    } else {
        lemma_list_nodes_distinct(t, dir, k1, k2);
        assert(spec_list_nodes(s, dir)[k1] == pre[k1]);
        assert(spec_list_nodes(s, dir)[k2] == pre[k2]);
    }
}

proof fn lemma_list_nodes_complete(s: Seq<FileNode>, dir: Seq<char>, i: int)
    requires
        0 <= i < s.len(),
        spec_is_child(dir, s[i].path@),
    ensures
        exists|k: int|
            0 <= k < spec_list_nodes(s, dir).len() && spec_list_nodes(s, dir)[k].path == s[i].path@,
    decreases s.len(),
{
    let t = s.drop_last();
    let pre = spec_list_nodes(t, dir);
    if i == s.len() - 1 {
        assert(spec_list_nodes(s, dir)[pre.len() as int].path == s[i].path@);
    } else {
        assert(t[i] == s[i]);
        lemma_list_nodes_complete(t, dir, i);
        let k = choose|k: int| 0 <= k < pre.len() && pre[k].path == t[i].path@;
        assert(spec_list_nodes(s, dir)[k] == pre[k]);
    }
}

} // verus!
