//! Policies: pure decision objects that route each operation to one of the
//! two backends and merge paged directory listings.

use vstd::prelude::*;
use crate::capability::Capability;
use crate::text;

verus! {

/// Which backend owns an operation.
#[derive(Debug, Clone, Copy, PartialEq, Eq, Structural)]
pub enum Source {
    Base,
    Overlay,
}

/// The kind of single-backend operation a policy is asked to route.
#[derive(Debug, Clone, Copy, PartialEq, Eq, Structural)]
pub enum PolicyOperation {
    Stat,
    Read,
    Write,
    CreateDir,
    Append,
}

/// One directory entry as a backend lists it: the full path of the child and
/// its name within the directory.
#[derive(Debug, Clone)]
pub struct Entry {
    pub path: String,
    pub name: String,
}

/// The mathematical shadow of an [`Entry`].
pub struct EntryView {
    pub path: Seq<char>,
    pub name: Seq<char>,
}

impl View for Entry {
    type V = EntryView;

    open spec fn view(&self) -> EntryView {
        EntryView { path: self.path@, name: self.name@ }
    }
}

/// The views of a sequence of entries.
pub open spec fn entries_view(s: Seq<Entry>) -> Seq<EntryView> {
    s.map_values(|e: Entry| e@)
}

/// The view of one page: `None` is an exhausted pager.
pub open spec fn page_view(p: Option<Vec<Entry>>) -> Option<Seq<EntryView>> {
    match p {
        Some(v) => Some(entries_view(v@)),
        None => None,
    }
}

/// Does some entry of `s` carry the name `n`?
pub open spec fn contains_name(s: Seq<EntryView>, n: Seq<char>) -> bool {
    exists|i: int| 0 <= i < s.len() && s[i].name == n
}

/// The entries of `b` whose names do not already occur in `o`, in order.
pub open spec fn spec_keep_new(o: Seq<EntryView>, b: Seq<EntryView>) -> Seq<EntryView>
    decreases b.len(),
{
    if b.len() == 0 {
        Seq::empty()
    } else {
        let pre = spec_keep_new(o, b.drop_last());
        if contains_name(o, b.last().name) {
            pre
        } else {
            pre.push(b.last())
        }
    }
}

/// Union-style page merge: the overlay page first, then every base entry
/// whose name the overlay page does not already carry. A side that is
/// exhausted contributes nothing; the merge is exhausted only when both are.
pub open spec fn spec_merge_union(
    base: Option<Seq<EntryView>>,
    overlay: Option<Seq<EntryView>>,
) -> Option<Seq<EntryView>> {
    match (overlay, base) {
        (Some(o), Some(b)) => Some(o + spec_keep_new(o, b)),
        (Some(o), None) => Some(o),
        (None, Some(b)) => Some(b),
        (None, None) => None,
    }
}

/// Exec check for [`contains_name`].
pub fn entries_contain_name(v: &Vec<Entry>, n: &str) -> (r: bool)
    ensures
        r == contains_name(entries_view(v@), n@),
{
    let mut i: usize = 0;
    while i < v.len()
        invariant
            i <= v@.len(),
            forall|j: int| 0 <= j < i ==> entries_view(v@)[j].name != n@,
        decreases v@.len() - i,
    {
        if text::str_eq(v[i].name.as_str(), n) {
            assert(entries_view(v@)[i as int].name == n@);
            return true;
        }
        i = i + 1;
    }
    false
}

/// Exec union merge. See [`spec_merge_union`].
pub fn merge_union(base: Option<Vec<Entry>>, overlay: Option<Vec<Entry>>) -> (r: Option<
    Vec<Entry>,
>)
    ensures
        page_view(r) == spec_merge_union(page_view(base), page_view(overlay)),
{
    match (overlay, base) {
        (Some(o), Some(b)) => {
            let ghost o_view = entries_view(o@);
            let ghost b_view = entries_view(b@);
            let mut extra: Vec<Entry> = Vec::new();
            let mut i: usize = 0;
            proof {
                assert(b_view.subrange(0, 0) =~= Seq::<EntryView>::empty());
                assert(entries_view(extra@) =~= spec_keep_new(o_view, b_view.subrange(0, 0)));
            }
            while i < b.len()
                invariant
                    i <= b@.len(),
                    o_view == entries_view(o@),
                    b_view == entries_view(b@),
                    entries_view(extra@) == spec_keep_new(o_view, b_view.subrange(0, i as int)),
                decreases b@.len() - i,
            {
                let ghost pre = b_view.subrange(0, i as int);
                proof {
                    assert(b_view.subrange(0, i + 1).drop_last() =~= pre);
                    assert(b_view.subrange(0, i + 1).last() == b_view[i as int]);
                    assert(b_view[i as int] == b@[i as int]@);
                }
                if !entries_contain_name(&o, b[i].name.as_str()) {
                    let e = Entry { path: b[i].path.clone(), name: b[i].name.clone() };
                    proof {
                        assert(e@ == b_view[i as int]);
                    }
                    extra.push(e);
                    proof {
                        assert(entries_view(extra@) =~= spec_keep_new(
                            o_view,
                            b_view.subrange(0, i + 1),
                        ));
                    }
                } else {
                    proof {
                        assert(entries_view(extra@) =~= spec_keep_new(
                            o_view,
                            b_view.subrange(0, i + 1),
                        ));
                    }
                }
                i = i + 1;
            }
            proof {
                assert(b_view.subrange(0, b@.len() as int) =~= b_view);
            }
            let mut out = o;
            out.append(&mut extra);
            proof {
                assert(entries_view(out@) =~= o_view + spec_keep_new(o_view, b_view));
            }
            Some(out)
        },
        (Some(o), None) => Some(o),
        (None, Some(b)) => Some(b),
        (None, None) => None,
    }
}

/// Base-only page merge: the overlay page is discarded entirely.
pub open spec fn spec_merge_base_only(
    base: Option<Seq<EntryView>>,
    overlay: Option<Seq<EntryView>>,
) -> Option<Seq<EntryView>> {
    base
}

/// A policy routes every single-backend operation, advertises a capability
/// for the composite, and merges one page from each side into one page.
/// Policies are pure: the decision depends only on the arguments.
pub trait Policy: Sized {
    /// Which backend owns an operation on `path`.
    spec fn spec_owner(&self, path: Seq<char>, op: PolicyOperation) -> Source;

    /// The capability the composite advertises.
    spec fn spec_capability(&self, base: Capability, overlay: Capability) -> Capability;

    /// How one page from each side becomes one merged page.
    spec fn spec_merge(
        &self,
        base: Option<Seq<EntryView>>,
        overlay: Option<Seq<EntryView>>,
    ) -> Option<Seq<EntryView>>;

    fn owner(&self, path: &str, op: PolicyOperation) -> (s: Source)
        ensures
            s == self.spec_owner(path@, op),
    ;

    fn capability(&self, base: &Capability, overlay: &Capability) -> (c: Capability)
        ensures
            c == self.spec_capability(*base, *overlay),
    ;

    fn merge(&self, base: Option<Vec<Entry>>, overlay: Option<Vec<Entry>>) -> (r: Option<
        Vec<Entry>,
    >)
        ensures
            page_view(r) == self.spec_merge(page_view(base), page_view(overlay)),
    ;
}

/// Routes everything to the base and lists only the base: the overlay is
/// completely masked.
#[derive(Debug, Clone, Copy)]
pub struct BaseOnlyPolicy;

impl Policy for BaseOnlyPolicy {
    open spec fn spec_owner(&self, path: Seq<char>, op: PolicyOperation) -> Source {
        Source::Base
    }

    open spec fn spec_capability(&self, base: Capability, overlay: Capability) -> Capability {
        base
    }

    open spec fn spec_merge(
        &self,
        base: Option<Seq<EntryView>>,
        overlay: Option<Seq<EntryView>>,
    ) -> Option<Seq<EntryView>> {
        spec_merge_base_only(base, overlay)
    }

    fn owner(&self, path: &str, op: PolicyOperation) -> (s: Source) {
        Source::Base
    }

    fn capability(&self, base: &Capability, overlay: &Capability) -> (c: Capability) {
        *base
    }

    fn merge(&self, base: Option<Vec<Entry>>, overlay: Option<Vec<Entry>>) -> (r: Option<
        Vec<Entry>,
    >) {
        base
    }
}

/// Writes land in the base; listings are the union of both sides, with the
/// overlay preferred when both list the same name.
#[derive(Debug, Clone, Copy)]
pub struct UnionPolicy;

impl Policy for UnionPolicy {
    open spec fn spec_owner(&self, path: Seq<char>, op: PolicyOperation) -> Source {
        Source::Base
    }

    open spec fn spec_capability(&self, base: Capability, overlay: Capability) -> Capability {
        base
    }

    open spec fn spec_merge(
        &self,
        base: Option<Seq<EntryView>>,
        overlay: Option<Seq<EntryView>>,
    ) -> Option<Seq<EntryView>> {
        spec_merge_union(base, overlay)
    }

    fn owner(&self, path: &str, op: PolicyOperation) -> (s: Source) {
        Source::Base
    }

    fn capability(&self, base: &Capability, overlay: &Capability) -> (c: Capability) {
        *base
    }

    fn merge(&self, base: Option<Vec<Entry>>, overlay: Option<Vec<Entry>>) -> (r: Option<
        Vec<Entry>,
    >) {
        merge_union(base, overlay)
    }
}

/// The default policy: union semantics.
#[derive(Debug, Clone, Copy)]
pub struct NaivePolicy;

impl Policy for NaivePolicy {
    open spec fn spec_owner(&self, path: Seq<char>, op: PolicyOperation) -> Source {
        Source::Base
    }

    open spec fn spec_capability(&self, base: Capability, overlay: Capability) -> Capability {
        base
    }

    open spec fn spec_merge(
        &self,
        base: Option<Seq<EntryView>>,
        overlay: Option<Seq<EntryView>>,
    ) -> Option<Seq<EntryView>> {
        spec_merge_union(base, overlay)
    }

    fn owner(&self, path: &str, op: PolicyOperation) -> (s: Source) {
        Source::Base
    }

    fn capability(&self, base: &Capability, overlay: &Capability) -> (c: Capability) {
        *base
    }

    fn merge(&self, base: Option<Vec<Entry>>, overlay: Option<Vec<Entry>>) -> (r: Option<
        Vec<Entry>,
    >) {
        merge_union(base, overlay)
    }
}

/// Is `n` one of the operating-system special file names, or a `._*`
/// AppleDouble companion?
pub open spec fn spec_is_special_name(n: Seq<char>) -> bool {
    ||| n == ".DS_Store"@
    ||| n == ".Spotlight-V100"@
    ||| n == ".VolumeIcon.icns"@
    ||| n == ".Trash"@
    ||| n == ".Trashes"@
    ||| n == ".fseventsd"@
    ||| n == ".hidden"@
    ||| n == "DCIM"@
    ||| n == ".metadata_never_index_unless_rootfs"@
    ||| n == ".metadata_never_index"@
    ||| n == ".metadata_direct_scope_only"@
    ||| (n.len() >= 2 && n[0] == '.' && n[1] == '_')
}

/// Is the final component of `path` a special file name?
pub open spec fn spec_is_special_file(path: Seq<char>) -> bool {
    spec_is_special_name(text::spec_file_name(path))
}

/// Routes operations on operating-system special files (Finder metadata,
/// trash folders, AppleDouble files) to the overlay and everything else to
/// the base, so that such files never pollute the base store.
#[derive(Debug, Clone, Copy)]
pub struct OsFilesPolicy;

impl OsFilesPolicy {
    /// Does the final component of `path` name an OS special file?
    pub fn is_special_file(path: &str) -> (r: bool)
        ensures
            r == spec_is_special_file(path@),
    {
        let name = text::file_name(path);
        let n = name.as_str();
        let prefixed = if n.unicode_len() >= 2 {
            n.get_char(0) == '.' && n.get_char(1) == '_'
        } else {
            false
        };
        prefixed
            || text::str_eq(n, ".DS_Store")
            || text::str_eq(n, ".Spotlight-V100")
            || text::str_eq(n, ".VolumeIcon.icns")
            || text::str_eq(n, ".Trash")
            || text::str_eq(n, ".Trashes")
            || text::str_eq(n, ".fseventsd")
            || text::str_eq(n, ".hidden")
            || text::str_eq(n, "DCIM")
            || text::str_eq(n, ".metadata_never_index_unless_rootfs")
            || text::str_eq(n, ".metadata_never_index")
            || text::str_eq(n, ".metadata_direct_scope_only")
    }
}

impl Policy for OsFilesPolicy {
    open spec fn spec_owner(&self, path: Seq<char>, op: PolicyOperation) -> Source {
        if spec_is_special_file(path) {
            Source::Overlay
        } else {
            Source::Base
        }
    }

    open spec fn spec_capability(&self, base: Capability, overlay: Capability) -> Capability {
        base
    }

    open spec fn spec_merge(
        &self,
        base: Option<Seq<EntryView>>,
        overlay: Option<Seq<EntryView>>,
    ) -> Option<Seq<EntryView>> {
        spec_merge_union(base, overlay)
    }

    fn owner(&self, path: &str, op: PolicyOperation) -> (s: Source) {
        if OsFilesPolicy::is_special_file(path) {
            Source::Overlay
        } else {
            Source::Base
        }
    }

    fn capability(&self, base: &Capability, overlay: &Capability) -> (c: Capability) {
        *base
    }

    fn merge(&self, base: Option<Vec<Entry>>, overlay: Option<Vec<Entry>>) -> (r: Option<
        Vec<Entry>,
    >) {
        merge_union(base, overlay)
    }
}

/// The special-files policy routes by the path alone: every operation on
/// one path goes to the same backend, so a write and a later read of a
/// path meet the same store. The other built-in policies route every
/// operation to the base, so the same holds of them by definition.
pub proof fn lemma_os_files_owner_uniform(
    p: OsFilesPolicy,
    path: Seq<char>,
    op1: PolicyOperation,
    op2: PolicyOperation,
)
    ensures
        p.spec_owner(path, op1) == p.spec_owner(path, op2),
{
}

/// Every name listed by either side survives a union merge: the merged page
/// carries each name of the overlay page and each name of the base page.
pub proof fn lemma_union_merge_complete(
    base: Seq<EntryView>,
    overlay: Seq<EntryView>,
    n: Seq<char>,
)
    requires
        contains_name(base, n) || contains_name(overlay, n),
    ensures
        spec_merge_union(Some(base), Some(overlay)) matches Some(m) && contains_name(m, n),
{
    let m = (overlay + spec_keep_new(overlay, base));
    if contains_name(overlay, n) {
        let i = choose|i: int| 0 <= i < overlay.len() && overlay[i].name == n;
        assert(m[i] == overlay[i]);
    } else {
        lemma_keep_new_covers(overlay, base, n);
        let i = choose|i: int|
            0 <= i < spec_keep_new(overlay, base).len() && spec_keep_new(overlay, base)[i].name
                == n;
        assert(m[overlay.len() + i] == spec_keep_new(overlay, base)[i]);
    }
}

/// A base entry's name either already occurs in the overlay page or is kept.
proof fn lemma_keep_new_covers(o: Seq<EntryView>, b: Seq<EntryView>, n: Seq<char>)
    requires
        contains_name(b, n),
        !contains_name(o, n),
    ensures
        contains_name(spec_keep_new(o, b), n),
    decreases b.len(),
{
    if b.len() > 0 {
        let pre = spec_keep_new(o, b.drop_last());
        if b.last().name == n {
            assert(spec_keep_new(o, b) == pre.push(b.last()));
            assert(spec_keep_new(o, b)[pre.len() as int].name == n);
        } else {
            let i = choose|i: int| 0 <= i < b.len() && b[i].name == n;
            assert(b.drop_last()[i] == b[i]);
            lemma_keep_new_covers(o, b.drop_last(), n);
            let j = choose|j: int| 0 <= j < pre.len() && pre[j].name == n;
            if contains_name(o, b.last().name) {
                assert(spec_keep_new(o, b)[j].name == n);
            } else {
                assert(spec_keep_new(o, b) == pre.push(b.last()));
                assert(spec_keep_new(o, b)[j].name == n);
            }
        }
    }
}

/// A union merge invents nothing: every merged entry is an entry of one of
/// the two input pages.
pub proof fn lemma_union_merge_sound(base: Seq<EntryView>, overlay: Seq<EntryView>, i: int)
    requires
        spec_merge_union(Some(base), Some(overlay)) matches Some(m) && 0 <= i < m.len(),
    ensures
        spec_merge_union(Some(base), Some(overlay)) matches Some(m) && (contains_entry(
            overlay,
            m[i],
        ) || contains_entry(base, m[i])),
{
    let m = (overlay + spec_keep_new(overlay, base));
    if i < overlay.len() {
        assert(m[i] == overlay[i]);
    } else {
        lemma_keep_new_sound(overlay, base, i - overlay.len());
    }
}

/// Is `e` one of the entries of `s`?
pub open spec fn contains_entry(s: Seq<EntryView>, e: EntryView) -> bool {
    exists|i: int| 0 <= i < s.len() && s[i] == e
}

/// Nothing kept from the base page carries a name the overlay page holds.
proof fn lemma_keep_new_not_in_overlay(o: Seq<EntryView>, b: Seq<EntryView>, i: int)
    requires
        0 <= i < spec_keep_new(o, b).len(),
    ensures
        !contains_name(o, spec_keep_new(o, b)[i].name),
    decreases b.len(),
{
    let pre = spec_keep_new(o, b.drop_last());
    if !contains_name(o, b.last().name) && i == pre.len() {
        assert(spec_keep_new(o, b)[i] == b.last());
    } else {
        lemma_keep_new_not_in_overlay(o, b.drop_last(), i);
        if contains_name(o, b.last().name) {
            assert(spec_keep_new(o, b)[i] == pre[i]);
        } else {
            assert(spec_keep_new(o, b)[i] == pre[i]);
        }
    }
}

/// Kept base entries inherit the base page's name distinctness.
proof fn lemma_keep_new_distinct(o: Seq<EntryView>, b: Seq<EntryView>, k1: int, k2: int)
    requires
        forall|i: int, j: int| 0 <= i < j < b.len() ==> b[i].name != b[j].name,
        0 <= k1 < k2 < spec_keep_new(o, b).len(),
    ensures
        spec_keep_new(o, b)[k1].name != spec_keep_new(o, b)[k2].name,
    decreases b.len(),
{
    let t = b.drop_last();
    let pre = spec_keep_new(o, t);
    assert forall|i: int, j: int| 0 <= i < j < t.len() implies t[i].name != t[j].name by {
        assert(t[i] == b[i] && t[j] == b[j]);
    }
    if !contains_name(o, b.last().name) && k2 == pre.len() {
        assert(spec_keep_new(o, b)[k2] == b.last());
        assert(spec_keep_new(o, b)[k1] == pre[k1]);
        lemma_keep_new_sound(o, t, k1);
        let j = choose|j: int| 0 <= j < t.len() && t[j] == pre[k1];
        assert(b[j] == t[j]);
        assert(b[j].name != b[b.len() - 1].name);
    } else {
        lemma_keep_new_distinct(o, t, k1, k2);
        if contains_name(o, b.last().name) {
            assert(spec_keep_new(o, b)[k1] == pre[k1] && spec_keep_new(o, b)[k2] == pre[k2]);
        } else {
            assert(spec_keep_new(o, b)[k1] == pre[k1] && spec_keep_new(o, b)[k2] == pre[k2]);
        }
    }
}

/// A union merge of two pages that each carry pairwise-distinct names
/// yields a page with pairwise-distinct names: every name is emitted at
/// most once per page.
pub proof fn lemma_union_merge_distinct(
    base: Seq<EntryView>,
    overlay: Seq<EntryView>,
    k1: int,
    k2: int,
)
    requires
        forall|i: int, j: int| 0 <= i < j < base.len() ==> base[i].name != base[j].name,
        forall|i: int, j: int| 0 <= i < j < overlay.len() ==> overlay[i].name != overlay[j].name,
        spec_merge_union(Some(base), Some(overlay)) matches Some(m) && 0 <= k1 < k2 < m.len(),
    ensures
        spec_merge_union(Some(base), Some(overlay)) matches Some(m) && m[k1].name != m[k2].name,
{
    let m = overlay + spec_keep_new(overlay, base);
    if k2 < overlay.len() {
        assert(m[k1] == overlay[k1] && m[k2] == overlay[k2]);
    } else if k1 < overlay.len() {
        assert(m[k1] == overlay[k1]);
        assert(m[k2] == spec_keep_new(overlay, base)[k2 - overlay.len()]);
        lemma_keep_new_not_in_overlay(overlay, base, k2 - overlay.len());
        if m[k1].name == m[k2].name {
            assert(contains_name(overlay, m[k2].name));
        }
    } else {
        assert(m[k1] == spec_keep_new(overlay, base)[k1 - overlay.len()]);
        assert(m[k2] == spec_keep_new(overlay, base)[k2 - overlay.len()]);
        lemma_keep_new_distinct(overlay, base, k1 - overlay.len(), k2 - overlay.len());
    }
}

proof fn lemma_keep_new_sound(o: Seq<EntryView>, b: Seq<EntryView>, i: int)
    requires
        0 <= i < spec_keep_new(o, b).len(),
    ensures
        contains_entry(b, spec_keep_new(o, b)[i]),
    decreases b.len(),
{
    let pre = spec_keep_new(o, b.drop_last());
    if !contains_name(o, b.last().name) && i == pre.len() {
        assert(spec_keep_new(o, b)[i] == b.last());
        assert(b[b.len() - 1] == b.last());
    } else {
        lemma_keep_new_sound(o, b.drop_last(), i);
        let j = choose|j: int| 0 <= j < b.drop_last().len() && b.drop_last()[j] == pre[i];
        assert(b[j] == pre[i]);
        if contains_name(o, b.last().name) {
            assert(spec_keep_new(o, b)[i] == pre[i]);
        } else {
            assert(spec_keep_new(o, b)[i] == pre[i]);
        }
    }
}

} // verus!
