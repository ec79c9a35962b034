//! The overlay composite: a backend built from a `(base, overlay, policy)`
//! triple. Every operation consults the policy for its owner and forwards to
//! that backend; directory listings pull one page from each side per round
//! and hand both to the policy's merge.

use vstd::prelude::*;
use crate::attr::FileMeta;
use crate::capability::Capability;
use crate::errors::{BackendError, OpendalMountError};
use crate::policy::{
    entries_view, page_view, Entry, EntryView, Policy, PolicyOperation, Source,
};
use crate::store::{
    spec_create_dir_map, spec_read_result, spec_stat_result, spec_write_map, MemBackend, NodeView,
};

verus! {

/// Assembles an overlay from its three parts; `build` refuses to finish
/// while any is missing.
pub struct OverlayBuilder<B, O, P> {
    pub base_builder: Option<B>,
    pub overlay_builder: Option<O>,
    pub policy: Option<P>,
}

impl<B, O, P> OverlayBuilder<B, O, P> {
    pub fn new() -> (r: OverlayBuilder<B, O, P>)
        ensures
            r.base_builder is None,
            r.overlay_builder is None,
            r.policy is None,
    {
        OverlayBuilder { base_builder: None, overlay_builder: None, policy: None }
    }

    pub fn base_builder(self, base: B) -> (r: OverlayBuilder<B, O, P>)
        ensures
            r.base_builder == Some(base),
            r.overlay_builder == self.overlay_builder,
            r.policy == self.policy,
    {
        OverlayBuilder { base_builder: Some(base), ..self }
    }

    pub fn overlay_builder(self, overlay: O) -> (r: OverlayBuilder<B, O, P>)
        ensures
            r.base_builder == self.base_builder,
            r.overlay_builder == Some(overlay),
            r.policy == self.policy,
    {
        OverlayBuilder { overlay_builder: Some(overlay), ..self }
    }

    pub fn policy(self, policy: P) -> (r: OverlayBuilder<B, O, P>)
        ensures
            r.base_builder == self.base_builder,
            r.overlay_builder == self.overlay_builder,
            r.policy == Some(policy),
    {
        OverlayBuilder { policy: Some(policy), ..self }
    }

    /// Finish the builder. Each missing part is an `InvalidConfig` naming
    /// the part, checked in the order base, overlay, policy.
    pub fn build(self) -> (r: Result<OverlayBackend<B, O, P>, OpendalMountError>)
        ensures
            self.base_builder is None ==> (r matches Err(OpendalMountError::InvalidConfig { field })
                && field@ == "base"@),
            self.base_builder is Some && self.overlay_builder is None ==> (r matches Err(
                OpendalMountError::InvalidConfig { field },
            ) && field@ == "overlay"@),
            self.base_builder is Some && self.overlay_builder is Some && self.policy is None ==> (r
                matches Err(OpendalMountError::InvalidConfig { field }) && field@ == "policy"@),
            self.base_builder is Some && self.overlay_builder is Some && self.policy is Some ==> (r
                matches Ok(c) && c.base == self.base_builder.unwrap() && c.overlay
                == self.overlay_builder.unwrap() && c.policy == self.policy.unwrap()),
    {
        let base = match self.base_builder {
            Some(b) => b,
            None => {
                return Err(OpendalMountError::InvalidConfig { field: "base".to_owned() });
            },
        };
        let overlay = match self.overlay_builder {
            Some(o) => o,
            None => {
                return Err(OpendalMountError::InvalidConfig { field: "overlay".to_owned() });
            },
        };
        let policy = match self.policy {
            Some(p) => p,
            None => {
                return Err(OpendalMountError::InvalidConfig { field: "policy".to_owned() });
            },
        };
        Ok(OverlayBackend { base, overlay, policy })
    }
}

impl<B, O, P> Default for OverlayBuilder<B, O, P> {
    fn default() -> (r: OverlayBuilder<B, O, P>)
        ensures
            r.base_builder is None,
            r.overlay_builder is None,
            r.policy is None,
    {
        OverlayBuilder { base_builder: None, overlay_builder: None, policy: None }
    }
}

/// The composite accessor over a base, an overlay, and a policy.
#[derive(Debug)]
pub struct OverlayBackend<B, O, P> {
    pub base: B,
    pub overlay: O,
    pub policy: P,
}

/// A stream opened against one backend dispatches every call to that same
/// backend for its whole lifetime; the policy is consulted only at open
/// time. The wrapper adds routing and nothing else.
pub struct OverlayWrapper<R> {
    pub inner: R,
}

impl<R> OverlayWrapper<R> {
    pub fn new(inner: R) -> (r: OverlayWrapper<R>)
        ensures
            r.inner == inner,
    {
        OverlayWrapper { inner }
    }
}

/// The operation a write is routed as: plain write, or append.
pub open spec fn spec_write_op(append: bool) -> PolicyOperation {
    if append {
        PolicyOperation::Append
    } else {
        PolicyOperation::Write
    }
}

/// One page-yielding cursor over an in-memory listing: the whole listing in
/// one page, then exhaustion.
pub struct MemPager {
    pub entries: Vec<Entry>,
    pub done: bool,
}

impl MemPager {
    pub fn new(entries: Vec<Entry>) -> (r: MemPager)
        ensures
            r.entries == entries,
            !r.done,
    {
        MemPager { entries, done: false }
    }

    pub fn next(&mut self) -> (r: Option<Vec<Entry>>)
        ensures
            final(self).done,
            old(self).done ==> r is None && final(self).entries == old(self).entries,
            !old(self).done ==> (r matches Some(page) && page@ == old(self).entries@
                && final(self).entries@.len() == 0),
    {
        if self.done {
            None
        } else {
            self.done = true;
            let mut out: Vec<Entry> = Vec::new();
            out.append(&mut self.entries);
            Some(out)
        }
    }
}

/// The composite pager: one page from each side per round, merged by the
/// policy. Exhausted only when both sides are.
pub struct OverlayPager<P> {
    pub base: MemPager,
    pub overlay: MemPager,
    pub policy: P,
}

impl<P: Policy + Copy> OverlayPager<P> {
    pub fn new(base: MemPager, overlay: MemPager, policy: P) -> (r: OverlayPager<P>)
        ensures
            r.base == base,
            r.overlay == overlay,
            r.policy == policy,
    {
        OverlayPager { base, overlay, policy }
    }

    pub fn next(&mut self) -> (r: Option<Vec<Entry>>)
        ensures
            final(self).policy == old(self).policy,
            final(self).base.done,
            final(self).overlay.done,
            page_view(r) == old(self).policy.spec_merge(
                if old(self).base.done {
                    None
                } else {
                    Some(entries_view(old(self).base.entries@))
                },
                if old(self).overlay.done {
                    None
                } else {
                    Some(entries_view(old(self).overlay.entries@))
                },
            ),
    {
        let bp = self.base.next();
        let op = self.overlay.next();
        self.policy.merge(bp, op)
    }
}

/// The entries of a merged page; an exhausted page carries none.
pub open spec fn page_entries(p: Option<Seq<EntryView>>) -> Seq<EntryView> {
    match p {
        Some(s) => s,
        None => Seq::empty(),
    }
}

impl<P: Policy + Copy> OverlayBackend<MemBackend, MemBackend, P> {
    /// Both stores hold each path at most once.
    pub open spec fn wf(&self) -> bool {
        self.base.wf() && self.overlay.wf()
    }

    /// The contents of the backend that owns `op` on `path`.
    pub open spec fn spec_selected(&self, path: Seq<char>, op: PolicyOperation) -> Map<
        Seq<char>,
        NodeView,
    > {
        match self.policy.spec_owner(path, op) {
            Source::Base => self.base@,
            Source::Overlay => self.overlay@,
        }
    }

    /// The composite's own advertisement: the custom scheme name and the
    /// capability the policy grants.
    pub fn info(&self) -> (r: (String, Capability))
        ensures
            r.0@ == "overlay"@,
            r.1 == self.policy.spec_capability(self.base.spec_cap(), self.overlay.spec_cap()),
    {
        let cap = self.policy.capability(&self.base.capability(), &self.overlay.capability());
        ("overlay".to_owned(), cap)
    }

    /// Stat through the owner the policy picks: the composite's answer is
    /// exactly the selected backend's answer.
    pub fn stat(&self, path: &str) -> (r: Result<FileMeta, BackendError>)
        requires
            self.wf(),
        ensures
            r == spec_stat_result(self.spec_selected(path@, PolicyOperation::Stat), path@),
    {
        match self.policy.owner(path, PolicyOperation::Stat) {
            Source::Base => self.base.stat(path),
            Source::Overlay => self.overlay.stat(path),
        }
    }

    /// Ranged read through the owner the policy picks.
    pub fn read_range(&self, path: &str, offset: u64, count: u64) -> (r: Result<
        Vec<u8>,
        BackendError,
    >)
        requires
            self.wf(),
        ensures
            ({
                let m = self.spec_selected(path@, PolicyOperation::Read);
                match r {
                    Ok(d) => spec_read_result(m, path@, offset, count) == Ok::<
                        Seq<u8>,
                        BackendError,
                    >(d@),
                    Err(e) => spec_read_result(m, path@, offset, count) == Err::<
                        Seq<u8>,
                        BackendError,
                    >(e),
                }
            }),
    {
        match self.policy.owner(path, PolicyOperation::Read) {
            Source::Base => self.base.read_range(path, offset, count),
            Source::Overlay => self.overlay.read_range(path, offset, count),
        }
    }

    /// Write through the owner the policy picks; the other side is left
    /// untouched.
    pub fn write(&mut self, path: &str, data: Vec<u8>, append: bool)
        requires
            old(self).wf(),
        ensures
            final(self).wf(),
            final(self).policy == old(self).policy,
            match old(self).policy.spec_owner(path@, spec_write_op(append)) {
                Source::Base => final(self).base@ == spec_write_map(
                    old(self).base@,
                    path@,
                    data@,
                    append,
                ) && final(self).base.spec_cap() == old(self).base.spec_cap() && final(self).overlay == old(self).overlay,
                Source::Overlay => final(self).overlay@ == spec_write_map(
                    old(self).overlay@,
                    path@,
                    data@,
                    append,
                ) && final(self).overlay.spec_cap() == old(self).overlay.spec_cap() && final(self).base == old(self).base,
            },
    {
        let op = if append {
            PolicyOperation::Append
        } else {
            PolicyOperation::Write
        };
        match self.policy.owner(path, op) {
            Source::Base => self.base.write(path, data, append),
            Source::Overlay => self.overlay.write(path, data, append),
        }
    }

    /// Create a directory through the owner the policy picks.
    pub fn create_dir(&mut self, path: &str)
        requires
            old(self).wf(),
        ensures
            final(self).wf(),
            final(self).policy == old(self).policy,
            match old(self).policy.spec_owner(path@, PolicyOperation::CreateDir) {
                Source::Base => final(self).base@ == spec_create_dir_map(old(self).base@, path@)
                    && final(self).base.spec_cap() == old(self).base.spec_cap() && final(self).overlay == old(self).overlay,
                Source::Overlay => final(self).overlay@ == spec_create_dir_map(
                    old(self).overlay@,
                    path@,
                ) && final(self).overlay.spec_cap() == old(self).overlay.spec_cap() && final(self).base == old(self).base,
            },
    {
        match self.policy.owner(path, PolicyOperation::CreateDir) {
            Source::Base => self.base.create_dir(path),
            Source::Overlay => self.overlay.create_dir(path),
        }
    }

    /// Open a reader on `path`: the policy picks the owner once, at open
    /// time, and the reader stays on that backend for its whole lifetime.
    pub fn reader(&self, path: &str) -> (r: Result<
        crate::stream::OverlayReader,
        BackendError,
    >)
        requires
            self.wf(),
        ensures
            ({
                let m = self.spec_selected(path@, PolicyOperation::Read);
                match r {
                    Ok(rd) => {
                        &&& m.dom().contains(path@)
                        &&& rd.spec_inner().data@ == m[path@].data
                        &&& rd.spec_inner().pos == 0
                        &&& (rd.is_base() <==> self.policy.spec_owner(path@, PolicyOperation::Read)
                            == Source::Base)
                    },
                    Err(e) => !m.dom().contains(path@) && e == BackendError::NotFound,
                }
            }),
    {
        let data = match self.policy.owner(path, PolicyOperation::Read) {
            Source::Base => self.base.read_range(path, 0, u64::MAX),
            Source::Overlay => self.overlay.read_range(path, 0, u64::MAX),
        };
        match data {
            Ok(bytes) => {
                proof {
                    let m = self.spec_selected(path@, PolicyOperation::Read);
                    match self.policy.spec_owner(path@, PolicyOperation::Read) {
                        Source::Base => self.base.lemma_view_data_bounded(path@),
                        Source::Overlay => self.overlay.lemma_view_data_bounded(path@),
                    }
                    assert(bytes@ =~= m[path@].data);
                }
                let inner = crate::stream::MemReader::new(bytes);
                match self.policy.owner(path, PolicyOperation::Read) {
                    Source::Base => Ok(crate::stream::OverlayReader::Base(inner)),
                    Source::Overlay => Ok(crate::stream::OverlayReader::Overlay(inner)),
                }
            },
            Err(e) => Err(e),
        }
    }

    /// Open a writer on `path`: routed once, at open time.
    pub fn writer(&self, path: &str) -> (w: crate::stream::OverlayWriter)
        ensures
            !w.spec_inner().closed,
            w.spec_inner().buf@.len() == 0,
            (w.is_base() <==> self.policy.spec_owner(path@, PolicyOperation::Write)
                == Source::Base),
    {
        match self.policy.owner(path, PolicyOperation::Write) {
            Source::Base => crate::stream::OverlayWriter::Base(crate::stream::MemWriter::new()),
            Source::Overlay => crate::stream::OverlayWriter::Overlay(
                crate::stream::MemWriter::new(),
            ),
        }
    }

    /// Open an appender on `path`: routed once, at open time.
    pub fn appender(&self, path: &str) -> (a: crate::stream::OverlayAppender)
        ensures
            !a.spec_inner().closed,
            a.spec_inner().buf@.len() == 0,
            (a.is_base() <==> self.policy.spec_owner(path@, PolicyOperation::Append)
                == Source::Base),
    {
        match self.policy.owner(path, PolicyOperation::Append) {
            Source::Base => crate::stream::OverlayAppender::Base(crate::stream::MemWriter::new()),
            Source::Overlay => crate::stream::OverlayAppender::Overlay(
                crate::stream::MemWriter::new(),
            ),
        }
    }

    /// List `path`: a pager per side, pulled in lockstep until both are
    /// exhausted, each round's pages merged by the policy.
    pub fn list(&self, path: &str) -> (r: Vec<Entry>)
        requires
            self.wf(),
        ensures
            entries_view(r@) == page_entries(
                self.policy.spec_merge(
                    Some(self.base.spec_list(path@)),
                    Some(self.overlay.spec_list(path@)),
                ),
            ),
    {
        let ghost base_page = self.base.spec_list(path@);
        let ghost overlay_page = self.overlay.spec_list(path@);
        let mut pager = OverlayPager::new(
            MemPager::new(self.base.list(path)),
            MemPager::new(self.overlay.list(path)),
            self.policy,
        );
        let mut out: Vec<Entry> = Vec::new();
        while !(pager.base.done && pager.overlay.done)
            invariant
                pager.policy == self.policy,
                pager.base.done == pager.overlay.done,
                !pager.base.done ==> out@.len() == 0 && entries_view(pager.base.entries@)
                    == base_page && entries_view(pager.overlay.entries@) == overlay_page,
                pager.base.done ==> entries_view(out@) == page_entries(
                    self.policy.spec_merge(Some(base_page), Some(overlay_page)),
                ),
            decreases (if pager.base.done { 0int } else { 1int }),
        {
            let page = pager.next();
            match page {
                Some(mut entries) => {
                    let ghost merged = self.policy.spec_merge(
                        Some(base_page),
                        Some(overlay_page),
                    );
                    out.append(&mut entries);
                    proof {
                        assert(entries_view(out@) =~= page_entries(merged));
                    }
                },
                None => {},
            }
        }
        out
    }
}

} // verus!
