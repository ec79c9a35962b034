//! The control plane: a registry of running NFS services keyed by random
//! ids, a registry of mounted filesystems keyed by mount point, and the
//! resolution of backend scheme names.

use vstd::prelude::*;
use crate::errors::OpendalMountError;

verus! {

/// Relies on uuid::Uuid::new_v4 and uuid::Uuid::as_u128: a freshly
/// generated random id. Nothing is promised of the value: it depends on
/// the process's entropy source.
#[verifier::external_body]
fn new_service_id() -> (r: u128) {
    uuid::Uuid::new_v4().as_u128()
}

/// One mounted filesystem as the management surface reports it.
pub struct MountedFs {
    pub id: String,
    pub mount_point: String,
    pub scheme: String,
    pub root: String,
    pub name: String,
}

/// The mathematical shadow of a [`MountedFs`].
pub struct MountedFsView {
    pub id: Seq<char>,
    pub mount_point: Seq<char>,
    pub scheme: Seq<char>,
    pub root: Seq<char>,
    pub name: Seq<char>,
}

impl View for MountedFs {
    type V = MountedFsView;

    open spec fn view(&self) -> MountedFsView {
        MountedFsView {
            id: self.id@,
            mount_point: self.mount_point@,
            scheme: self.scheme@,
            root: self.root@,
            name: self.name@,
        }
    }
}

impl MountedFs {
    /// A value-equal copy of the record.
    pub fn duplicate(&self) -> (r: MountedFs)
        ensures
            r@ == self@,
    {
        MountedFs {
            id: self.id.clone(),
            mount_point: self.mount_point.clone(),
            scheme: self.scheme.clone(),
            root: self.root.clone(),
            name: self.name.clone(),
        }
    }
}

/// Is some service registered under this id?
pub open spec fn spec_has_service<S>(s: Seq<(u128, S)>, id: u128) -> bool {
    exists|j: int| 0 <= j < s.len() && s[j].0 == id
}

/// The registry of running NFS services: each carries the handle the
/// embedding server needs to drive it (a listener, a task, an address).
/// The registry itself only keys, inserts and removes; every handle is
/// given out again for the embedder to act on.
pub struct NFSServer<S> {
    services: Vec<(u128, S)>,
}

impl<S> View for NFSServer<S> {
    type V = Seq<(u128, S)>;

    closed spec fn view(&self) -> Seq<(u128, S)> {
        self.services@
    }
}

impl<S> NFSServer<S> {
    /// No id is registered twice.
    pub open spec fn wf(&self) -> bool {
        forall|i: int, j: int| 0 <= i < j < self@.len() ==> self@[i].0 != self@[j].0
    }

    /// An empty registry.
    pub fn new() -> (r: NFSServer<S>)
        ensures
            r.wf(),
            r@.len() == 0,
    {
        NFSServer { services: Vec::new() }
    }

    fn find(&self, id: u128) -> (r: Option<usize>)
        ensures
            match r {
                Some(j) => j < self@.len() && self@[j as int].0 == id,
                None => !spec_has_service(self@, id),
            },
    {
        let mut j: usize = 0;
        while j < self.services.len()
            invariant
                j <= self@.len(),
                forall|k: int| 0 <= k < j ==> self@[k].0 != id,
            decreases self@.len() - j,
        {
            if self.services[j].0 == id {
                return Some(j);
            }
            j = j + 1;
        }
        None
    }

    /// Record a running service under a fresh random id. In the vanishingly
    /// unlikely event that the generated id collides with a live one,
    /// nothing is recorded and an I/O error is reported; on an empty
    /// registry no drawn id can collide, so registration always succeeds.
    pub fn register(&mut self, svc: S) -> (r: Result<u128, OpendalMountError>)
        requires
            old(self).wf(),
        ensures
            final(self).wf(),
            match r {
                Ok(id) => !spec_has_service(old(self)@, id) && final(self)@ == old(self)@.push(
                    (id, svc),
                ),
                Err(_) => final(self)@ == old(self)@ && old(self)@.len() > 0,
            },
    {
        let id = new_service_id();
        match self.find(id) {
            Some(_) => Err(
                OpendalMountError::Io { cause: "service id collision".to_owned() },
            ),
            None => {
                self.services.push((id, svc));
                Ok(id)
            },
        }
    }

    /// Remove a service, handing its handle back so the embedder can stop
    /// it; absent ids report nothing.
    pub fn unregister(&mut self, id: u128) -> (r: Option<S>)
        requires
            old(self).wf(),
        ensures
            final(self).wf(),
            !spec_has_service(old(self)@, id) ==> r is None && final(self)@ == old(self)@,
            spec_has_service(old(self)@, id) ==> (exists|j: int|
                0 <= j < old(self)@.len() && old(self)@[j].0 == id && r == Some(old(self)@[j].1)
                    && final(self)@ == old(self)@.remove(j)),
    {
        match self.find(id) {
            Some(j) => {
                let (_, svc) = self.services.remove(j);
                Some(svc)
            },
            None => None,
        }
    }

    /// Borrow a service's handle.
    pub fn get(&self, id: u128) -> (r: Option<&S>)
        ensures
            match r {
                Some(s) => exists|j: int| 0 <= j < self@.len() && self@[j] == (id, *s),
                None => !spec_has_service(self@, id),
            },
    {
        match self.find(id) {
            Some(j) => Some(&self.services[j].1),
            None => None,
        }
    }

    /// The ids of all running services, in registration order.
    pub fn file_systems(&self) -> (r: Vec<u128>)
        ensures
            r@ == self@.map_values(|p: (u128, S)| p.0),
    {
        let mut out: Vec<u128> = Vec::new();
        let mut j: usize = 0;
        proof {
            assert(out@ =~= self@.subrange(0, 0).map_values(|p: (u128, S)| p.0));
        }
        while j < self.services.len()
            invariant
                j <= self@.len(),
                out@ == self@.subrange(0, j as int).map_values(|p: (u128, S)| p.0),
            decreases self@.len() - j,
        {
            out.push(self.services[j].0);
            proof {
                assert(self@.subrange(0, j + 1).drop_last() =~= self@.subrange(0, j as int));
                assert(out@ =~= self@.subrange(0, j + 1).map_values(|p: (u128, S)| p.0));
            }
            j = j + 1;
        }
        proof {
            assert(self@.subrange(0, self@.len() as int) =~= self@);
        }
        out
    }
}

/// Is some filesystem mounted at this mount point?
pub open spec fn spec_has_mount<Op>(s: Seq<(MountedFs, Op)>, mp: Seq<char>) -> bool {
    exists|j: int| 0 <= j < s.len() && s[j].0.mount_point@ == mp
}

/// The registry of mounted filesystems, keyed by mount point. The operator
/// handle of each mount is held for the embedder; mounting at an occupied
/// mount point is refused.
pub struct MultiplexedFs<Op> {
    pub ip: String,
    pub port: u16,
    ops: Vec<(MountedFs, Op)>,
}

impl<Op> View for MultiplexedFs<Op> {
    type V = Seq<(MountedFs, Op)>;

    closed spec fn view(&self) -> Seq<(MountedFs, Op)> {
        self.ops@
    }
}

impl<Op> MultiplexedFs<Op> {
    /// The address the services are bound to.
    pub closed spec fn spec_ip(&self) -> Seq<char> {
        self.ip@
    }

    pub closed spec fn spec_port(&self) -> u16 {
        self.port
    }

    /// No mount point is used twice.
    pub open spec fn wf(&self) -> bool {
        forall|i: int, j: int|
            0 <= i < j < self@.len() ==> self@[i].0.mount_point@ != self@[j].0.mount_point@
    }

    /// An empty registry serving from `ip:port`.
    pub fn new(ip: String, port: u16) -> (r: MultiplexedFs<Op>)
        ensures
            r.wf(),
            r@.len() == 0,
            r.spec_ip() == ip@,
            r.spec_port() == port,
    {
        MultiplexedFs { ip, port, ops: Vec::new() }
    }

    fn find(&self, mount_point: &str) -> (r: Option<usize>)
        ensures
            match r {
                Some(j) => j < self@.len() && self@[j as int].0.mount_point@ == mount_point@,
                None => !spec_has_mount(self@, mount_point@),
            },
    {
        let mut j: usize = 0;
        while j < self.ops.len()
            invariant
                j <= self@.len(),
                forall|k: int| 0 <= k < j ==> self@[k].0.mount_point@ != mount_point@,
            decreases self@.len() - j,
        {
            if crate::text::str_eq(self.ops[j].0.mount_point.as_str(), mount_point) {
                return Some(j);
            }
            j = j + 1;
        }
        None
    }

    /// Record a mount. An occupied mount point is a registry collision and
    /// is refused.
    pub fn mount_operator(&mut self, record: MountedFs, op: Op) -> (r: Result<
        (),
        OpendalMountError,
    >)
        requires
            old(self).wf(),
        ensures
            final(self).wf(),
            final(self).spec_ip() == old(self).spec_ip(),
            final(self).spec_port() == old(self).spec_port(),
            spec_has_mount(old(self)@, record.mount_point@) ==> final(self)@ == old(self)@ && (r
                matches Err(OpendalMountError::AlreadyMounted { mount_point }) && mount_point@
                == record.mount_point@),
            !spec_has_mount(old(self)@, record.mount_point@) ==> r is Ok && final(self)@ == old(
                self,
            )@.push((record, op)),
    {
        match self.find(record.mount_point.as_str()) {
            Some(_) => Err(
                OpendalMountError::AlreadyMounted { mount_point: record.mount_point.clone() },
            ),
            None => {
                self.ops.push((record, op));
                Ok(())
            },
        }
    }

    /// Forget a mount, handing its operator back; the embedder spawns the
    /// platform umount command.
    pub fn umount(&mut self, mount_point: &str) -> (r: Option<(MountedFs, Op)>)
        requires
            old(self).wf(),
        ensures
            final(self).wf(),
            final(self).spec_ip() == old(self).spec_ip(),
            final(self).spec_port() == old(self).spec_port(),
            !spec_has_mount(old(self)@, mount_point@) ==> r is None && final(self)@ == old(self)@,
            spec_has_mount(old(self)@, mount_point@) ==> (exists|j: int|
                0 <= j < old(self)@.len() && old(self)@[j].0.mount_point@ == mount_point@ && r
                    == Some(old(self)@[j]) && final(self)@ == old(self)@.remove(j)),
    {
        match self.find(mount_point) {
            Some(j) => Some(self.ops.remove(j)),
            None => None,
        }
    }

    /// The records of every mount, in mount order.
    pub fn mounted_operators(&self) -> (r: Vec<MountedFs>)
        ensures
            r@.len() == self@.len(),
            forall|j: int| 0 <= j < r@.len() ==> r@[j]@ == self@[j].0@,
    {
        let mut out: Vec<MountedFs> = Vec::new();
        let mut j: usize = 0;
        while j < self.ops.len()
            invariant
                j <= self@.len(),
                out@.len() == j,
                forall|k: int| 0 <= k < j ==> out@[k]@ == self@[k].0@,
            decreases self@.len() - j,
        {
            out.push(self.ops[j].0.duplicate());
            j = j + 1;
        }
        out
    }
}

/// The backend constructors the management surface can name.
#[derive(Debug, Clone, Copy, PartialEq, Eq, Structural)]
pub enum BackendScheme {
    Fs,
    Memory,
    Sftp,
}

/// Resolve a service name to a backend scheme; any other name is an
/// unsupported scheme.
pub fn resolve_scheme(name: &str) -> (r: Result<BackendScheme, OpendalMountError>)
    ensures
        name@ == "fs"@ ==> r == Ok::<BackendScheme, OpendalMountError>(BackendScheme::Fs),
        name@ == "memory"@ ==> r == Ok::<BackendScheme, OpendalMountError>(BackendScheme::Memory),
        name@ == "sftp"@ ==> r == Ok::<BackendScheme, OpendalMountError>(BackendScheme::Sftp),
        name@ != "fs"@ && name@ != "memory"@ && name@ != "sftp"@ ==> (r matches Err(
            OpendalMountError::UnsupportedScheme { scheme },
        ) && scheme@ == name@),
{
    proof {
        reveal_strlit("fs");
        reveal_strlit("memory");
        reveal_strlit("sftp");
        assert("fs"@.len() == 2);
        assert("memory"@.len() == 6);
        assert("sftp"@.len() == 4);
    }
    if crate::text::str_eq(name, "fs") {
        Ok(BackendScheme::Fs)
    } else if crate::text::str_eq(name, "memory") {
        Ok(BackendScheme::Memory)
    } else if crate::text::str_eq(name, "sftp") {
        Ok(BackendScheme::Sftp)
    } else {
        Err(OpendalMountError::UnsupportedScheme { scheme: name.to_owned() })
    }
}

} // verus!
