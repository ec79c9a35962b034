use opendal_mount::capability::Capability;
use opendal_mount::control::{
    resolve_scheme, BackendScheme, MountedFs, MultiplexedFs, NFSServer,
};
use opendal_mount::errors::OpendalMountError;
use opendal_mount::mount::linux;
use opendal_mount::mount::macos::MacosMounter;
use opendal_mount::mount::windows;
use opendal_mount::overlay::OverlayBuilder;
use opendal_mount::policy::BaseOnlyPolicy;
use opendal_mount::store::MemBackend;
use opendal_mount::stream::{MemWriter, OverlayAppender, OverlayReader, OverlayWriter, MemReader};

fn record(mount_point: &str) -> MountedFs {
    MountedFs {
        id: "svc-1".to_owned(),
        mount_point: mount_point.to_owned(),
        scheme: "memory".to_owned(),
        root: "/".to_owned(),
        name: "test".to_owned(),
    }
}

#[test]
fn service_registry() {
    let mut reg: NFSServer<&'static str> = NFSServer::new();
    let a = reg.register("svc-a").unwrap();
    let b = reg.register("svc-b").unwrap();
    assert_ne!(a, b);
    assert_eq!(reg.file_systems(), vec![a, b]);
    assert_eq!(reg.get(a), Some(&"svc-a"));
    assert_eq!(reg.unregister(a), Some("svc-a"));
    assert_eq!(reg.unregister(a), None);
    assert_eq!(reg.file_systems(), vec![b]);
}

#[test]
fn mount_registry_refuses_duplicates() {
    let mut mux: MultiplexedFs<u32> = MultiplexedFs::new("127.0.0.1".to_owned(), 20000);
    mux.mount_operator(record("/mnt/a"), 1).unwrap();
    let err = mux.mount_operator(record("/mnt/a"), 2).unwrap_err();
    assert!(matches!(err, OpendalMountError::AlreadyMounted { mount_point } if mount_point == "/mnt/a"));

    mux.mount_operator(record("/mnt/b"), 3).unwrap();
    let listed = mux.mounted_operators();
    assert_eq!(listed.len(), 2);
    assert_eq!(listed[0].mount_point, "/mnt/a");
    assert_eq!(listed[1].mount_point, "/mnt/b");

    let (rec, op) = mux.umount("/mnt/a").unwrap();
    assert_eq!(rec.mount_point, "/mnt/a");
    assert_eq!(op, 1);
    assert!(mux.umount("/mnt/a").is_none());
}

#[test]
fn scheme_resolution() {
    assert_eq!(resolve_scheme("fs").unwrap(), BackendScheme::Fs);
    assert_eq!(resolve_scheme("memory").unwrap(), BackendScheme::Memory);
    assert_eq!(resolve_scheme("sftp").unwrap(), BackendScheme::Sftp);
    let err = resolve_scheme("s3").unwrap_err();
    assert!(matches!(err, OpendalMountError::UnsupportedScheme { scheme } if scheme == "s3"));
}

#[test]
fn builder_reports_missing_parts() {
    let b: OverlayBuilder<MemBackend, MemBackend, BaseOnlyPolicy> = OverlayBuilder::new();
    let err = b.build().unwrap_err();
    assert!(matches!(err, OpendalMountError::InvalidConfig { field } if field == "base"));

    let b: OverlayBuilder<MemBackend, MemBackend, BaseOnlyPolicy> =
        OverlayBuilder::new().base_builder(MemBackend::new(Capability::full()));
    let err = b.build().unwrap_err();
    assert!(matches!(err, OpendalMountError::InvalidConfig { field } if field == "overlay"));

    let b: OverlayBuilder<MemBackend, MemBackend, BaseOnlyPolicy> = OverlayBuilder::new()
        .base_builder(MemBackend::new(Capability::full()))
        .overlay_builder(MemBackend::new(Capability::full()));
    let err = b.build().unwrap_err();
    assert!(matches!(err, OpendalMountError::InvalidConfig { field } if field == "policy"));
}

#[test]
fn macos_mount_command() {
    let cmd = MacosMounter::mount_command("127.0.0.1", 12000, "pre", "/mnt/x", true);
    assert_eq!(cmd.program, "/sbin/mount");
    assert_eq!(
        cmd.args,
        vec![
            "-t".to_owned(),
            "nfs".to_owned(),
            "-o".to_owned(),
            "nolocks,vers=3,tcp,port=12000,mountport=12000,soft".to_owned(),
            "127.0.0.1:/pre".to_owned(),
            "/mnt/x".to_owned(),
        ]
    );

    let cmd = MacosMounter::mount_command("127.0.0.1", 12000, "", "/mnt/x", false);
    assert_eq!(
        cmd.args[3],
        "rdonly,nolocks,vers=3,tcp,rsize=131072,actimeo=120,port=12000,mountport=12000"
    );

    let cmd = MacosMounter::umount_command("/mnt/x");
    assert_eq!(cmd.program, "diskutil");
    assert_eq!(cmd.args, vec!["umount".to_owned(), "force".to_owned(), "/mnt/x".to_owned()]);
}

#[test]
fn linux_mount_command() {
    let cmd = linux::build_mount_command("10.0.0.1", 2049, "/mnt/y", true, true);
    assert_eq!(cmd.program, "sudo");
    assert_eq!(
        cmd.args,
        vec![
            "mount.nfs".to_owned(),
            "-o".to_owned(),
            "user,noacl,nolock,vers=3,tcp,wsize=1048576,rsize=131072,actimeo=120,port=2049,mountport=2049"
                .to_owned(),
            "10.0.0.1:/".to_owned(),
            "/mnt/y".to_owned(),
        ]
    );

    let cmd = linux::build_mount_command("10.0.0.1", 2049, "/mnt/y", false, false);
    assert_eq!(cmd.program, "mount.nfs");
    assert_eq!(
        cmd.args[1],
        "user,noacl,nolock,vers=3,tcp,rsize=131072,actimeo=120,port=2049,mountport=2049"
    );
}

#[test]
fn windows_mount_command() {
    let err = windows::build_mount_command("10.0.0.1", 2049, "Z", true).unwrap_err();
    assert!(matches!(err, OpendalMountError::MountFailure { mount_point, .. } if mount_point == "Z"));

    let cmd = windows::build_mount_command("10.0.0.1", 111, "Z", false).unwrap();
    assert_eq!(cmd.program, "mount.exe");
    assert_eq!(
        cmd.args,
        vec![
            "-o".to_owned(),
            "anon,nolock,mtype=soft,fileaccess=4,casesensitive,lang=ansi,rsize=128,wsize=128,timeout=60,retry=2"
                .to_owned(),
            "\\\\10.0.0.1\\\\".to_owned(),
            "Z:".to_owned(),
        ]
    );
}

#[test]
fn reader_streams() {
    let mut r = OverlayReader::Base(MemReader::new(b"abcdef".to_vec()));
    assert_eq!(r.read(2), b"ab".to_vec());
    assert_eq!(r.read(100), b"cdef".to_vec());
    assert_eq!(r.read(1), b"".to_vec());
    assert_eq!(r.seek(1).unwrap(), 1);
    assert_eq!(r.read(2), b"bc".to_vec());
    assert!(r.seek(100).is_err());
}

#[test]
fn writer_double_close_does_not_panic() {
    let mut w = OverlayWriter::Overlay(MemWriter::new());
    w.write(b"abc".to_vec()).unwrap();
    w.write(b"def".to_vec()).unwrap();
    assert!(w.close().is_ok());
    // A second close is refused, but returns instead of panicking.
    assert!(w.close().is_err());
    assert!(w.write(b"x".to_vec()).is_err());

    let mut a = OverlayAppender::Base(MemWriter::new());
    a.append(b"abc".to_vec()).unwrap();
    assert!(a.close().is_ok());
    assert!(a.close().is_err());
}

#[test]
fn writer_abort_discards() {
    let mut w = MemWriter::new();
    w.write(b"abc".to_vec()).unwrap();
    w.abort().unwrap();
    assert!(w.buf.is_empty());
    assert!(w.closed);
}
