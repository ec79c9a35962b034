use opendal_mount::attr::Ftype;
use opendal_mount::capability::{Capability, VfsCapabilities};
use opendal_mount::errors::NfsError;
use opendal_mount::fs::{OpendalFs, Sattr};
use opendal_mount::overlay::OverlayBackend;
use opendal_mount::policy::{BaseOnlyPolicy, Policy};
use opendal_mount::store::MemBackend;

fn no_attrs() -> Sattr {
    Sattr { mode: None, uid: None, gid: None, size: None }
}

fn base_only_fs() -> OpendalFs<BaseOnlyPolicy> {
    OpendalFs::new(OverlayBackend {
        base: MemBackend::new(Capability::full()),
        overlay: MemBackend::new(Capability::full()),
        policy: BaseOnlyPolicy,
    })
}

fn readonly_fs() -> OpendalFs<BaseOnlyPolicy> {
    let mut cap = Capability::none();
    cap.read = true;
    OpendalFs::new(OverlayBackend {
        base: MemBackend::new(cap),
        overlay: MemBackend::new(Capability::none()),
        policy: BaseOnlyPolicy,
    })
}

/// The ids of every entry readdir reports for the whole directory.
fn dir_ids(fs: &mut OpendalFs<impl Policy + Copy>, dirid: u64) -> Vec<(u64, String)> {
    let page = fs.readdir(dirid, 0, 1000).unwrap();
    assert!(page.end);
    page.entries
        .into_iter()
        .map(|e| (e.fileid, e.name))
        .collect()
}

#[test]
fn root_dir_is_one() {
    let fs = base_only_fs();
    assert_eq!(fs.root_dir(), 1);
}

#[test]
fn capabilities_follow_write_bit() {
    assert_eq!(base_only_fs().capabilities(), VfsCapabilities::ReadWrite);
    assert_eq!(readonly_fs().capabilities(), VfsCapabilities::ReadOnly);
}

#[test]
fn write_read_round_trip() {
    let mut fs = base_only_fs();
    let (id, attr) = fs.create(1, "hello.txt", no_attrs()).unwrap();
    assert_eq!(attr.size, 0);

    let attr = fs.write(id, 0, b"hello".to_vec()).unwrap();
    assert_eq!(attr.size, 5);
    assert_eq!(attr.fileid, id);

    let (bytes, eof) = fs.read(id, 0, 5).unwrap();
    assert_eq!(bytes, b"hello".to_vec());
    assert!(!eof);

    let (bytes, eof) = fs.read(id, 0, 6).unwrap();
    assert_eq!(bytes, b"hello".to_vec());
    assert!(eof);
}

#[test]
fn write_nonzero_offset_appends() {
    let mut fs = base_only_fs();
    let (id, _) = fs.create(1, "log.txt", no_attrs()).unwrap();
    fs.write(id, 0, b"abc".to_vec()).unwrap();
    let attr = fs.write(id, 3, b"def".to_vec()).unwrap();
    assert_eq!(attr.size, 6);
    let (bytes, _) = fs.read(id, 0, 100).unwrap();
    assert_eq!(bytes, b"abcdef".to_vec());
}

#[test]
fn read_offsets() {
    let mut fs = base_only_fs();
    let (id, _) = fs.create(1, "a.txt", no_attrs()).unwrap();
    fs.write(id, 0, b"abcdef".to_vec()).unwrap();

    let (bytes, eof) = fs.read(id, 2, 3).unwrap();
    assert_eq!(bytes, b"cde".to_vec());
    assert!(!eof);

    let (bytes, eof) = fs.read(id, 2, 1000).unwrap();
    assert_eq!(bytes, b"cdef".to_vec());
    assert!(eof);
}

#[test]
fn read_unknown_id() {
    let fs = base_only_fs();
    assert_eq!(fs.read(42, 0, 10), Err(NfsError::NoEnt));
}

#[test]
fn nfs_id_stability() {
    let mut fs = base_only_fs();
    fs.fs.base.write("/hello.txt", b"hello".to_vec(), false);

    let listed = dir_ids(&mut fs, 1);
    assert_eq!(listed.len(), 1);
    let (listed_id, name) = &listed[0];
    assert_eq!(name, "hello.txt");

    let looked_up = fs.lookup(1, "hello.txt").unwrap();
    assert_eq!(looked_up, *listed_id);

    let attr = fs.getattr(*listed_id).unwrap();
    assert_eq!(attr.fileid, *listed_id);
    assert_eq!(attr.ftype, Ftype::Regular);
    assert_eq!(attr.mode, 0o755);
    assert_eq!(attr.uid, 507);
    assert_eq!(attr.gid, 507);
}

#[test]
fn lookup_never_creates_ids() {
    let mut fs = base_only_fs();
    fs.fs.base.write("/hello.txt", b"hello".to_vec(), false);
    // Not observed by readdir or create yet, so lookup must miss.
    assert_eq!(fs.lookup(1, "hello.txt"), Err(NfsError::NoEnt));
}

#[test]
fn readdir_window() {
    let mut fs = base_only_fs();
    for name in ["a", "b", "c", "d", "e"] {
        let path = format!("/{name}");
        fs.fs.base.write(&path, b"x".to_vec(), false);
    }

    let first = fs.readdir(1, 0, 3).unwrap();
    assert_eq!(first.entries.len(), 3);
    assert!(!first.end);

    let cursor = first.entries[2].fileid;
    let second = fs.readdir(1, cursor, 10).unwrap();
    assert_eq!(second.entries.len(), 2);
    assert!(second.end);

    // No overlap between the pages, and every entry accounted for.
    let mut all: Vec<String> = first
        .entries
        .into_iter()
        .chain(second.entries.into_iter())
        .map(|e| e.name)
        .collect();
    all.sort();
    assert_eq!(all, &["a", "b", "c", "d", "e"]);

    let none = fs.readdir(1, 0, 0).unwrap();
    assert!(none.entries.is_empty());
    assert!(!none.end);
}

#[test]
fn readdir_unknown_dir() {
    let mut fs = base_only_fs();
    assert!(matches!(fs.readdir(99, 0, 10), Err(NfsError::NoEnt)));
}

#[test]
fn setattr_reports_current_attributes() {
    let mut fs = base_only_fs();
    let (id, attr) = fs.create(1, "f", no_attrs()).unwrap();
    let again = fs
        .setattr(id, Sattr { mode: Some(0o600), uid: Some(1), gid: Some(1), size: Some(99) })
        .unwrap();
    assert_eq!(again, attr);
}

#[test]
fn create_exclusive_writes_sentinel() {
    let mut fs = base_only_fs();
    let id = fs.create_exclusive(1, "lock").unwrap();
    let (bytes, eof) = fs.read(id, 0, 10).unwrap();
    assert_eq!(bytes, vec![0u8]);
    assert!(eof);
}

#[test]
fn mkdir_reports_directory_attributes() {
    let mut fs = base_only_fs();
    let (id, attr) = fs.mkdir(1, "sub").unwrap();
    assert_eq!(attr.ftype, Ftype::Directory);
    assert_eq!(attr.mode, 0o777);
    assert_eq!(attr.fileid, id);
    assert_eq!(attr.size, 0);
}

#[test]
fn unsupported_operations() {
    let fs = base_only_fs();
    assert_eq!(fs.remove(1, "x"), Err(NfsError::NotSupp));
    assert_eq!(fs.rename(1, "x", 1, "y"), Err(NfsError::NotSupp));
    assert_eq!(fs.readlink(1), Err(NfsError::NotSupp));
    assert!(matches!(fs.symlink(1, "x", "/y"), Err(NfsError::Rofs)));
}
