use opendal_mount::capability::Capability;
use opendal_mount::overlay::{OverlayBackend, OverlayBuilder};
use opendal_mount::policy::{
    merge_union, BaseOnlyPolicy, Entry, OsFilesPolicy, Policy, PolicyOperation, Source,
};
use opendal_mount::store::MemBackend;
use opendal_mount::stream::{OverlayAppender, OverlayReader, OverlayWriter};

fn entry(path: &str, name: &str) -> Entry {
    Entry { path: path.to_owned(), name: name.to_owned() }
}

fn os_fixture() -> OverlayBackend<MemBackend, MemBackend, OsFilesPolicy> {
    OverlayBuilder::new()
        .base_builder(MemBackend::new(Capability::full()))
        .overlay_builder(MemBackend::new(Capability::full()))
        .policy(OsFilesPolicy)
        .build()
        .unwrap()
}

#[test]
fn special_file_names() {
    assert!(OsFilesPolicy::is_special_file("/.DS_Store"));
    assert!(OsFilesPolicy::is_special_file("/a/b/.Trashes"));
    assert!(OsFilesPolicy::is_special_file("/photos/DCIM"));
    assert!(OsFilesPolicy::is_special_file("/a/._resource"));
    assert!(OsFilesPolicy::is_special_file("/a/b/.fseventsd/"));
    assert!(!OsFilesPolicy::is_special_file("/doc.pdf"));
    assert!(!OsFilesPolicy::is_special_file("/"));
    assert!(!OsFilesPolicy::is_special_file("/DS_Store"));
}

#[test]
fn owners() {
    assert_eq!(BaseOnlyPolicy.owner("/x", PolicyOperation::Stat), Source::Base);
    assert_eq!(BaseOnlyPolicy.owner("/.DS_Store", PolicyOperation::Write), Source::Base);
    assert_eq!(OsFilesPolicy.owner("/.DS_Store", PolicyOperation::Stat), Source::Overlay);
    assert_eq!(OsFilesPolicy.owner("/doc.pdf", PolicyOperation::Stat), Source::Base);
}

#[test]
fn union_merge_prefers_overlay_and_dedups() {
    let base = vec![entry("/a", "a"), entry("/b", "b")];
    let overlay = vec![entry("/a", "a"), entry("/c", "c")];
    let merged = merge_union(Some(base), Some(overlay)).unwrap();
    let names: Vec<&str> = merged.iter().map(|e| e.name.as_str()).collect();
    assert_eq!(names, &["a", "c", "b"]);
}

#[test]
fn union_merge_exhaustion() {
    let base = vec![entry("/a", "a")];
    assert!(merge_union(None, None).is_none());
    let only_base = merge_union(Some(base.clone()), None).unwrap();
    assert_eq!(only_base.len(), 1);
    let only_overlay = merge_union(None, Some(base)).unwrap();
    assert_eq!(only_overlay.len(), 1);
}

#[test]
fn base_only_merge_drops_overlay() {
    let base = vec![entry("/a", "a")];
    let overlay = vec![entry("/b", "b")];
    let merged = BaseOnlyPolicy.merge(Some(base), Some(overlay)).unwrap();
    let names: Vec<&str> = merged.iter().map(|e| e.name.as_str()).collect();
    assert_eq!(names, &["a"]);
}

#[test]
fn special_files_routing() {
    let mut fs = os_fixture();
    fs.base.write("/doc.pdf", b"pdf-bytes".to_vec(), false);
    fs.overlay.write("/.DS_Store", b"finder".to_vec(), false);

    let special = fs.stat("/.DS_Store").unwrap();
    assert_eq!(special.content_length, 6);

    let regular = fs.stat("/doc.pdf").unwrap();
    assert_eq!(regular.content_length, 9);

    let mut names: Vec<String> = fs.list("/").into_iter().map(|e| e.name).collect();
    names.sort();
    assert_eq!(names, &[".DS_Store", "doc.pdf"]);
}

#[test]
fn special_files_write_lands_in_overlay() {
    let mut fs = os_fixture();
    fs.write("/.DS_Store", b"finder".to_vec(), false);
    assert!(fs.base.stat("/.DS_Store").is_err());
    assert_eq!(fs.overlay.read_range("/.DS_Store", 0, 100).unwrap(), b"finder".to_vec());
}

#[test]
fn composite_streams_route_once() {
    let mut fs = os_fixture();
    fs.overlay.write("/.DS_Store", b"finder".to_vec(), false);

    let mut r = fs.reader("/.DS_Store").unwrap();
    assert!(matches!(r, OverlayReader::Overlay(_)));
    assert_eq!(r.read(3), b"fin".to_vec());
    assert_eq!(r.read(10), b"der".to_vec());
    assert!(fs.reader("/absent").is_err());

    let w = fs.writer("/doc.pdf");
    assert!(matches!(w, OverlayWriter::Base(_)));
    let a = fs.appender("/.DS_Store");
    assert!(matches!(a, OverlayAppender::Overlay(_)));
}

#[test]
fn composite_info() {
    let fs = os_fixture();
    let (scheme, cap) = fs.info();
    assert_eq!(scheme, "overlay");
    assert!(cap.write);
}
