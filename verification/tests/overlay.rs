use opendal_mount::capability::Capability;
use opendal_mount::overlay::{OverlayBackend, OverlayBuilder};
use opendal_mount::policy::{BaseOnlyPolicy, Policy, UnionPolicy};
use opendal_mount::store::MemBackend;

fn fixture<P: Policy + Copy>(policy: P) -> OverlayBackend<MemBackend, MemBackend, P> {
    OverlayBuilder::new()
        .base_builder(MemBackend::new(Capability::full()))
        .overlay_builder(MemBackend::new(Capability::full()))
        .policy(policy)
        .build()
        .unwrap()
}

fn entries(fs: &OverlayBackend<MemBackend, MemBackend, impl Policy + Copy>, dir: &str) -> Vec<String> {
    let mut names: Vec<String> = fs.list(dir).into_iter().map(|e| e.name).collect();
    names.sort();
    names
}

#[test]
fn list_base_only() {
    let mut fixture = fixture(BaseOnlyPolicy);
    fixture.base.write("/hello.txt", b"hello".to_vec(), false);
    fixture.overlay.write("/world.txt", b"world".to_vec(), false);

    assert_eq!(entries(&fixture, "/"), &["hello.txt"]);
}

#[test]
fn list_union() {
    let mut fixture = fixture(UnionPolicy);
    fixture.base.write("/hello.txt", b"hello".to_vec(), false);
    fixture.overlay.write("/world.txt", b"world".to_vec(), false);

    assert_eq!(entries(&fixture, "/"), &["hello.txt", "world.txt"]);
}

#[test]
fn read_base_only() {
    let mut fixture = fixture(BaseOnlyPolicy);

    let ref_content = "hello";

    fixture.base.write("/hello.txt", ref_content.as_bytes().to_vec(), false);
    fixture.overlay.write("/world.txt", b"world".to_vec(), false);

    let content = fixture.read_range("/hello.txt", 0, 1024).unwrap();
    let content = std::str::from_utf8(&content).unwrap();

    assert_eq!(content, ref_content);
}

#[test]
fn write_base() {
    let mut fixture = fixture(BaseOnlyPolicy);

    fixture.write("/hello.txt", b"hello".to_vec(), false);
    assert_eq!(entries(&fixture, "/"), &["hello.txt"]);

    // The bytes landed in the base; the overlay stays empty.
    assert_eq!(fixture.base.read_range("/hello.txt", 0, 1024).unwrap(), b"hello".to_vec());
    assert!(fixture.overlay.stat("/hello.txt").is_err());
    assert!(fixture.overlay.list("/").is_empty());
}
