use opendal_mount::errors::NfsError;
use opendal_mount::hash::{path_id, FNV_OFFSET_BASIS, FNV_PRIME};
use opendal_mount::text::{file_name, join_path, str_eq, trim_end_slashes, u64_to_dec};
use opendal_mount::translator::{PathIdMap, ROOT_ID};

#[test]
fn root_is_pinned() {
    let t = PathIdMap::new();
    assert_eq!(ROOT_ID, 1);
    assert_eq!(t.path_for(1).unwrap(), "/");
}

#[test]
fn live_path_round_trips() {
    let mut t = PathIdMap::new();
    let id = t.id_for("/a.txt", true).unwrap();
    assert_eq!(t.path_for(id).unwrap(), "/a.txt");
    // Stable across calls within the run.
    assert_eq!(t.id_for("/a.txt", true).unwrap(), id);
    assert_eq!(t.id_for("/a.txt", false).unwrap(), id);
    assert_eq!(t.id_of("/a.txt").unwrap(), id);
}

#[test]
fn unknown_path_without_insert() {
    let mut t = PathIdMap::new();
    assert_eq!(t.id_for("/nope", false), Err(NfsError::NoEnt));
    assert!(t.id_of("/nope").is_none());
    assert!(t.path_for(99).is_none());
}

#[test]
fn ids_are_the_fnv_hash() {
    // One step of FNV-1a by hand for a single-character path.
    let expected = (FNV_OFFSET_BASIS ^ 'a' as u64).wrapping_mul(FNV_PRIME);
    assert_eq!(path_id("a"), expected);
    // Deterministic across calls.
    assert_eq!(path_id("/some/path"), path_id("/some/path"));
    // The empty string folds nothing into the offset basis.
    assert_eq!(path_id(""), FNV_OFFSET_BASIS);
}

#[test]
fn decimal_rendering() {
    assert_eq!(u64_to_dec(0), "0");
    assert_eq!(u64_to_dec(7), "7");
    assert_eq!(u64_to_dec(12345), "12345");
    assert_eq!(u64_to_dec(u64::MAX), "18446744073709551615");
}

#[test]
fn path_text_helpers() {
    assert!(str_eq("abc", "abc"));
    assert!(!str_eq("abc", "abd"));
    assert!(!str_eq("abc", "ab"));

    assert_eq!(join_path("/", "hello.txt"), "/hello.txt");
    assert_eq!(join_path("/a", "b"), "/a/b");
    assert_eq!(join_path("/a/", "b"), "/a/b");

    assert_eq!(trim_end_slashes("/a/b//"), "/a/b");
    assert_eq!(trim_end_slashes("abc"), "abc");
    assert_eq!(trim_end_slashes("///"), "");

    assert_eq!(file_name("/a/b"), "b");
    assert_eq!(file_name("/a/b/"), "b");
    assert_eq!(file_name("/"), "");
    assert_eq!(file_name("plain"), "plain");
}
