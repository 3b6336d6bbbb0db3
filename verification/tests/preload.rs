use yggtracker::paths::join;
use yggtracker::paths::within;
use yggtracker::preload::is_info_hash;
use yggtracker::preload::Preload;
use yggtracker::preload::PreloadError;

#[test]
fn identifier_accepts_forty_hex_characters() {
    assert!(is_info_hash("0123456789abcdef0123456789abcdef01234567"));
    assert!(is_info_hash("0123456789ABCDEF0123456789ABCDEF01234567"));
    assert!(is_info_hash(&"a".repeat(40)));
}

#[test]
fn identifier_rejects_wrong_length_and_non_hex() {
    assert!(!is_info_hash(&"a".repeat(39)));
    assert!(!is_info_hash(&"a".repeat(41)));
    assert!(!is_info_hash("0123456789abcdef0123456789abcdef0123456z"));
    assert!(!is_info_hash("0123456789abcdef/123456789abcdef01234567"));
    assert!(!is_info_hash(""));
}

#[test]
fn join_inserts_one_separator() {
    assert_eq!(join("/srv/preload", "cover.jpg"), "/srv/preload/cover.jpg");
    assert_eq!(join("", "x"), "/x");
}

#[test]
fn within_compares_whole_components() {
    assert!(within("/a/b", "/a/b"));
    assert!(within("/a/b", "/a/b/c"));
    assert!(!within("/a/b", "/a/bc"));
    assert!(!within("/a/b", "/a"));
    assert!(!within("/a/b", "/etc/passwd"));
}

#[test]
fn init_rejects_missing_directory() {
    let r = Preload::init("/no/such/directory/anywhere", None, None);
    assert!(matches!(r, Err(PreloadError::NotDirectory)));
}

#[test]
fn init_keeps_quotas() {
    let p = Preload::init("/tmp", Some(3), Some(4096)).unwrap();
    assert_eq!(p.max_filecount, Some(3));
    assert_eq!(p.max_filesize, Some(4096));
}

#[test]
fn scratch_path_requires_valid_identifier() {
    let p = Preload::init("/tmp", None, None).unwrap();
    let hash = "a".repeat(40);
    let path = p.scratch_path(&hash).unwrap();
    assert_eq!(path, format!("{}/{}", p.root(), hash));
    assert!(matches!(p.scratch_path("short"), Err(PreloadError::InvalidInfoHash)));
    assert!(matches!(
        p.scratch_path("../0123456789abcdef0123456789abcdef0123"),
        Err(PreloadError::InvalidInfoHash)
    ));
}

#[test]
fn resolve_rejects_traversal() {
    let p = Preload::init("/tmp", None, None).unwrap();
    assert!(p.resolve("../../etc/passwd").is_err());
    assert!(p.resolve("../etc/passwd").is_err());
}

