use yggtracker::api::info_hash::InfoHash;
use yggtracker::torrent::file::File;
use yggtracker::torrent::magnet_reference;
use yggtracker::torrent::sum_lengths;
use yggtracker::torrent::Torrent;

fn bare(hash: InfoHash, name: Option<&str>) -> Torrent {
    Torrent {
        announce: None,
        comment: None,
        created_by: None,
        creation_date: None,
        files: None,
        id: hash,
        info_hash: hash.as_string(),
        is_private: false,
        length: None,
        name: name.map(|n| n.to_string()),
        publisher: None,
        publisher_url: None,
        size: 0,
        time: 0,
    }
}

#[test]
fn magnet_without_name_or_trackers_is_the_bare_reference() {
    let hash = InfoHash::from_hex(&"a".repeat(40)).unwrap();
    let t = bare(hash, None);
    assert_eq!(
        t.magnet(None),
        format!("magnet:?xt=urn:btih:{}", "a".repeat(40))
    );
}

#[test]
fn magnet_percent_encodes_the_display_name() {
    let hash = InfoHash::from_hex(&"b".repeat(40)).unwrap();
    let t = bare(hash, Some("hello world & more"));
    assert_eq!(
        t.magnet(None),
        format!(
            "magnet:?xt=urn:btih:{}&dn=hello%20world%20%26%20more",
            "b".repeat(40)
        )
    );
}

#[test]
fn magnet_names_hash_once_and_each_tracker_once() {
    // Hash "a"*40 with two tracker URLs: exactly one xt=urn:btih:
    // occurrence and exactly one &tr= per tracker.
    let hash = InfoHash::from_hex(&"a".repeat(40)).unwrap();
    let t = bare(hash, None);
    let trackers = vec![
        "udp://tracker.example.com:6969/announce".to_string(),
        "https://other.example.org/announce?key=1".to_string(),
    ];
    let m = t.magnet(Some(&trackers));
    assert_eq!(m.matches("xt=urn:btih:").count(), 1);
    assert_eq!(m.matches("&tr=").count(), 2);
    assert_eq!(
        m,
        format!(
            "magnet:?xt=urn:btih:{}&tr=udp%3A%2F%2Ftracker.example.com%3A6969%2Fannounce&tr=https%3A%2F%2Fother.example.org%2Fannounce%3Fkey%3D1",
            "a".repeat(40)
        )
    );
}

#[test]
fn magnet_for_a_bare_feed_hash_matches_the_torrent_form() {
    let hash = InfoHash::from_hex(&"c".repeat(40)).unwrap();
    let trackers = vec!["udp://t.example.net:1/x".to_string()];
    let from_hash = magnet_reference(&hash, Some(&trackers));
    let from_torrent = bare(hash, None).magnet(Some(&trackers));
    assert_eq!(from_hash, from_torrent);
}

#[test]
fn files_counts_listed_files() {
    let hash = InfoHash::V1([1u8; 20]);
    let mut t = bare(hash, None);
    assert_eq!(t.files(), None);
    t.files = Some(vec![
        File { path: Some("a.jpg".to_string()), length: 1 },
        File { path: None, length: 2 },
    ]);
    assert_eq!(t.files(), Some(2));
}

#[test]
fn file_path_falls_back_to_placeholder() {
    let f = File { path: Some("x/y.png".to_string()), length: 0 };
    assert_eq!(f.path(), "x/y.png");
    let unknown = File { path: None, length: 0 };
    assert_eq!(unknown.path(), "?");
}

#[test]
fn sum_lengths_saturates_instead_of_overflowing() {
    let files = vec![
        File { path: None, length: 10 },
        File { path: None, length: 32 },
    ];
    assert_eq!(sum_lengths(&files), 42);
    let huge = vec![
        File { path: None, length: u64::MAX },
        File { path: None, length: 5 },
    ];
    assert_eq!(sum_lengths(&huge), u64::MAX);
    assert_eq!(sum_lengths(&Vec::new()), 0);
}
