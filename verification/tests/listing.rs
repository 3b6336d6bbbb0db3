use yggtracker::endpoint::Endpoint;
use yggtracker::listing::page;
use yggtracker::listing::sort_entries;
use yggtracker::listing::Entry;
use yggtracker::peers::Peers;
use yggtracker::public::Public;
use yggtracker::storage::Storage;
use yggtracker::trackers::Trackers;
use yggtracker::trackers::TrackersError;

fn entry(modified: i64, path: &str) -> Entry {
    Entry { modified, path: path.to_string() }
}

fn paths(entries: &[Entry]) -> Vec<&str> {
    entries.iter().map(|e| e.path.as_str()).collect()
}

#[test]
fn entries_sort_ascending_and_descending() {
    let input = vec![entry(3, "c"), entry(1, "a"), entry(2, "b")];
    let asc = sort_entries(input, true);
    assert_eq!(paths(&asc), ["a", "b", "c"]);
    let input = vec![entry(3, "c"), entry(1, "a"), entry(2, "b")];
    let desc = sort_entries(input, false);
    assert_eq!(paths(&desc), ["c", "b", "a"]);
}

#[test]
fn page_clamps_start_and_limit() {
    let input = vec![entry(1, "a"), entry(2, "b"), entry(3, "c")];
    assert_eq!(paths(&page(&input, None, None)), ["a", "b", "c"]);
    assert_eq!(paths(&page(&input, Some(1), None)), ["b", "c"]);
    assert_eq!(paths(&page(&input, Some(1), Some(1))), ["b"]);
    assert_eq!(paths(&page(&input, Some(5), None)), [] as [&str; 0]);
    assert_eq!(paths(&page(&input, None, Some(99))), ["a", "b", "c"]);
}

#[test]
fn public_listing_filters_then_pages() {
    let p = Public::init("/tmp", 20, 10).unwrap();
    let entries = vec![
        entry(5, "e.torrent"),
        entry(1, "a.torrent"),
        entry(3, "notes.txt"),
        entry(2, "b.torrent"),
    ];
    let (total, pg) = p.torrents(
        entries,
        Some((yggtracker::public::Sort::Modified, yggtracker::public::Order::Desc)),
        None,
        Some(2),
    );
    assert_eq!(total, 3);
    assert_eq!(paths(&pg), ["e.torrent", "b.torrent"]);
}

#[test]
fn storage_listing_pages_then_filters() {
    let s = Storage::init("/tmp", 20, 10).unwrap();
    let entries = vec![
        entry(5, "e.torrent"),
        entry(1, "a.bak"),
        entry(3, "c.torrent"),
        entry(2, "b.torrent"),
    ];
    let (total, pg) = s.torrents(
        entries,
        Some((yggtracker::storage::Sort::Modified, yggtracker::storage::Order::Asc)),
        None,
        Some(3),
    );
    // All four files count toward the total; the page of three oldest
    // holds one non-torrent file that is then dropped.
    assert_eq!(total, 4);
    assert_eq!(paths(&pg), ["b.torrent", "c.torrent"]);
}

#[test]
fn public_init_rejects_missing_root() {
    assert!(Public::init("/no/such/root", 20, 10).is_err());
    assert!(Storage::init("/no/such/root", 20, 10).is_err());
}

#[test]
fn trackers_normalize_and_deduplicate() {
    let configured = vec![
        "udp://tracker.example.com:6969/announce".to_string(),
        "HTTP://Example.COM/announce".to_string(),
        "udp://tracker.example.com:6969/announce".to_string(),
    ];
    let t = Trackers::init(&configured).unwrap();
    assert!(!t.is_empty());
    let list = t.list();
    assert_eq!(list.len(), 2);
    assert_eq!(list[0], "udp://tracker.example.com:6969/announce");
    assert_eq!(list[1], "http://example.com/announce");
}

#[test]
fn trackers_reject_the_first_malformed_entry() {
    let configured = vec![
        "udp://tracker.example.com:6969/announce".to_string(),
        "not a url".to_string(),
    ];
    assert!(matches!(Trackers::init(&configured), Err(TrackersError::InvalidUrl)));
    let empty = Trackers::init(&Vec::new()).unwrap();
    assert!(empty.is_empty());
}

#[test]
fn peers_hand_out_initial_contacts_only_when_configured() {
    let none = Peers::init(Vec::new());
    assert!(none.initial_peers().is_none());
    let some = Peers::init(vec![Endpoint { v6: false, addr: "192.0.2.7:51413".to_string() }]);
    let contacts = some.initial_peers().unwrap();
    assert_eq!(contacts.len(), 1);
    assert_eq!(contacts[0].addr, "192.0.2.7:51413");
}

#[test]
fn public_href_rejects_escapes() {
    let p = Public::init("/tmp", 20, 10).unwrap();
    assert!(p.href(&"a".repeat(40), "../../etc/passwd").is_none());
}
