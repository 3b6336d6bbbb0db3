use yggtracker::api::info_hash::InfoHash;
use yggtracker::feed::escape;
use yggtracker::feed::size;
use yggtracker::feed::Feed;
use yggtracker::feed::link::Link;
use yggtracker::torrent::Torrent;

fn sample_torrent(name: Option<&str>, files: Option<usize>) -> Torrent {
    let hash = InfoHash::V1([0xaau8; 20]);
    Torrent {
        announce: None,
        comment: None,
        created_by: None,
        creation_date: None,
        files: files.map(|n| {
            (0..n)
                .map(|i| yggtracker::torrent::file::File {
                    path: Some(format!("f{i}.jpg")),
                    length: 10,
                })
                .collect()
        }),
        id: hash,
        info_hash: hash.as_string(),
        is_private: false,
        length: None,
        name: name.map(|n| n.to_string()),
        publisher: None,
        publisher_url: None,
        size: 512,
        time: 0,
    }
}

#[test]
fn escape_replaces_the_five_entities() {
    assert_eq!(escape("&<>\"'"), "&amp;&lt;&gt;&quot;&apos;");
    assert_eq!(escape("a<b & c>'d'"), "a&lt;b &amp; c&gt;&apos;d&apos;");
    assert_eq!(escape("plain"), "plain");
    assert_eq!(escape(""), "");
}

#[test]
fn size_renders_bytes_and_scaled_units() {
    assert_eq!(size(0), "0 B");
    assert_eq!(size(512), "512 B");
    assert_eq!(size(1023), "1023 B");
    assert_eq!(size(1024), "1.00 KB");
    assert_eq!(size(1536), "1.50 KB");
    assert_eq!(size(1048575), "1024.00 KB");
    assert_eq!(size(1048576), "1.00 MB");
    assert_eq!(size(5 * 1048576 + 1048576 / 4), "5.25 MB");
    assert_eq!(size(1073741824), "1.00 GB");
    assert_eq!(size(3 * 1073741824 + 1073741824 / 2), "3.50 GB");
}

#[test]
fn link_prefixes_hash_with_escaped_base() {
    let l = Link::from_url(Some("https://example.com/some/path?q=1#frag"));
    assert_eq!(l.link("abc"), "https://example.com/abc");
    let none = Link::from_url(None);
    assert_eq!(none.link("abc"), "abc");
    let bad = Link::from_url(Some("not a url"));
    assert_eq!(bad.link("abc"), "abc");
}

#[test]
fn channel_head_holds_metadata() {
    let f = Feed::with_date(
        "βtracker",
        Some("a <test> instance"),
        Some("https://example.com/"),
        "DATE",
    );
    let out = f.commit();
    let expected = "<?xml version=\"1.0\" encoding=\"UTF-8\"?><rss version=\"2.0\"><channel>\
<pubDate>DATE</pubDate>\
<lastBuildDate>DATE</lastBuildDate>\
<title>βtracker</title>\
<description>a <test> instance</description>\
<link>https://example.com/</link>\
</channel></rss>";
    assert_eq!(out, expected);
}

#[test]
fn items_render_guid_title_link_and_description() {
    let mut f = Feed::with_date("t", None, Some("https://example.com/x?y#z"), "DATE");
    let date0 = chrono::DateTime::<chrono::Utc>::from_timestamp(0, 0)
        .unwrap()
        .to_rfc2822();
    let hash = "a".repeat(40);
    let mut t = sample_torrent(Some("x & y"), Some(2));
    t.info_hash = hash.clone();
    f.push(t);
    let out = f.commit();
    let expected = format!(
        "<?xml version=\"1.0\" encoding=\"UTF-8\"?><rss version=\"2.0\"><channel>\
<pubDate>DATE</pubDate><lastBuildDate>DATE</lastBuildDate><title>t</title>\
<link>https://example.com/x?y#z</link>\
<item><guid>{h}</guid><title>x &amp; y</title>\
<link>https://example.com/{h}</link>\
<description>size: 512 B / files: 2</description>\
<pubDate>{d}</pubDate></item>\
</channel></rss>",
        h = hash,
        d = date0,
    );
    assert_eq!(out, expected);
}

#[test]
fn item_without_name_shows_placeholder_title() {
    let mut f = Feed::with_date("t", None, None, "D");
    f.push(sample_torrent(None, None));
    let out = f.commit();
    assert!(out.contains("<title>?</title>"));
    assert!(out.contains("<description>size: 512 B</description>"));
}

#[test]
fn item_with_unrepresentable_time_renders_an_empty_date() {
    // RFC 2822 can only show years 0 through 9999; timestamps outside
    // that range must fall back to an empty date, never fail.
    for time in [i64::MIN, -62_167_219_201, 253_402_300_800, i64::MAX] {
        let mut f = Feed::with_date("t", None, None, "D");
        let mut t = sample_torrent(None, None);
        t.time = time;
        f.push(t);
        let out = f.commit();
        assert!(out.contains("<pubDate></pubDate></item>"));
    }
    let mut f = Feed::with_date("t", None, None, "D");
    let mut t = sample_torrent(None, None);
    t.time = -62_167_219_200;
    f.push(t);
    assert!(!f.commit().contains("<pubDate></pubDate></item>"));
}

#[test]
fn new_builds_the_same_header_shape() {
    let f = Feed::new("t", None, None, 64);
    let out = f.commit();
    assert!(out.starts_with(
        "<?xml version=\"1.0\" encoding=\"UTF-8\"?><rss version=\"2.0\"><channel><pubDate>"
    ));
    assert!(out.ends_with("</channel></rss>"));
    assert!(out.contains("<title>t</title>"));
}
