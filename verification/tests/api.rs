use yggtracker::api::decode;
use yggtracker::api::info_hash::InfoHash;
use yggtracker::api::supported;

fn hash_bytes(h: &InfoHash) -> [u8; 20] {
    *h.bytes()
}

#[test]
fn decode_empty_feed() {
    let r = decode(&[]);
    assert!(r.is_empty());
}

#[test]
fn decode_whole_records() {
    let mut data = Vec::new();
    for b in 0..40u8 {
        data.push(b);
    }
    let r = decode(&data);
    assert_eq!(r.len(), 2);
    let first = hash_bytes(&r[0]);
    let second = hash_bytes(&r[1]);
    for i in 0..20 {
        assert_eq!(first[i], i as u8);
        assert_eq!(second[i], 20 + i as u8);
    }
}

#[test]
fn decode_drops_trailing_partial_record() {
    for k in 1..20usize {
        let data = vec![9u8; 40 + k];
        let r = decode(&data);
        assert_eq!(r.len(), 2);
    }
    let r = decode(&vec![9u8; 19]);
    assert!(r.is_empty());
}

#[test]
fn supported_requires_bin_extension() {
    assert!(supported("feed.bin"));
    assert!(supported("/var/lib/tracker/export.bin"));
    assert!(!supported("feed.txt"));
    assert!(!supported("bin"));
    assert!(!supported(""));
}

#[test]
fn supported_rejects_remote_sources() {
    assert!(!supported("http://tracker.example.com/feed.bin"));
    assert!(!supported("ftp://host/feed.bin"));
}

#[test]
fn hash_renders_as_lowercase_hex() {
    let mut b = [0u8; 20];
    b[0] = 0x01;
    b[1] = 0xab;
    b[19] = 0xff;
    let h = InfoHash::V1(b);
    let s = h.as_string();
    assert_eq!(s.len(), 40);
    assert_eq!(&s[0..4], "01ab");
    assert_eq!(&s[36..40], "00ff");
}

#[test]
fn hash_text_round_trips() {
    let mut b = [0u8; 20];
    for i in 0..20 {
        b[i] = (i as u8) * 13;
    }
    let h = InfoHash::V1(b);
    let parsed = InfoHash::from_hex(h.as_string().as_str()).unwrap();
    assert!(parsed.same(&h));
}

#[test]
fn from_hex_accepts_either_case_and_rejects_malformed() {
    let upper = "0123456789ABCDEF0123456789ABCDEF01234567";
    let lower = "0123456789abcdef0123456789abcdef01234567";
    let a = InfoHash::from_hex(upper).unwrap();
    let b = InfoHash::from_hex(lower).unwrap();
    assert!(a.same(&b));
    assert_eq!(a.as_string(), lower);
    assert!(InfoHash::from_hex("0123456789abcdef0123456789abcdef0123456").is_none());
    assert!(InfoHash::from_hex("0123456789abcdef0123456789abcdef012345678").is_none());
    assert!(InfoHash::from_hex("0123456789abcdef0123456789abcdef0123456g").is_none());
}
