use yggtracker::api::info_hash::InfoHash;
use yggtracker::endpoint::Endpoint;
use yggtracker::scrape::get;
use yggtracker::scraper::combine;
use yggtracker::scraper::aggregate;
use yggtracker::scraper::udp::connection_id;
use yggtracker::scraper::udp::connection_request;
use yggtracker::scraper::udp::parse_scrape;
use yggtracker::scraper::udp::scrape_request;
use yggtracker::scraper::udp::ScrapeError;
use yggtracker::scraper::udp::Udp;
use yggtracker::scraper::Scrape;
use yggtracker::scraper::Scraper;

fn ep(v6: bool, addr: &str) -> Endpoint {
    Endpoint { v6, addr: addr.to_string() }
}

#[test]
fn connect_request_layout() {
    let b = connection_request(0x01020304);
    assert_eq!(b.len(), 16);
    // 0x41727101980, big-endian
    assert_eq!(&b[0..8], &[0x00, 0x00, 0x04, 0x17, 0x27, 0x10, 0x19, 0x80]);
    // action 0 = connect
    assert_eq!(&b[8..12], &[0, 0, 0, 0]);
    assert_eq!(&b[12..16], &[1, 2, 3, 4]);
}

#[test]
fn connect_response_yields_connection_id() {
    let mut resp = vec![0u8; 8];
    resp.extend_from_slice(&[0x11, 0x22, 0x33, 0x44, 0x55, 0x66, 0x77, 0x88]);
    assert_eq!(connection_id(&resp).unwrap(), 0x1122334455667788);
}

#[test]
fn short_connect_response_is_protocol_error() {
    let resp = vec![0u8; 15];
    assert_eq!(connection_id(&resp).unwrap_err(), ScrapeError::ShortPacket);
}

#[test]
fn scrape_request_layout() {
    let h = InfoHash::V1([7u8; 20]);
    let b = scrape_request(0x0102030405060708, 0xA0B0C0D0, &vec![h]).unwrap();
    assert_eq!(b.len(), 36);
    assert_eq!(&b[0..8], &[1, 2, 3, 4, 5, 6, 7, 8]);
    // action 2 = scrape
    assert_eq!(&b[8..12], &[0, 0, 0, 2]);
    assert_eq!(&b[12..16], &[0xA0, 0xB0, 0xC0, 0xD0]);
    assert_eq!(&b[16..36], &[7u8; 20][..]);
}

#[test]
fn scrape_request_rejects_more_than_74_hashes() {
    let hashes = vec![InfoHash::V1([0u8; 20]); 75];
    assert_eq!(
        scrape_request(0, 0, &hashes).unwrap_err(),
        ScrapeError::TooManyHashes
    );
    let hashes = vec![InfoHash::V1([0u8; 20]); 74];
    assert!(scrape_request(0, 0, &hashes).is_ok());
}

#[test]
fn scrape_response_counters() {
    let mut resp = vec![0u8; 8];
    resp.extend_from_slice(&[0, 0, 0, 1]); // seeders
    resp.extend_from_slice(&[0, 0, 0, 2]); // leechers
    resp.extend_from_slice(&[0, 0, 0, 3]); // peers
    let s = parse_scrape(&resp).unwrap();
    assert_eq!(s.seeders, 1);
    assert_eq!(s.leechers, 2);
    assert_eq!(s.peers, 3);
}

#[test]
fn short_scrape_response_is_protocol_error() {
    let resp = vec![0u8; 19];
    assert_eq!(parse_scrape(&resp).unwrap_err(), ScrapeError::ShortPacket);
}

#[test]
fn routes_pair_matching_families_only() {
    let local = vec![ep(false, "0.0.0.0:0"), ep(true, "[::]:0")];
    let remote = vec![ep(false, "192.0.2.1:6969"), ep(true, "[2001:db8::1]:6969")];
    let plan = Udp::init(local, remote);
    assert_eq!(plan.0.len(), 2);
    assert_eq!(plan.0[0].remote.len(), 1);
    assert_eq!(plan.0[0].remote[0].addr, "192.0.2.1:6969");
    assert_eq!(plan.0[1].remote.len(), 1);
    assert_eq!(plan.0[1].remote[0].addr, "[2001:db8::1]:6969");
}

#[test]
fn dual_stack_scrape_sums_both_routes() {
    // Two local routes, one per family, each matched to one remote of the
    // same family; each remote reports seeders=1, leechers=2, peers=3.
    let local = vec![ep(false, "0.0.0.0:0"), ep(true, "[::]:0")];
    let remote = vec![ep(false, "192.0.2.1:6969"), ep(true, "[2001:db8::1]:6969")];
    let plan = Udp::init(local, remote);
    let mut reports = Vec::new();
    for route in &plan.0 {
        for _remote in &route.remote {
            let mut resp = vec![0u8; 8];
            resp.extend_from_slice(&[0, 0, 0, 1]);
            resp.extend_from_slice(&[0, 0, 0, 2]);
            resp.extend_from_slice(&[0, 0, 0, 3]);
            reports.push(parse_scrape(&resp).unwrap());
        }
    }
    assert_eq!(reports.len(), 2);
    let total = aggregate(&reports);
    assert_eq!(total.seeders, 2);
    assert_eq!(total.leechers, 4);
    assert_eq!(total.peers, 6);
}

#[test]
fn aggregation_wraps_like_the_wire_counters() {
    let a = Scrape { leechers: u32::MAX, peers: 1, seeders: 0 };
    let b = Scrape { leechers: 2, peers: 2, seeders: 3 };
    let total = aggregate(&vec![a, b]);
    assert_eq!(total.leechers, 1);
    assert_eq!(total.peers, 3);
    assert_eq!(total.seeders, 3);
}

#[test]
fn scraper_without_udp_has_no_plan() {
    let s = Scraper::init(None);
    assert!(s.udp.is_none());
}

#[test]
fn get_repackages_totals() {
    let s = Scrape { leechers: 4, peers: 6, seeders: 2 };
    let r = get(&s, [0u8; 20]).unwrap();
    assert_eq!(r.leechers, 4);
    assert_eq!(r.peers, 6);
    assert_eq!(r.seeders, 2);
}

#[test]
fn one_failed_exchange_aborts_the_whole_scrape() {
    let ok = |n: u32| Scrape { leechers: n, peers: n, seeders: n };
    let all_good = vec![Ok(ok(1)), Ok(ok(2))];
    let total = combine(&all_good).unwrap();
    assert_eq!(total.seeders, 3);
    let with_failure = vec![Ok(ok(1)), Err(ScrapeError::ShortPacket), Ok(ok(2))];
    assert_eq!(combine(&with_failure).unwrap_err(), ScrapeError::ShortPacket);
    assert_eq!(combine(&Vec::new()).unwrap().peers, 0);
}
