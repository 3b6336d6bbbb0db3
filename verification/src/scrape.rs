//! The transient per-hash scrape aggregate handed to the display path.

use vstd::prelude::*;

use crate::scraper::Scrape;

verus! {

/// Seeders, leechers and peers reported for one info-hash; a transient
/// aggregate with no identity of its own.
#[derive(Clone, Copy, Debug, PartialEq, Eq, Structural)]
pub struct ScrapeResult {
    pub leechers: u32,
    pub peers: u32,
    pub seeders: u32,
}

/// Repackages the totals gathered for the identified hash as a
/// [`ScrapeResult`]. The identifier names the hash the totals were
/// collected for; the counts are returned unchanged.
pub fn get(scrape: &Scrape, _id: [u8; 20]) -> (r: Option<ScrapeResult>)
    ensures
        r is Some,
        r->0.leechers == scrape.leechers,
        r->0.peers == scrape.peers,
        r->0.seeders == scrape.seeders,
{
    Some(ScrapeResult { leechers: scrape.leechers, peers: scrape.peers, seeders: scrape.seeders })
}

} // verus!
