//! Aggregated tracker-scrape counts and the scrape client's routing state.
//!
//! A scrape walks every route of the plan and, per matching remote tracker,
//! runs the four-step BEP15 exchange; the counters of all successful
//! exchanges are summed. The datagram exchanges themselves are
//! input/output handled at the edge against the contracts in [`udp`].

pub mod udp;

use vstd::prelude::*;

use crate::endpoint::Endpoint;
use udp::Udp;

verus! {

/// Seeder, leecher and peer counts for one info-hash, summed over every
/// successful exchange.
#[derive(Clone, Copy, Debug, PartialEq, Eq, Structural)]
pub struct Scrape {
    pub leechers: u32,
    pub peers: u32,
    pub seeders: u32,
}

/// 32-bit wrapping sum, as the counters accumulate on the wire.
pub open spec fn wrap32(a: u32, b: u32) -> u32 {
    ((a + b) % 0x100000000) as u32
}

/// The aggregate of a list of per-exchange counts: fieldwise wrapping sums,
/// starting from zero.
pub open spec fn total_of(parts: Seq<Scrape>) -> Scrape
    decreases parts.len(),
{
    if parts.len() == 0 {
        Scrape { leechers: 0, peers: 0, seeders: 0 }
    } else {
        let rest = total_of(parts.drop_last());
        Scrape {
            leechers: wrap32(rest.leechers, parts.last().leechers),
            peers: wrap32(rest.peers, parts.last().peers),
            seeders: wrap32(rest.seeders, parts.last().seeders),
        }
    }
}

impl Default for Scrape {
    /// All counters zero.
    fn default() -> (r: Scrape)
        ensures
            r.leechers == 0 && r.peers == 0 && r.seeders == 0,
    {
        Scrape { leechers: 0, peers: 0, seeders: 0 }
    }
}

impl Scrape {
    /// Adds one exchange's counters into the running totals.
    pub fn add(&mut self, other: &Scrape)
        ensures
            final(self).leechers == wrap32(old(self).leechers, other.leechers),
            final(self).peers == wrap32(old(self).peers, other.peers),
            final(self).seeders == wrap32(old(self).seeders, other.seeders),
    {
        self.leechers = self.leechers.wrapping_add(other.leechers);
        self.peers = self.peers.wrapping_add(other.peers);
        self.seeders = self.seeders.wrapping_add(other.seeders);
    }
}

/// Sums the counters of every successful exchange, in order.
pub fn aggregate(parts: &Vec<Scrape>) -> (r: Scrape)
    ensures
        r == total_of(parts@),
{
    let mut t = Scrape { leechers: 0, peers: 0, seeders: 0 };
    let mut i: usize = 0;
    while i < parts.len()
        invariant
            0 <= i <= parts@.len(),
            t == total_of(parts@.subrange(0, i as int)),
        decreases parts@.len() - i,
    {
        proof {
            let pre = parts@.subrange(0, i + 1);
            assert(pre.drop_last() =~= parts@.subrange(0, i as int));
            assert(pre.last() == parts@[i as int]);
        }
        t.add(&parts[i]);
        i += 1;
    }
    proof {
        assert(parts@.subrange(0, parts@.len() as int) =~= parts@);
    }
    t
}

/// The per-exchange counters of a run in which every exchange succeeded.
pub open spec fn ok_counts(outcomes: Seq<Result<Scrape, udp::ScrapeError>>) -> Seq<Scrape> {
    Seq::new(outcomes.len(), |i: int| outcomes[i]->Ok_0)
}

/// Settles one scrape call from its exchange outcomes: the summed counters
/// when every exchange succeeded, otherwise the first failure. A failed
/// exchange aborts the whole call; no partial aggregate is returned.
pub fn combine(outcomes: &Vec<Result<Scrape, udp::ScrapeError>>) -> (r: Result<
    Scrape,
    udp::ScrapeError,
>)
    ensures
        r is Ok <==> (forall|i: int| 0 <= i < outcomes@.len() ==> (#[trigger] outcomes@[i]) is Ok),
        r is Ok ==> r->Ok_0 == total_of(ok_counts(outcomes@)),
        r is Err ==> exists|i: int|
            0 <= i < outcomes@.len() && (#[trigger] outcomes@[i]) is Err && r->Err_0
                == outcomes@[i]->Err_0 && (forall|j: int| 0 <= j < i ==> outcomes@[j] is Ok),
{
    let mut parts: Vec<Scrape> = Vec::new();
    let mut i: usize = 0;
    while i < outcomes.len()
        invariant
            0 <= i <= outcomes@.len(),
            forall|k: int| 0 <= k < i ==> (#[trigger] outcomes@[k]) is Ok,
            parts@ =~= ok_counts(outcomes@).subrange(0, i as int),
        decreases outcomes@.len() - i,
    {
        match &outcomes[i] {
            Ok(s) => {
                parts.push(Scrape { leechers: s.leechers, peers: s.peers, seeders: s.seeders });
            },
            Err(e) => {
                return Err(*e);
            },
        }
        i += 1;
    }
    proof {
        assert(parts@ =~= ok_counts(outcomes@));
    }
    Ok(aggregate(&parts))
}

/// The scrape client: an optional UDP routing plan. Without one, scraping
/// is disabled and yields nothing.
pub struct Scraper {
    pub udp: Option<Udp>,
}

impl Scraper {
    /// Builds the routing plan from the configured local bind addresses and
    /// remote trackers, when scraping is configured at all.
    pub fn init(udp: Option<(Vec<Endpoint>, Vec<Endpoint>)>) -> (r: Scraper)
        ensures
            r.udp is Some <==> udp is Some,
            udp is Some ==> ({
                let (local, remote) = udp->0;
                r.udp->0.is_plan_for(local@, remote@)
            }),
    {
        match udp {
            Some((local, remote)) => Scraper { udp: Some(Udp::init(local, remote)) },
            None => Scraper { udp: None },
        }
    }
}

} // verus!
