//! The BEP15 UDP tracker-scrape wire format and route planning.
//!
//! All integers on the wire are big-endian. A connect request is 16 bytes:
//! the magic constant, action `0`, and a transaction id. The connect
//! response carries the 8-byte connection id at bytes 8..16. A scrape
//! request is the connection id, action `2`, a transaction id, and up to 74
//! 20-byte info-hashes. A scrape response carries three 32-bit counters at
//! bytes 8..20. Undersized packets are protocol errors.
//!
//! Sending and receiving datagrams is input/output handled at the edge;
//! this module builds and reads the exact byte layouts and plans which
//! remote trackers each local socket may query.

use vstd::prelude::*;

use crate::api::info_hash::InfoHash;
use crate::endpoint::Endpoint;
use crate::scraper::Scrape;

verus! {

/// The BEP15 connect-request magic constant.
pub const PROTOCOL_ID: u64 = 0x41727101980;

/// The largest number of info-hashes one scrape request may carry.
pub const MAX_SCRAPE_HASHES: usize = 74;

/// Why a scrape exchange was refused or aborted.
#[derive(Clone, Copy, Debug, PartialEq, Eq, Structural)]
pub enum ScrapeError {
    /// More than 74 info-hashes were requested at once.
    TooManyHashes,
    /// A response was shorter than the protocol requires.
    ShortPacket,
}

/// The big-endian value of a byte sequence.
pub open spec fn be_val(b: Seq<u8>) -> int
    decreases b.len(),
{
    if b.len() == 0 {
        0
    } else {
        be_val(b.drop_last()) * 256 + b.last()
    }
}

/// The four big-endian bytes of a 32-bit value.
pub open spec fn be_bytes_u32(x: u32) -> Seq<u8> {
    seq![(x >> 24) as u8, (x >> 16) as u8, (x >> 8) as u8, x as u8]
}

/// The eight big-endian bytes of a 64-bit value.
pub open spec fn be_bytes_u64(x: u64) -> Seq<u8> {
    seq![
        (x >> 56) as u8,
        (x >> 48) as u8,
        (x >> 40) as u8,
        (x >> 32) as u8,
        (x >> 24) as u8,
        (x >> 16) as u8,
        (x >> 8) as u8,
        x as u8,
    ]
}

/// The concatenated raw bytes of a hash list, 20 per hash, in order.
pub open spec fn hashes_bytes(hs: Seq<InfoHash>) -> Seq<u8>
    decreases hs.len(),
{
    if hs.len() == 0 {
        Seq::empty()
    } else {
        hashes_bytes(hs.drop_last()) + hs.last()@
    }
}

/// Reading the four big-endian bytes of a 32-bit value gives it back.
pub proof fn lemma_be_u32_round_trip(x: u32)
    ensures
        be_val(be_bytes_u32(x)) == x,
{
    let b = be_bytes_u32(x);
    reveal_with_fuel(be_val, 5);
    assert(b.drop_last().drop_last().drop_last().drop_last() =~= Seq::<u8>::empty());
    assert(be_val(b) == (((x >> 24) as u8) as int) * 0x1000000 + (((x >> 16) as u8) as int)
        * 0x10000 + (((x >> 8) as u8) as int) * 0x100 + ((x as u8) as int));
    assert(((x >> 24) as u8) as u64 * 0x1000000 + ((x >> 16) as u8) as u64 * 0x10000 + ((x
        >> 8) as u8) as u64 * 0x100 + (x as u8) as u64 == x as u64) by (bit_vector);
}

/// Reading the eight big-endian bytes of a 64-bit value gives it back.
pub proof fn lemma_be_u64_round_trip(x: u64)
    ensures
        be_val(be_bytes_u64(x)) == x,
{
    let b = be_bytes_u64(x);
    reveal_with_fuel(be_val, 9);
    assert(b.drop_last().drop_last().drop_last().drop_last().drop_last().drop_last().drop_last()
        .drop_last() =~= Seq::<u8>::empty());
    assert(be_val(b) == (((x >> 56) as u8) as int) * 0x100000000000000 + (((x
        >> 48) as u8) as int) * 0x1000000000000 + (((x >> 40) as u8) as int) * 0x10000000000
        + (((x >> 32) as u8) as int) * 0x100000000 + (((x >> 24) as u8) as int) * 0x1000000 + (((x
        >> 16) as u8) as int) * 0x10000 + (((x >> 8) as u8) as int) * 0x100 + ((x as u8) as int));
    assert(((x >> 56) as u8) as u128 * 0x100000000000000 + ((x >> 48) as u8) as u128
        * 0x1000000000000 + ((x >> 40) as u8) as u128 * 0x10000000000 + ((x >> 32) as u8) as u128
        * 0x100000000 + ((x >> 24) as u8) as u128 * 0x1000000 + ((x >> 16) as u8) as u128 * 0x10000
        + ((x >> 8) as u8) as u128 * 0x100 + (x as u8) as u128 == x as u128) by (bit_vector);
}

/// Appends the four big-endian bytes of `x`.
pub fn push_be_u32(out: &mut Vec<u8>, x: u32)
    ensures
        final(out)@ == old(out)@ + be_bytes_u32(x),
{
    out.push((x >> 24) as u8);
    out.push((x >> 16) as u8);
    out.push((x >> 8) as u8);
    out.push(x as u8);
    proof {
        assert(final(out)@ =~= old(out)@ + be_bytes_u32(x));
    }
}

/// Appends the eight big-endian bytes of `x`.
pub fn push_be_u64(out: &mut Vec<u8>, x: u64)
    ensures
        final(out)@ == old(out)@ + be_bytes_u64(x),
{
    out.push((x >> 56) as u8);
    out.push((x >> 48) as u8);
    out.push((x >> 40) as u8);
    out.push((x >> 32) as u8);
    out.push((x >> 24) as u8);
    out.push((x >> 16) as u8);
    out.push((x >> 8) as u8);
    out.push(x as u8);
    proof {
        assert(final(out)@ =~= old(out)@ + be_bytes_u64(x));
    }
}

/// The 16-byte connect request: magic constant, action `0`, transaction id.
pub fn connection_request(transaction_id: u32) -> (r: Vec<u8>)
    ensures
        r@ == be_bytes_u64(PROTOCOL_ID) + be_bytes_u32(0) + be_bytes_u32(transaction_id),
        r@.len() == 16,
{
    let mut b: Vec<u8> = Vec::new();
    push_be_u64(&mut b, PROTOCOL_ID);
    push_be_u32(&mut b, 0);
    push_be_u32(&mut b, transaction_id);
    proof {
        assert(b@ =~= be_bytes_u64(PROTOCOL_ID) + be_bytes_u32(0) + be_bytes_u32(transaction_id));
    }
    b
}

/// The scrape request: connection id, action `2`, transaction id, then the
/// raw bytes of each hash. More than 74 hashes is a caller error, rejected
/// before anything is sent.
pub fn scrape_request(connection_id: u64, transaction_id: u32, info_hashes: &Vec<InfoHash>) -> (r:
    Result<Vec<u8>, ScrapeError>)
    ensures
        r is Ok <==> info_hashes@.len() <= 74,
        r is Ok ==> r->Ok_0@ == be_bytes_u64(connection_id) + be_bytes_u32(2) + be_bytes_u32(
            transaction_id,
        ) + hashes_bytes(info_hashes@),
        r is Err ==> r->Err_0 == ScrapeError::TooManyHashes,
{
    if info_hashes.len() > MAX_SCRAPE_HASHES {
        return Err(ScrapeError::TooManyHashes);
    }
    let mut b: Vec<u8> = Vec::new();
    push_be_u64(&mut b, connection_id);
    push_be_u32(&mut b, 2);
    push_be_u32(&mut b, transaction_id);
    let ghost head = b@;
    let mut i: usize = 0;
    while i < info_hashes.len()
        invariant
            0 <= i <= info_hashes@.len(),
            b@ == head + hashes_bytes(info_hashes@.subrange(0, i as int)),
        decreases info_hashes@.len() - i,
    {
        let h = info_hashes[i].bytes();
        let mut j: usize = 0;
        while j < 20
            invariant
                0 <= j <= 20,
                i < info_hashes@.len(),
                h@ == info_hashes@[i as int]@,
                b@ == head + hashes_bytes(info_hashes@.subrange(0, i as int)) + h@.subrange(
                    0,
                    j as int,
                ),
            decreases 20 - j,
        {
            b.push(h[j]);
            proof {
                assert(h@.subrange(0, j + 1) =~= h@.subrange(0, j as int).push(h@[j as int]));
                assert(b@ =~= head + hashes_bytes(info_hashes@.subrange(0, i as int))
                    + h@.subrange(0, j + 1));
            }
            j += 1;
        }
        proof {
            let pre = info_hashes@.subrange(0, i + 1);
            assert(pre.drop_last() =~= info_hashes@.subrange(0, i as int));
            assert(h@.subrange(0, 20) =~= info_hashes@[i as int]@);
            assert(b@ =~= head + hashes_bytes(pre));
        }
        i += 1;
    }
    proof {
        assert(info_hashes@.subrange(0, info_hashes@.len() as int) =~= info_hashes@);
    }
    Ok(b)
}

/// The connection id of a connect response: bytes 8..16, big-endian.
/// Anything shorter than 16 bytes is a protocol error.
pub fn connection_id(response: &[u8]) -> (r: Result<u64, ScrapeError>)
    ensures
        r is Ok <==> response@.len() >= 16,
        r is Ok ==> r->Ok_0 == be_val(response@.subrange(8, 16)),
        r is Err ==> r->Err_0 == ScrapeError::ShortPacket,
{
    if response.len() < 16 {
        return Err(ScrapeError::ShortPacket);
    }
    Ok(read_be_u64(response, 8))
}

/// The three counters of a single-hash scrape response: seeders at bytes
/// 8..12, leechers at 12..16, peers at 16..20, each big-endian. Anything
/// shorter than 20 bytes is a protocol error.
pub fn parse_scrape(response: &[u8]) -> (r: Result<Scrape, ScrapeError>)
    ensures
        r is Ok <==> response@.len() >= 20,
        r is Ok ==> r->Ok_0.seeders == be_val(response@.subrange(8, 12)),
        r is Ok ==> r->Ok_0.leechers == be_val(response@.subrange(12, 16)),
        r is Ok ==> r->Ok_0.peers == be_val(response@.subrange(16, 20)),
        r is Err ==> r->Err_0 == ScrapeError::ShortPacket,
{
    if response.len() < 20 {
        return Err(ScrapeError::ShortPacket);
    }
    let seeders = read_be_u32(response, 8);
    let leechers = read_be_u32(response, 12);
    let peers = read_be_u32(response, 16);
    Ok(Scrape { leechers, peers, seeders })
}

/// `256^n`, the exclusive upper bound of an `n`-byte big-endian value.
pub open spec fn pow256(n: nat) -> int
    decreases n,
{
    if n == 0 {
        1
    } else {
        256 * pow256((n - 1) as nat)
    }
}

/// Every big-endian value of `n` bytes lies in `[0, 256^n)`.
pub proof fn lemma_be_val_bound(b: Seq<u8>)
    ensures
        0 <= be_val(b),
        be_val(b) < pow256(b.len()),
    decreases b.len(),
{
    if b.len() > 0 {
        lemma_be_val_bound(b.drop_last());
    }
}

/// Reads the big-endian 32-bit value at `at`.
fn read_be_u32(b: &[u8], at: usize) -> (r: u32)
    requires
        at + 4 <= b@.len(),
    ensures
        r == be_val(b@.subrange(at as int, at + 4)),
{
    let n = b.len();
    let mut v: u32 = 0;
    let mut i: usize = 0;
    while i < 4
        invariant
            0 <= i <= 4,
            n == b@.len(),
            at + 4 <= n,
            v == be_val(b@.subrange(at as int, at + i)),
        decreases 4 - i,
    {
        proof {
            lemma_be_val_bound(b@.subrange(at as int, at + i));
            reveal_with_fuel(pow256, 4);
            assert(pow256(b@.subrange(at as int, at + i).len()) <= 0x1000000);
        }
        v = v * 256 + (b[at + i] as u32);
        proof {
            let pre = b@.subrange(at as int, at + i + 1);
            assert(pre.drop_last() =~= b@.subrange(at as int, at + i));
            assert(pre.last() == b@[at + i]);
        }
        i += 1;
    }
    v
}

/// Reads the big-endian 64-bit value at `at`.
fn read_be_u64(b: &[u8], at: usize) -> (r: u64)
    requires
        at + 8 <= b@.len(),
    ensures
        r == be_val(b@.subrange(at as int, at + 8)),
{
    let n = b.len();
    let mut v: u64 = 0;
    let mut i: usize = 0;
    while i < 8
        invariant
            0 <= i <= 8,
            n == b@.len(),
            at + 8 <= n,
            v == be_val(b@.subrange(at as int, at + i)),
        decreases 8 - i,
    {
        proof {
            lemma_be_val_bound(b@.subrange(at as int, at + i));
            reveal_with_fuel(pow256, 8);
            assert(pow256(b@.subrange(at as int, at + i).len()) <= 0x100000000000000);
        }
        v = v * 256 + (b[at + i] as u64);
        proof {
            let pre = b@.subrange(at as int, at + i + 1);
            assert(pre.drop_last() =~= b@.subrange(at as int, at + i));
            assert(pre.last() == b@[at + i]);
        }
        i += 1;
    }
    v
}

/// The remote endpoints of `remote` whose family matches `v6`, in their
/// configured order.
pub open spec fn same_family(remote: Seq<Endpoint>, v6: bool) -> Seq<Endpoint>
    decreases remote.len(),
{
    if remote.len() == 0 {
        Seq::empty()
    } else {
        let rest = same_family(remote.drop_last(), v6);
        if remote.last().v6 == v6 {
            rest.push(remote.last())
        } else {
            rest
        }
    }
}

/// One local socket endpoint and the remote trackers it may query.
pub struct Route {
    pub local: Endpoint,
    pub remote: Vec<Endpoint>,
}

/// The scrape routing plan: one route per configured local bind address,
/// each paired with exactly the remote trackers of its own address family.
pub struct Udp(pub Vec<Route>);

impl Udp {
    /// What `init` promises of a plan built from `local` and `remote`.
    pub open spec fn is_plan_for(&self, local: Seq<Endpoint>, remote: Seq<Endpoint>) -> bool {
        &&& self.0@.len() == local.len()
        &&& forall|i: int|
            0 <= i < local.len() ==> (#[trigger] self.0@[i]).local == local[i]
        &&& forall|i: int|
            0 <= i < local.len() ==> (#[trigger] self.0@[i]).remote@ == same_family(
                remote,
                local[i].v6,
            )
    }

    /// Pairs every local bind address with the matching-family remotes.
    /// IPv4 sockets only query IPv4 trackers, and symmetrically for IPv6.
    pub fn init(local: Vec<Endpoint>, remote: Vec<Endpoint>) -> (r: Udp)
        ensures
            r.is_plan_for(local@, remote@),
    {
        let mut routes: Vec<Route> = Vec::new();
        let mut i: usize = 0;
        while i < local.len()
            invariant
                0 <= i <= local@.len(),
                routes@.len() == i,
                forall|t: int| 0 <= t < i ==> (#[trigger] routes@[t]).local == local@[t],
                forall|t: int|
                    0 <= t < i ==> (#[trigger] routes@[t]).remote@ == same_family(
                        remote@,
                        local@[t].v6,
                    ),
            decreases local@.len() - i,
        {
            let l = local[i].duplicate();
            let matched = matching_remotes(&remote, l.v6);
            routes.push(Route { local: l, remote: matched });
            i += 1;
        }
        Udp(routes)
    }
}

/// The sub-list of `remote` whose family equals `v6`, in order.
fn matching_remotes(remote: &Vec<Endpoint>, v6: bool) -> (r: Vec<Endpoint>)
    ensures
        r@ == same_family(remote@, v6),
{
    let mut out: Vec<Endpoint> = Vec::new();
    let mut i: usize = 0;
    while i < remote.len()
        invariant
            0 <= i <= remote@.len(),
            out@ == same_family(remote@.subrange(0, i as int), v6),
        decreases remote@.len() - i,
    {
        proof {
            let pre = remote@.subrange(0, i + 1);
            assert(pre.drop_last() =~= remote@.subrange(0, i as int));
            assert(pre.last() == remote@[i as int]);
        }
        if remote[i].v6 == v6 {
            out.push(remote[i].duplicate());
        }
        i += 1;
    }
    proof {
        assert(remote@.subrange(0, remote@.len() as int) =~= remote@);
    }
    out
}

} // verus!
