//! Directory listings as the serving paths see them: one entry per file
//! with its modification time, ordered by that time and cut into pages.
//! Reading the directory itself is input handled at the edge.

use vstd::prelude::*;

use vstd::multiset::Multiset;
use vstd::seq_lib::group_to_multiset_ensures;

verus! {

/// One listed file: its modification time, seconds since the epoch, and
/// its path text.
pub struct Entry {
    pub modified: i64,
    pub path: String,
}

impl Entry {
    /// An identical copy.
    pub fn duplicate(&self) -> (r: Entry)
        ensures
            r == *self,
    {
        Entry { modified: self.modified, path: self.path.clone() }
    }
}

/// The listing order between two entries: ascending or descending
/// modification time.
pub open spec fn le(a: Entry, b: Entry, asc: bool) -> bool {
    if asc {
        a.modified <= b.modified
    } else {
        a.modified >= b.modified
    }
}

/// Whether a listing is ordered by modification time.
pub open spec fn sorted(s: Seq<Entry>, asc: bool) -> bool {
    forall|i: int, j: int| 0 <= i < j < s.len() ==> le(#[trigger] s[i], #[trigger] s[j], asc)
}

/// The index of the first extremal entry: minimal modification time when
/// ascending, maximal when descending.
fn extremal_index(v: &Vec<Entry>, asc: bool) -> (r: usize)
    requires
        v@.len() > 0,
    ensures
        0 <= r < v@.len(),
        forall|j: int| 0 <= j < v@.len() ==> le(v@[r as int], #[trigger] v@[j], asc),
{
    let mut best: usize = 0;
    let mut i: usize = 1;
    while i < v.len()
        invariant
            0 <= best < i <= v@.len(),
            forall|j: int| 0 <= j < i ==> le(v@[best as int], #[trigger] v@[j], asc),
        decreases v@.len() - i,
    {
        let better = if asc {
            v[i].modified < v[best].modified
        } else {
            v[i].modified > v[best].modified
        };
        if better {
            best = i;
        }
        i += 1;
    }
    best
}

/// Orders the entries by modification time. The result holds exactly the
/// given entries; entries with equal times keep their relative order
/// unstated.
pub fn sort_entries(entries: Vec<Entry>, asc: bool) -> (r: Vec<Entry>)
    ensures
        sorted(r@, asc),
        r@.to_multiset() == entries@.to_multiset(),
        r@.len() == entries@.len(),
{
    broadcast use group_to_multiset_ensures;
    broadcast use vstd::multiset::group_multiset_axioms;

    let ghost input = entries@;
    let mut work = entries;
    let mut out: Vec<Entry> = Vec::new();
    while work.len() > 0
        invariant
            sorted(out@, asc),
            out@.to_multiset().add(work@.to_multiset()) =~= input.to_multiset(),
            out@.len() + work@.len() == input.len(),
            forall|i: int, j: int|
                0 <= i < out@.len() && 0 <= j < work@.len() ==> le(
                    #[trigger] out@[i],
                    #[trigger] work@[j],
                    asc,
                ),
        decreases work@.len(),
    {
        let m = extremal_index(&work, asc);
        let ghost before = work@;
        let ghost before_out = out@;
        let e = work.remove(m);
        out.push(e);
        proof {
            before.to_multiset_ensures();
            before_out.to_multiset_ensures();
            assert(out@ == before_out.push(e));
            assert(before_out.push(e).to_multiset() =~= before_out.to_multiset().insert(e));
            assert(work@ == before.remove(m as int));
            assert(before.remove(m as int).to_multiset() =~= before.to_multiset().remove(
                before[m as int],
            ));
            assert(before.to_multiset().count(e) > 0) by {
                assert(before[m as int] == e);
                assert(before.contains(e));
            }
            assert(out@.to_multiset().add(work@.to_multiset()) =~= input.to_multiset());
            assert forall|j: int| 0 <= j < work@.len() implies le(e, #[trigger] work@[j], asc) by {
                if j < m {
                    assert(work@[j] == before[j]);
                } else {
                    assert(work@[j] == before[j + 1]);
                }
            }
        }
    }
    proof {
        assert(work@.to_multiset() =~= Multiset::empty());
        assert(out@.to_multiset() =~= input.to_multiset());
    }
    out
}

/// Whether the entry names a `.torrent` file.
pub open spec fn is_torrent_entry(e: Entry) -> bool {
    crate::text::ends_with(e.path@, ".torrent"@)
}

/// The entries naming `.torrent` files, in order.
pub open spec fn with_extension(s: Seq<Entry>) -> Seq<Entry>
    decreases s.len(),
{
    if s.len() == 0 {
        Seq::empty()
    } else {
        let rest = with_extension(s.drop_last());
        if is_torrent_entry(s.last()) {
            rest.push(s.last())
        } else {
            rest
        }
    }
}

/// Keeps the entries naming `.torrent` files, in order.
pub fn filter_torrents(entries: &Vec<Entry>) -> (r: Vec<Entry>)
    ensures
        r@ == with_extension(entries@),
{
    let mut out: Vec<Entry> = Vec::new();
    let mut i: usize = 0;
    while i < entries.len()
        invariant
            0 <= i <= entries@.len(),
            out@ == with_extension(entries@.subrange(0, i as int)),
        decreases entries@.len() - i,
    {
        proof {
            let pre = entries@.subrange(0, i + 1);
            assert(pre.drop_last() =~= entries@.subrange(0, i as int));
            assert(pre.last() == entries@[i as int]);
        }
        if crate::text::ends_with_str(entries[i].path.as_str(), ".torrent") {
            out.push(entries[i].duplicate());
        }
        i += 1;
    }
    proof {
        assert(entries@.subrange(0, entries@.len() as int) =~= entries@);
    }
    out
}

/// The page `start..start+limit` of a listing: a missing start begins at
/// the first entry, a missing limit runs to the end, and both are clamped
/// to the listing.
pub open spec fn page_of(s: Seq<Entry>, start: Option<usize>, limit: Option<usize>) -> Seq<Entry> {
    let s0 = if start is Some {
        if start->0 <= s.len() {
            start->0 as int
        } else {
            s.len() as int
        }
    } else {
        0
    };
    let l0 = if limit is Some {
        if limit->0 <= s.len() - s0 {
            limit->0 as int
        } else {
            s.len() - s0
        }
    } else {
        s.len() - s0
    };
    s.subrange(s0, s0 + l0)
}

/// Cuts the listing to the requested page.
pub fn page(entries: &Vec<Entry>, start: Option<usize>, limit: Option<usize>) -> (r: Vec<Entry>)
    ensures
        r@ == page_of(entries@, start, limit),
{
    let n = entries.len();
    let s0 = match start {
        Some(s) => if s <= n {
            s
        } else {
            n
        },
        None => 0,
    };
    let l0 = match limit {
        Some(l) => if l <= n - s0 {
            l
        } else {
            n - s0
        },
        None => n - s0,
    };
    let mut out: Vec<Entry> = Vec::new();
    let mut i: usize = s0;
    while i < s0 + l0
        invariant
            s0 <= i <= s0 + l0,
            s0 + l0 <= n,
            n == entries@.len(),
            out@ =~= entries@.subrange(s0 as int, i as int),
        decreases s0 + l0 - i,
    {
        out.push(entries[i].duplicate());
        i += 1;
    }
    out
}

} // verus!
