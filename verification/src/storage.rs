//! The raw record store directory: every regular file is listed and
//! time-ordered, the page is cut first, and only `.torrent` files within
//! the page are served. The total reported is the number of listed files
//! before filtering. Reading the directory and the files is input handled
//! at the edge.

use vstd::prelude::*;

use crate::listing;
use crate::listing::Entry;
use crate::paths;

verus! {

/// The listing key; modification time is the only one offered.
#[derive(Clone, Copy, Debug, Default)]
pub enum Sort {
    #[default]
    Modified,
}

/// Listing direction.
#[derive(Clone, Copy, Debug, Default)]
pub enum Order {
    #[default]
    Asc,
    Desc,
}

/// One stored record: the raw `.torrent` bytes and the file's
/// modification time, seconds since the epoch.
pub struct Torrent {
    pub bytes: Vec<u8>,
    pub time: i64,
}

/// Whether `result` is the `.torrent` part of the requested page of some
/// time-ordered rearrangement of `source`.
pub open spec fn is_filtered_page_of(
    result: Seq<Entry>,
    source: Seq<Entry>,
    asc: bool,
    start: Option<usize>,
    limit: Option<usize>,
) -> bool {
    exists|q: Seq<Entry>|
        listing::sorted(q, asc) && q.to_multiset() == source.to_multiset() && result
            == listing::with_extension(#[trigger] listing::page_of(q, start, limit))
}

/// The record store directory.
pub struct Storage {
    pub default_limit: usize,
    default_capacity: usize,
    root: String,
}

impl Storage {
    /// The canonical root, as contracts see it.
    pub closed spec fn spec_root(&self) -> Seq<char> {
        self.root@
    }

    /// The default listing limit, as contracts see it.
    pub closed spec fn spec_default_limit(&self) -> usize {
        self.default_limit
    }

    /// The capacity hint, as contracts see it.
    pub closed spec fn spec_default_capacity(&self) -> usize {
        self.default_capacity
    }

    /// Accepts the storage root if the filesystem currently shows it as a
    /// directory and it canonicalizes; the defaults are stored as given.
    pub fn init(root: &str, default_limit: usize, default_capacity: usize) -> (r: Result<
        Storage,
        String,
    >)
        ensures
            r is Ok ==> r->Ok_0.spec_default_limit() == default_limit,
            r is Ok ==> r->Ok_0.spec_default_capacity() == default_capacity,
    {
        if !paths::dir_exists(root) {
            return Err(String::from_str("Storage root is not directory"));
        }
        match paths::canonical(root) {
            Some(c) => Ok(Storage { default_limit, default_capacity, root: c }),
            None => Err(String::from_str("Storage root cannot be resolved")),
        }
    }

    /// The page of records to serve: every listed file counts toward the
    /// total and the page cut; only `.torrent` files within the page are
    /// returned.
    pub fn torrents(
        &self,
        entries: Vec<Entry>,
        sort_order: Option<(Sort, Order)>,
        start: Option<usize>,
        limit: Option<usize>,
    ) -> (r: (usize, Vec<Entry>))
        ensures
            r.0 == entries@.len(),
            sort_order is None ==> r.1@ == listing::with_extension(
                listing::page_of(entries@, start, limit),
            ),
            sort_order is Some ==> ({
                let (sort, order) = sort_order->0;
                is_filtered_page_of(r.1@, entries@, order is Asc, start, limit)
            }),
    {
        let total = entries.len();
        match sort_order {
            Some((sort, order)) => {
                let asc = match sort {
                    Sort::Modified => match order {
                        Order::Asc => true,
                        Order::Desc => false,
                    },
                };
                let ordered = listing::sort_entries(entries, asc);
                let p = listing::page(&ordered, start, limit);
                let f = listing::filter_torrents(&p);
                proof {
                    assert(listing::page_of(ordered@, start, limit) == p@);
                }
                (total, f)
            },
            None => {
                let p = listing::page(&entries, start, limit);
                let f = listing::filter_torrents(&p);
                (total, f)
            },
        }
    }
}

} // verus!
