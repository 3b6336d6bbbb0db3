//! The public record directory the web views serve from: one `.torrent`
//! file per resolved hash under a canonicalized root, listed newest or
//! oldest first and cut into pages, with sandboxed links into the
//! per-torrent file trees. Reading the directory and the files is
//! input handled at the edge; this module owns path safety, filtering,
//! ordering and pagination.

use vstd::prelude::*;

use crate::listing;
use crate::listing::Entry;
use crate::paths;

verus! {

/// The listing key; modification time is the only one offered.
#[derive(Clone, Copy, Debug, Default)]
pub enum Sort {
    #[default]
    Modified,
}

/// Listing direction.
#[derive(Clone, Copy, Debug, Default)]
pub enum Order {
    #[default]
    Asc,
    Desc,
}

/// One stored record: the raw `.torrent` bytes and the file's
/// modification time, seconds since the epoch.
pub struct Torrent {
    pub bytes: Vec<u8>,
    pub time: i64,
}

/// Whether `result` is the requested page of some time-ordered
/// rearrangement of `source`.
pub open spec fn is_sorted_page_of(
    result: Seq<Entry>,
    source: Seq<Entry>,
    asc: bool,
    start: Option<usize>,
    limit: Option<usize>,
) -> bool {
    exists|q: Seq<Entry>|
        listing::sorted(q, asc) && q.to_multiset() == source.to_multiset() && result
            == #[trigger] listing::page_of(q, start, limit)
}

/// The public record directory.
pub struct Public {
    default_capacity: usize,
    pub default_limit: usize,
    root: String,
}

impl Public {
    /// The canonical root, as contracts see it.
    pub closed spec fn spec_root(&self) -> Seq<char> {
        self.root@
    }

    /// The default listing limit, as contracts see it.
    pub closed spec fn spec_default_limit(&self) -> usize {
        self.default_limit
    }

    /// The capacity hint, as contracts see it.
    pub closed spec fn spec_default_capacity(&self) -> usize {
        self.default_capacity
    }

    /// Accepts the public root if the filesystem currently shows it as a
    /// directory and it canonicalizes; the defaults are stored as given.
    pub fn init(root: &str, default_limit: usize, default_capacity: usize) -> (r: Result<
        Public,
        String,
    >)
        ensures
            r is Ok ==> r->Ok_0.spec_default_limit() == default_limit,
            r is Ok ==> r->Ok_0.spec_default_capacity() == default_capacity,
    {
        if !paths::dir_exists(root) {
            return Err(String::from_str("Public root is not directory"));
        }
        match paths::canonical(root) {
            Some(c) => Ok(Public { default_capacity, default_limit, root: c }),
            None => Err(String::from_str("Public root cannot be resolved")),
        }
    }

    /// The page of `.torrent` entries to serve: only `.torrent` files
    /// count, the total is their number before paging, and the page is cut
    /// from the time-ordered listing when an order is requested.
    pub fn torrents(
        &self,
        entries: Vec<Entry>,
        sort_order: Option<(Sort, Order)>,
        start: Option<usize>,
        limit: Option<usize>,
    ) -> (r: (usize, Vec<Entry>))
        ensures
            r.0 == listing::with_extension(entries@).len(),
            sort_order is None ==> r.1@ == listing::page_of(
                listing::with_extension(entries@),
                start,
                limit,
            ),
            sort_order is Some ==> ({
                let (sort, order) = sort_order->0;
                is_sorted_page_of(r.1@, listing::with_extension(entries@), order is Asc, start, limit)
            }),
    {
        let filtered = listing::filter_torrents(&entries);
        let total = filtered.len();
        match sort_order {
            Some((sort, order)) => {
                let asc = match sort {
                    Sort::Modified => match order {
                        Order::Asc => true,
                        Order::Desc => false,
                    },
                };
                let ordered = listing::sort_entries(filtered, asc);
                let p = listing::page(&ordered, start, limit);
                proof {
                    assert(listing::page_of(ordered@, start, limit) == p@);
                }
                (total, p)
            },
            None => {
                let p = listing::page(&filtered, start, limit);
                (total, p)
            },
        }
    }

    /// The served link for one file of a torrent: `<hash>/<path>`, handed
    /// out only when the target resolves to an existing entry that is
    /// still under the public root.
    pub fn href(&self, info_hash: &str, path: &str) -> (r: Option<String>)
        ensures
            r is Some ==> r->0@ == info_hash@ + seq!['/'] + path@,
    {
        let relative = paths::join(info_hash, path);
        let absolute = paths::join(&self.root, relative.as_str());
        match paths::canonical(absolute.as_str()) {
            Some(c) => {
                if paths::within(self.root.as_str(), c.as_str()) && paths::entry_exists(
                    c.as_str(),
                ) {
                    Some(relative)
                } else {
                    None
                }
            },
            None => None,
        }
    }
}

} // verus!
