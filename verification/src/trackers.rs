//! The configured announce trackers: each entry parsed as a URL, the whole
//! configuration rejected on the first malformed entry, and duplicates
//! dropped. The first occurrence keeps its place, so generated magnet
//! references are reproducible for a given configuration order.

use vstd::prelude::*;

verus! {

/// What parsing and re-rendering a URL yields: `url::Url::parse` followed
/// by `as_str` depends on the input characters alone; `None` when the text
/// is not a valid absolute URL.
pub uninterp spec fn url_normalized(s: Seq<char>) -> Option<Seq<char>>;

/// Relies on `url::Url::parse` and `Url::as_str`: the parsed URL rendered
/// back to text, a pure function of the input.
#[verifier::external_body]
fn parse_url(s: &str) -> (r: Option<String>)
    ensures
        r is Some <==> url_normalized(s@) is Some,
        r is Some ==> r->0@ == url_normalized(s@)->0,
{
    Some(url::Url::parse(s).ok()?.as_str().to_owned())
}

/// A malformed tracker entry rejects the whole configuration.
#[derive(Clone, Copy, Debug, PartialEq, Eq, Structural)]
pub enum TrackersError {
    InvalidUrl,
}

/// `s` with duplicates removed, keeping each first occurrence in place.
pub open spec fn dedup(s: Seq<Seq<char>>) -> Seq<Seq<char>>
    decreases s.len(),
{
    if s.len() == 0 {
        Seq::empty()
    } else {
        let rest = dedup(s.drop_last());
        if rest.contains(s.last()) {
            rest
        } else {
            rest.push(s.last())
        }
    }
}

/// Deduplication is by set semantics: the kept list never holds the same
/// text twice, and it holds exactly the texts of the input.
pub proof fn lemma_dedup_distinct(s: Seq<Seq<char>>)
    ensures
        forall|i: int, j: int| 0 <= i < j < dedup(s).len() ==> dedup(s)[i] != dedup(s)[j],
        forall|x: Seq<char>| dedup(s).contains(x) <==> s.contains(x),
    decreases s.len(),
{
    if s.len() > 0 {
        lemma_dedup_distinct(s.drop_last());
        let rest = dedup(s.drop_last());
        let full = dedup(s);
        if !rest.contains(s.last()) {
            assert(forall|i: int| 0 <= i < rest.len() ==> full[i] == rest[i]);
            assert(full.last() == s.last());
        }
        assert forall|x: Seq<char>| dedup(s).contains(x) implies s.contains(x) by {
            if rest.contains(x) {
                assert(s.drop_last().contains(x));
                let i = choose|i: int| 0 <= i < s.drop_last().len() && s.drop_last()[i] == x;
                assert(s[i] == x);
            } else {
                assert(x == s.last());
                assert(s[s.len() - 1] == x);
            }
        }
        assert forall|x: Seq<char>| s.contains(x) implies dedup(s).contains(x) by {
            let i = choose|i: int| 0 <= i < s.len() && s[i] == x;
            if i < s.len() - 1 {
                assert(s.drop_last()[i] == x);
                assert(s.drop_last().contains(x));
                assert(rest.contains(x));
                if !rest.contains(s.last()) {
                    let k = choose|k: int| 0 <= k < rest.len() && rest[k] == x;
                    assert(full[k] == x);
                }
            } else {
                if rest.contains(s.last()) {
                    let k = choose|k: int| 0 <= k < rest.len() && rest[k] == x;
                    assert(full[k] == x);
                } else {
                    assert(full.last() == x);
                }
            }
        }
    }
}

/// The configured trackers, normalized and deduplicated, in configuration
/// order.
pub struct Trackers(Vec<String>);

impl Trackers {
    /// The normalized tracker texts, as contracts see them.
    pub closed spec fn spec_list(&self) -> Seq<Seq<char>> {
        Seq::new(self.0@.len(), |i: int| self.0@[i]@)
    }

    /// Parses every configured entry; the first malformed one rejects the
    /// whole configuration. Valid entries are kept normalized, duplicates
    /// dropped, first occurrences in configuration order.
    pub fn init(trackers: &Vec<String>) -> (r: Result<Trackers, TrackersError>)
        ensures
            r is Ok <==> (forall|i: int|
                0 <= i < trackers@.len() ==> url_normalized(#[trigger] trackers@[i]@) is Some),
            r is Ok ==> r->Ok_0.spec_list() == dedup(
                Seq::new(trackers@.len(), |i: int| url_normalized(trackers@[i]@)->0),
            ),
            r is Err ==> r->Err_0 == TrackersError::InvalidUrl,
    {
        let ghost all = Seq::new(trackers@.len(), |i: int| url_normalized(trackers@[i]@)->0);
        let mut out: Vec<String> = Vec::new();
        let mut i: usize = 0;
        while i < trackers.len()
            invariant
                0 <= i <= trackers@.len(),
                all == Seq::new(trackers@.len(), |k: int| url_normalized(trackers@[k]@)->0),
                forall|k: int|
                    0 <= k < i ==> url_normalized(#[trigger] trackers@[k]@) is Some,
                Seq::new(out@.len(), |k: int| out@[k]@) == dedup(all.subrange(0, i as int)),
            decreases trackers@.len() - i,
        {
            let ghost views_before = Seq::new(out@.len(), |k: int| out@[k]@);
            match parse_url(trackers[i].as_str()) {
                Some(u) => {
                    proof {
                        let pre = all.subrange(0, i + 1);
                        assert(pre.drop_last() =~= all.subrange(0, i as int));
                        assert(pre.last() == u@);
                    }
                    if !contains_text(&out, &u) {
                        out.push(u);
                        proof {
                            assert(Seq::new(out@.len(), |k: int| out@[k]@) =~= views_before.push(
                                all[i as int],
                            ));
                        }
                    } else {
                        proof {
                            assert(Seq::new(out@.len(), |k: int| out@[k]@) =~= views_before);
                        }
                    }
                },
                None => {
                    return Err(TrackersError::InvalidUrl);
                },
            }
            i += 1;
        }
        proof {
            assert(all.subrange(0, all.len() as int) =~= all);
        }
        Ok(Trackers(out))
    }

    /// Whether no tracker is configured.
    pub fn is_empty(&self) -> (r: bool)
        ensures
            r == (self.spec_list().len() == 0),
    {
        self.0.is_empty()
    }

    /// The normalized tracker list, in configuration order.
    pub fn list(&self) -> (r: &Vec<String>)
        ensures
            r@.len() == self.spec_list().len(),
            forall|i: int| 0 <= i < r@.len() ==> (#[trigger] r@[i])@ == self.spec_list()[i],
    {
        &self.0
    }
}

/// Whether `out` already holds a string with the text of `u`.
fn contains_text(out: &Vec<String>, u: &String) -> (r: bool)
    ensures
        r == Seq::new(out@.len(), |k: int| out@[k]@).contains(u@),
{
    let ghost views = Seq::new(out@.len(), |k: int| out@[k]@);
    let mut i: usize = 0;
    while i < out.len()
        invariant
            0 <= i <= out@.len(),
            views == Seq::new(out@.len(), |k: int| out@[k]@),
            forall|k: int| 0 <= k < i ==> views[k] != u@,
        decreases out@.len() - i,
    {
        if out[i] == *u {
            assert(views[i as int] == u@);
            return true;
        }
        i += 1;
    }
    proof {
        assert(forall|k: int| 0 <= k < views.len() ==> views[k] != u@);
    }
    false
}

} // verus!
