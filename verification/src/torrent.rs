//! The torrent record as the serving path reads it, and the magnet
//! reference builder.
//!
//! A magnet reference is `magnet:?xt=urn:btih:<40-hex>` plus an optional
//! `&dn=<percent-encoded name>` and one `&tr=<percent-encoded tracker URL>`
//! per configured tracker, in the trackers' configured order.

pub mod file;

use vstd::prelude::*;

use crate::api::info_hash::InfoHash;
use file::File;

verus! {

/// What `urlencoding::encode` returns for the given characters: it depends
/// on the characters alone.
pub uninterp spec fn percent_encoded(s: Seq<char>) -> Seq<char>;

/// The characters percent-encoding can emit: ASCII alphanumerics, the four
/// unreserved marks it keeps, and `%` introducing an escape.
pub open spec fn encoding_kept_char(c: char) -> bool {
    (48 <= c as u32 && c as u32 <= 57) || (65 <= c as u32 && c as u32 <= 90) || (97 <= c as u32
        && c as u32 <= 122) || c == '-' || c == '.' || c == '_' || c == '~' || c == '%'
}

/// Every character of `s` is one the percent encoder can emit; in
/// particular `s` holds no `&`, `=` or `:`.
pub open spec fn all_kept_chars(s: Seq<char>) -> bool {
    forall|i: int| 0 <= i < s.len() ==> encoding_kept_char(#[trigger] s[i])
}

/// Relies on `urlencoding::encode`: percent-encodes every byte except
/// alphanumerics and `-`, `_`, `.`, `~`; escapes are `%` plus two uppercase
/// hex digits; the result depends on the input characters alone.
#[verifier::external_body]
fn encode_component(s: &str) -> (r: String)
    ensures
        r@ == percent_encoded(s@),
        all_kept_chars(r@),
        s@.len() == 0 ==> r@.len() == 0,
{
    urlencoding::encode(s).into_owned()
}

/// The `&tr=` parameters of a magnet reference, one per encoded tracker,
/// in order.
pub open spec fn tracker_params(trs: Seq<Seq<char>>) -> Seq<char>
    decreases trs.len(),
{
    if trs.len() == 0 {
        Seq::empty()
    } else {
        tracker_params(trs.drop_last()) + "&tr="@ + trs.last()
    }
}

/// The full magnet reference over the canonical hash text, the optional
/// encoded display name, and the encoded tracker URLs.
pub open spec fn magnet_text(hash: Seq<char>, dn: Option<Seq<char>>, trs: Seq<Seq<char>>) -> Seq<
    char,
> {
    "magnet:?xt=urn:btih:"@ + hash + (if dn is Some {
        "&dn="@ + dn->0
    } else {
        Seq::empty()
    }) + tracker_params(trs)
}

/// The number of positions of `s` where `p` occurs.
pub open spec fn count_matches(s: Seq<char>, p: Seq<char>) -> int
    decreases s.len(),
{
    if p.len() == 0 || s.len() < p.len() {
        0
    } else {
        (if s.take(p.len() as int) == p {
            1int
        } else {
            0int
        }) + count_matches(s.drop_first(), p)
    }
}

/// A resolved torrent, reduced to plain values: identification, the
/// metadata fields the views show, its declared files, and the indexing
/// time as a Unix timestamp.
pub struct Torrent {
    pub announce: Option<String>,
    pub comment: Option<String>,
    pub created_by: Option<String>,
    /// Creation time as declared in the metadata, seconds since the epoch.
    pub creation_date: Option<i64>,
    pub files: Option<Vec<File>>,
    pub id: InfoHash,
    /// Canonical 40-hex form of `id`.
    pub info_hash: String,
    pub is_private: bool,
    pub length: Option<u64>,
    pub name: Option<String>,
    pub publisher: Option<String>,
    pub publisher_url: Option<String>,
    /// Total declared size: the single-file length plus every listed file.
    pub size: u64,
    /// When the record was indexed, seconds since the epoch.
    pub time: i64,
}

impl Torrent {
    /// How many files the metadata lists, when it lists any.
    pub fn files(&self) -> (r: Option<usize>)
        ensures
            r is Some <==> self.files is Some,
            r is Some ==> r->0 == self.files->0@.len(),
    {
        match &self.files {
            Some(f) => Some(f.len()),
            None => None,
        }
    }

    /// Builds the magnet reference for this torrent: the fixed
    /// `xt=urn:btih:` parameter with the canonical hash, then `&dn=` when a
    /// name is known, then one `&tr=` per tracker, in the given order.
    pub fn magnet(&self, trackers: Option<&Vec<String>>) -> (r: String)
        ensures
            r@ == magnet_text(
                self.info_hash@,
                if self.name is Some {
                    Some(percent_encoded(self.name->0@))
                } else {
                    None
                },
                if trackers is Some {
                    Seq::new(trackers->0@.len(), |i: int| percent_encoded(trackers->0@[i]@))
                } else {
                    Seq::empty()
                },
            ),
            self.name is Some ==> all_kept_chars(percent_encoded(self.name->0@)),
            trackers is Some ==> forall|i: int|
                0 <= i < trackers->0@.len() ==> all_kept_chars(
                    #[trigger] percent_encoded(trackers->0@[i]@),
                ),
    {
        let mut b = String::new();
        b.append("magnet:?xt=urn:btih:");
        b.append(self.info_hash.as_str());
        match &self.name {
            Some(n) => {
                let e = encode_component(n.as_str());
                b.append("&dn=");
                b.append(e.as_str());
            },
            None => {},
        }
        let ghost dn = if self.name is Some {
            Some(percent_encoded(self.name->0@))
        } else {
            None::<Seq<char>>
        };
        let ghost head = "magnet:?xt=urn:btih:"@ + self.info_hash@ + (if dn is Some {
            "&dn="@ + dn->0
        } else {
            Seq::empty()
        });
        proof {
            assert(b@ =~= head);
        }
        match trackers {
            Some(ts) => {
                let ghost enc = Seq::new(ts@.len(), |i: int| percent_encoded(ts@[i]@));
                let mut i: usize = 0;
                while i < ts.len()
                    invariant
                        0 <= i <= ts@.len(),
                        enc == Seq::new(ts@.len(), |k: int| percent_encoded(ts@[k]@)),
                        b@ == head + tracker_params(enc.subrange(0, i as int)),
                        forall|k: int| 0 <= k < i ==> all_kept_chars(#[trigger] enc[k]),
                    decreases ts@.len() - i,
                {
                    let e = encode_component(ts[i].as_str());
                    b.append("&tr=");
                    b.append(e.as_str());
                    proof {
                        let pre = enc.subrange(0, i + 1);
                        assert(pre.drop_last() =~= enc.subrange(0, i as int));
                        assert(pre.last() == percent_encoded(ts@[i as int]@));
                        assert(b@ =~= head + tracker_params(pre));
                        assert(all_kept_chars(enc[i as int]));
                    }
                    i += 1;
                }
                proof {
                    assert(enc.subrange(0, enc.len() as int) =~= enc);
                    assert(b@ =~= magnet_text(self.info_hash@, dn, enc));
                    assert forall|k: int| 0 <= k < ts@.len() implies all_kept_chars(
                        #[trigger] percent_encoded(ts@[k]@),
                    ) by {
                        assert(enc[k] == percent_encoded(ts@[k]@));
                        assert(all_kept_chars(enc[k]));
                    }
                }
            },
            None => {
                proof {
                    assert(b@ =~= magnet_text(self.info_hash@, dn, Seq::empty()));
                }
            },
        }
        b
    }
}

/// Builds the magnet reference for a bare feed hash, before any metadata
/// is known: no display name, one `&tr=` per tracker in the given order.
/// This is what a crawl submission hands to the engine.
pub fn magnet_reference(hash: &InfoHash, trackers: Option<&Vec<String>>) -> (r: String)
    ensures
        r@ == magnet_text(
            crate::text::hex_of(hash@),
            None,
            if trackers is Some {
                Seq::new(trackers->0@.len(), |i: int| percent_encoded(trackers->0@[i]@))
            } else {
                Seq::empty()
            },
        ),
        trackers is Some ==> forall|i: int|
            0 <= i < trackers->0@.len() ==> all_kept_chars(
                #[trigger] percent_encoded(trackers->0@[i]@),
            ),
{
    let mut b = String::new();
    b.append("magnet:?xt=urn:btih:");
    let hex = hash.as_string();
    b.append(hex.as_str());
    let ghost head = "magnet:?xt=urn:btih:"@ + crate::text::hex_of(hash@);
    proof {
        assert(b@ =~= head);
    }
    match trackers {
        Some(ts) => {
            let ghost enc = Seq::new(ts@.len(), |i: int| percent_encoded(ts@[i]@));
            let mut i: usize = 0;
            while i < ts.len()
                invariant
                    0 <= i <= ts@.len(),
                    enc == Seq::new(ts@.len(), |k: int| percent_encoded(ts@[k]@)),
                    b@ == head + tracker_params(enc.subrange(0, i as int)),
                    forall|k: int| 0 <= k < i ==> all_kept_chars(#[trigger] enc[k]),
                decreases ts@.len() - i,
            {
                let e = encode_component(ts[i].as_str());
                b.append("&tr=");
                b.append(e.as_str());
                proof {
                    let pre = enc.subrange(0, i + 1);
                    assert(pre.drop_last() =~= enc.subrange(0, i as int));
                    assert(pre.last() == percent_encoded(ts@[i as int]@));
                    assert(b@ =~= head + tracker_params(pre));
                    assert(all_kept_chars(enc[i as int]));
                }
                i += 1;
            }
            proof {
                assert(enc.subrange(0, enc.len() as int) =~= enc);
                assert(b@ =~= magnet_text(crate::text::hex_of(hash@), None, enc));
                assert forall|k: int| 0 <= k < ts@.len() implies all_kept_chars(
                    #[trigger] percent_encoded(ts@[k]@),
                ) by {
                    assert(enc[k] == percent_encoded(ts@[k]@));
                    assert(all_kept_chars(enc[k]));
                }
            }
        },
        None => {
            proof {
                assert(b@ =~= magnet_text(
                    crate::text::hex_of(hash@),
                    None,
                    Seq::<Seq<char>>::empty(),
                ));
            }
        },
    }
    b
}

/// The mathematical total of the declared file lengths.
pub open spec fn lengths_sum(files: Seq<File>) -> int
    decreases files.len(),
{
    if files.len() == 0 {
        0
    } else {
        lengths_sum(files.drop_last()) + files.last().length
    }
}

/// Sums the declared file lengths, saturating at the largest `u64` value:
/// an adversarial metadata file cannot overflow the total.
pub fn sum_lengths(files: &Vec<File>) -> (r: u64)
    ensures
        r == if lengths_sum(files@) <= u64::MAX {
            lengths_sum(files@)
        } else {
            u64::MAX as int
        },
{
    let mut total: u64 = 0;
    let mut i: usize = 0;
    while i < files.len()
        invariant
            0 <= i <= files@.len(),
            total == if lengths_sum(files@.subrange(0, i as int)) <= u64::MAX {
                lengths_sum(files@.subrange(0, i as int))
            } else {
                u64::MAX as int
            },
        decreases files@.len() - i,
    {
        proof {
            let pre = files@.subrange(0, i + 1);
            assert(pre.drop_last() =~= files@.subrange(0, i as int));
            assert(pre.last() == files@[i as int]);
            lemma_lengths_sum_nonneg(files@.subrange(0, i as int));
        }
        total = total.saturating_add(files[i].length);
        i += 1;
    }
    proof {
        assert(files@.subrange(0, files@.len() as int) =~= files@);
    }
    total
}

/// A sum of lengths is never negative.
proof fn lemma_lengths_sum_nonneg(files: Seq<File>)
    ensures
        lengths_sum(files) >= 0,
    decreases files.len(),
{
    if files.len() > 0 {
        lemma_lengths_sum_nonneg(files.drop_last());
    }
}

/// A character the percent encoder can emit is never `&` and never `:`,
/// which is what the occurrence counting rests on.
proof fn lemma_kept_char_facts(c: char)
    requires
        encoding_kept_char(c),
    ensures
        c != '&',
        c != ':',
{
    assert('&' as u32 == 38 && ':' as u32 == 58);
}

/// Scans the magnet text for `xt=urn:btih:`: it occurs exactly once, at
/// the fixed position after `magnet:?`, provided the hash is hexadecimal
/// and the rest of the reference holds no `:`.
proof fn lemma_xt_scan(hash: Seq<char>, tail: Seq<char>, i: int)
    requires
        crate::api::info_hash::is_hash_text(hash),
        forall|j: int| 0 <= j < tail.len() ==> #[trigger] tail[j] != ':',
        0 <= i <= 60 + tail.len(),
    ensures
        count_matches(("magnet:?xt=urn:btih:"@ + hash + tail).skip(i), "xt=urn:btih:"@) == if i
            <= 8 {
            1int
        } else {
            0int
        },
    decreases 60 + tail.len() - i,
{
    reveal_strlit("magnet:?xt=urn:btih:");
    reveal_strlit("xt=urn:btih:");
    let p = "magnet:?xt=urn:btih:"@;
    let q = "xt=urn:btih:"@;
    let m = p + hash + tail;
    let s = m.skip(i);
    assert(m.len() == 60 + tail.len());
    assert(s.len() == m.len() - i);
    if s.len() < 12 {
        assert(i > 8);
        assert(count_matches(s, q) == 0);
    } else {
        assert(s.drop_first() =~= m.skip(i + 1));
        lemma_xt_scan(hash, tail, i + 1);
        if i == 8 {
            assert forall|d: int| 0 <= d < 12 implies s.take(12)[d] == q[d] by {
                assert(s.take(12)[d] == m[8 + d]);
                assert(m[8 + d] == p[8 + d]);
            }
            assert(s.take(12) =~= q);
            assert(count_matches(s, q) == 1);
        } else {
            if i < 20 {
                assert(s[0] == p[i]);
                assert(p[i] != 'x');
            } else if i < 60 {
                assert(s[0] == hash[i - 20]);
                assert(crate::text::is_hex_char(hash[i - 20]));
                assert('x' as u32 == 120);
                assert(s[0] != 'x');
            } else {
                assert(s[11] == tail[i + 11 - 60]);
                assert(s[11] != ':');
                assert(q[11] == ':');
                assert(s.take(12)[11] != q[11]);
            }
            assert(s.take(12)[0] == s[0]);
            assert(q[0] == 'x');
            assert(s.take(12) != q);
            assert(count_matches(s, q) == count_matches(m.skip(i + 1), q));
        }
    }
}

/// Scans the magnet text for `&tr=`: with two trackers whose encoded
/// texts hold no `&`, it occurs exactly at the two parameter starts.
proof fn lemma_tr_scan(hash: Seq<char>, e1: Seq<char>, e2: Seq<char>, i: int)
    requires
        crate::api::info_hash::is_hash_text(hash),
        forall|j: int| 0 <= j < e1.len() ==> #[trigger] e1[j] != '&',
        forall|j: int| 0 <= j < e2.len() ==> #[trigger] e2[j] != '&',
        0 <= i <= 68 + e1.len() + e2.len(),
    ensures
        count_matches(
            ("magnet:?xt=urn:btih:"@ + hash + ("&tr="@ + e1) + ("&tr="@ + e2)).skip(i),
            "&tr="@,
        ) == if i <= 60 {
            2int
        } else if i <= 64 + e1.len() {
            1int
        } else {
            0int
        },
    decreases 68 + e1.len() + e2.len() - i,
{
    reveal_strlit("magnet:?xt=urn:btih:");
    reveal_strlit("&tr=");
    let p = "magnet:?xt=urn:btih:"@;
    let a = "&tr="@;
    let m = p + hash + (a + e1) + (a + e2);
    let s = m.skip(i);
    let t2 = 64 + e1.len() as int;
    assert(m.len() == 68 + e1.len() + e2.len());
    if s.len() < 4 {
        assert(i > t2);
        assert(count_matches(s, a) == 0);
    } else {
        assert(s.drop_first() =~= m.skip(i + 1));
        lemma_tr_scan(hash, e1, e2, i + 1);
        if i == 60 || i == t2 {
            assert forall|d: int| 0 <= d < 4 implies s.take(4)[d] == a[d] by {
                assert(s.take(4)[d] == m[i + d]);
            }
            assert(s.take(4) =~= a);
            assert(count_matches(s, a) == 1 + count_matches(m.skip(i + 1), a));
        } else {
            if i < 20 {
                assert(s[0] == p[i]);
                assert(p[i] != '&');
            } else if i < 60 {
                assert(s[0] == hash[i - 20]);
                assert(crate::text::is_hex_char(hash[i - 20]));
                assert('&' as u32 == 38);
                assert(s[0] != '&');
            } else if i < t2 {
                assert(s[0] == (a + e1)[i - 60]);
                if i - 60 < 4 {
                    assert(s[0] == a[i - 60]);
                    assert(a[i - 60] != '&');
                } else {
                    assert(s[0] == e1[i - 64]);
                }
            } else {
                assert(s[0] == (a + e2)[i - t2]);
                if i - t2 < 4 {
                    assert(s[0] == a[i - t2]);
                    assert(a[i - t2] != '&');
                } else {
                    assert(s[0] == e2[i - t2 - 4]);
                }
            }
            assert(s.take(4)[0] == s[0]);
            assert(a[0] == '&');
            assert(s.take(4) != a);
            assert(count_matches(s, a) == count_matches(m.skip(i + 1), a));
        }
    }
}

/// A magnet reference built from a hash and two trackers names the hash
/// exactly once and each tracker exactly once: the text holds one
/// `xt=urn:btih:` occurrence and one `&tr=` occurrence per tracker. The
/// hypotheses on `e1` and `e2` are what `magnet` guarantees of every
/// percent-encoded tracker text.
pub proof fn lemma_magnet_reference_counts(hash: Seq<char>, e1: Seq<char>, e2: Seq<char>)
    requires
        crate::api::info_hash::is_hash_text(hash),
        all_kept_chars(e1),
        all_kept_chars(e2),
    ensures
        count_matches(magnet_text(hash, None, seq![e1, e2]), "xt=urn:btih:"@) == 1,
        count_matches(magnet_text(hash, None, seq![e1, e2]), "&tr="@) == 2,
{
    let trs = seq![e1, e2];
    let m = magnet_text(hash, None, trs);
    assert(trs.drop_last() =~~= seq![e1]);
    assert(seq![e1].drop_last() =~~= Seq::<Seq<char>>::empty());
    assert(tracker_params(Seq::<Seq<char>>::empty()) =~= Seq::<char>::empty());
    assert(tracker_params(seq![e1]) =~= "&tr="@ + e1);
    assert(tracker_params(trs) =~= "&tr="@ + e1 + ("&tr="@ + e2));
    let full = "magnet:?xt=urn:btih:"@ + hash + ("&tr="@ + e1) + ("&tr="@ + e2);
    assert(m =~= full);
    assert forall|j: int| 0 <= j < e1.len() implies #[trigger] e1[j] != '&' && e1[j] != ':' by {
        lemma_kept_char_facts(e1[j]);
    }
    assert forall|j: int| 0 <= j < e2.len() implies #[trigger] e2[j] != '&' && e2[j] != ':' by {
        lemma_kept_char_facts(e2[j]);
    }
    let tail = "&tr="@ + e1 + ("&tr="@ + e2);
    assert forall|j: int| 0 <= j < tail.len() implies #[trigger] tail[j] != ':' by {
        reveal_strlit("&tr=");
        let a = "&tr="@;
        if j < 4 {
            assert(tail[j] == a[j]);
        } else if j < 4 + e1.len() {
            assert(tail[j] == e1[j - 4]);
        } else if j < 8 + e1.len() {
            assert(tail[j] == a[j - 4 - e1.len()]);
        } else {
            assert(tail[j] == e2[j - 8 - e1.len()]);
        }
    }
    assert("magnet:?xt=urn:btih:"@ + hash + tail =~= full);
    lemma_xt_scan(hash, tail, 0);
    assert(("magnet:?xt=urn:btih:"@ + hash + tail).skip(0) =~= full);
    lemma_tr_scan(hash, e1, e2, 0);
    assert(full.skip(0) =~= full);
}

} // verus!
