//! Decoding of the tracker's binary export feed: a sequence of fixed
//! 20-byte version-1 info-hash records with no header and no checksum.
//! A trailing partial record is dropped silently.
//!
//! Opening and reading the feed file is input handled by the caller;
//! this module decides which sources are supported and decodes the bytes.

pub mod info_hash;

use vstd::prelude::*;

use info_hash::InfoHash;

verus! {

/// Whether the path ends in the fixed `.bin` feed extension.
pub open spec fn has_bin_extension(s: Seq<char>) -> bool {
    s.len() >= 4 && s[s.len() - 4] == '.' && s[s.len() - 3] == 'b' && s[s.len() - 2] == 'i'
        && s[s.len() - 1] == 'n'
}

/// Whether the path holds a `://` scheme separator, marking a remote source.
pub open spec fn has_scheme_separator(s: Seq<char>) -> bool {
    exists|i: int|
        0 <= i && i + 3 <= s.len() && #[trigger] s[i] == ':' && s[i + 1] == '/' && s[i + 2] == '/'
}

/// A source is supported when it is a local path in the `.bin` format:
/// remote (URL) sources and other extensions are rejected.
pub open spec fn is_supported_source(s: Seq<char>) -> bool {
    has_bin_extension(s) && !has_scheme_separator(s)
}

/// Decides whether `path` names a supported feed source.
pub fn supported(path: &str) -> (r: bool)
    ensures
        r == is_supported_source(path@),
{
    let n = path.unicode_len();
    if n < 4 {
        return false;
    }
    if !(path.get_char(n - 4) == '.' && path.get_char(n - 3) == 'b' && path.get_char(n - 2) == 'i'
        && path.get_char(n - 1) == 'n') {
        return false;
    }
    let mut i: usize = 0;
    while i < n && n - i >= 3
        invariant
            0 <= i <= n,
            n == path@.len(),
            forall|j: int|
                0 <= j < i ==> !(#[trigger] path@[j] == ':' && path@[j + 1] == '/' && path@[j
                    + 2] == '/'),
        decreases n - i,
    {
        if path.get_char(i) == ':' && path.get_char(i + 1) == '/' && path.get_char(i + 2) == '/' {
            return false;
        }
        i += 1;
    }
    true
}

/// A feed of exactly `20*n` bytes decodes to exactly `n` hashes, and so
/// does one of `20*n + k` bytes for any short tail `0 < k < 20`: `decode`
/// promises `bytes.len() / 20` hashes, and that quotient is `n` either way.
pub proof fn lemma_feed_record_count(n: int, k: int)
    requires
        n >= 0,
        0 <= k < 20,
    ensures
        (20 * n + k) / 20 == n,
{
    assert((20 * n + k) / 20 == n) by (nonlinear_arith)
        requires
            n >= 0,
            0 <= k < 20,
    ;
}

/// Decodes a feed image into its info-hashes: one per full 20-byte record,
/// in file order; any trailing short record is ignored. Every 20-byte value
/// is accepted as a hash. An empty image decodes to an empty sequence.
pub fn decode(bytes: &[u8]) -> (r: Vec<InfoHash>)
    ensures
        r@.len() == bytes@.len() / 20,
        forall|k: int|
            0 <= k < r@.len() ==> (#[trigger] r@[k])@ == bytes@.subrange(20 * k, 20 * k + 20),
{
    let len = bytes.len();
    let n = len / 20;
    proof {
        assert(20 * (len as int / 20) <= len as int) by (nonlinear_arith);
    }
    let mut r: Vec<InfoHash> = Vec::with_capacity(n);
    let mut k: usize = 0;
    while k < n
        invariant
            0 <= k <= n,
            len == bytes@.len(),
            n == bytes@.len() / 20,
            20 * n <= len,
            r@.len() == k,
            forall|t: int|
                0 <= t < k ==> (#[trigger] r@[t])@ == bytes@.subrange(20 * t, 20 * t + 20),
        decreases n - k,
    {
        let mut b = [0u8; 20];
        let mut j: usize = 0;
        while j < 20
            invariant
                0 <= j <= 20,
                k < n,
                len == bytes@.len(),
                20 * n <= len,
                b@.len() == 20,
                forall|t: int| 0 <= t < j ==> b@[t] == bytes@[20 * k + t],
            decreases 20 - j,
        {
            b[j] = bytes[20 * k + j];
            j += 1;
        }
        assert(b@ =~= bytes@.subrange(20 * (k as int), 20 * (k as int) + 20));
        r.push(InfoHash::V1(b));
        k += 1;
    }
    r
}

} // verus!
