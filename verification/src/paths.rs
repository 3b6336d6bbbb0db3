//! Path text helpers for the sandboxed directories: joining with `/`,
//! the component-wise prefix test that guards against escapes, and the
//! trusted filesystem probes they are checked against.

use vstd::prelude::*;

verus! {

/// `path` names a location at or below `prefix`, comparing whole path
/// components: either the two are equal, or `path` continues after
/// `prefix` with a `/` separator. Both are expected in canonical form,
/// absolute and without a trailing separator.
pub open spec fn starts_with_component(prefix: Seq<char>, path: Seq<char>) -> bool {
    path == prefix || (path.len() > prefix.len() && path.subrange(0, prefix.len() as int)
        == prefix && path[prefix.len() as int] == '/')
}

/// Joins `base` and `rel` with a single `/` separator.
pub fn join(base: &str, rel: &str) -> (r: String)
    ensures
        r@ == base@ + seq!['/'] + rel@,
{
    proof {
        reveal_strlit("/");
    }
    let mut s = String::new();
    s.append(base);
    s.append("/");
    s.append(rel);
    proof {
        assert(s@ =~= base@ + seq!['/'] + rel@);
    }
    s
}

/// Decides `starts_with_component(prefix@, path@)` at run time.
pub fn within(prefix: &str, path: &str) -> (r: bool)
    ensures
        r == starts_with_component(prefix@, path@),
{
    let n = prefix.unicode_len();
    let m = path.unicode_len();
    if m < n {
        return false;
    }
    let mut i: usize = 0;
    while i < n
        invariant
            0 <= i <= n,
            n == prefix@.len(),
            m == path@.len(),
            n <= m,
            forall|j: int| 0 <= j < i ==> path@[j] == prefix@[j],
        decreases n - i,
    {
        if path.get_char(i) != prefix.get_char(i) {
            assert(!(path@ =~= prefix@));
            assert(!(path@.subrange(0, n as int) =~= prefix@)) by {
                assert(path@.subrange(0, n as int)[i as int] != prefix@[i as int]);
            }
            return false;
        }
        i += 1;
    }
    if m == n {
        assert(path@ =~= prefix@);
        true
    } else {
        assert(path@.subrange(0, n as int) =~= prefix@);
        assert(path@ != prefix@) by {
            assert(path@.len() != prefix@.len());
        }
        path.get_char(n) == '/'
    }
}

/// Relies on `std::path::Path::canonicalize`: resolves `.`/`..` entries and
/// symbolic links against the real filesystem. The result depends on what is
/// on disk, so nothing is promised of it; callers must check it themselves.
/// `None` when resolution fails (for instance, the path does not exist) or
/// the resolved path is not valid text.
#[verifier::external_body]
pub fn canonical(path: &str) -> (r: Option<String>)
{
    let c = std::path::Path::new(path).canonicalize().ok()?;
    Some(c.to_str()?.to_string())
}

/// Relies on `std::path::Path::is_dir`: whether the path currently names a
/// directory. The result depends on what is on disk, so nothing is promised.
#[verifier::external_body]
pub fn dir_exists(path: &str) -> (r: bool)
{
    std::path::Path::new(path).is_dir()
}

/// Relies on `std::path::Path::exists`: whether the path currently names any
/// filesystem entry. The result depends on what is on disk, so nothing is
/// promised.
#[verifier::external_body]
pub fn entry_exists(path: &str) -> (r: bool)
{
    std::path::Path::new(path).exists()
}

} // verus!
