//! Sandboxed scratch storage for preloaded torrent files. One directory per
//! in-flight torrent, named by its canonical 40-hex identifier, directly
//! under one canonicalized root. Untrusted, torrent-supplied relative paths
//! are only handed out again after the resolved location has been checked
//! to stay under the root: a traversal or absolute-path escape is a hard
//! error, never clamped.
//!
//! Reading, creating and removing the directories is input/output handled
//! at the edge; this module owns the validation and the path arithmetic.

use vstd::prelude::*;

use crate::api::info_hash::is_hash_text;
use crate::paths;
use crate::text;

verus! {

/// Why a sandbox operation was refused.
#[derive(Clone, Copy, Debug, PartialEq, Eq, Structural)]
pub enum PreloadError {
    /// The identifier is not 40 hexadecimal characters.
    InvalidInfoHash,
    /// The configured root does not name a directory.
    NotDirectory,
    /// The path could not be resolved against the filesystem.
    Unresolvable,
    /// The resolved path escapes the sandbox root.
    OutsideRoot,
}

/// Scratch storage under one canonicalized root, with advisory per-torrent
/// quotas on the number and cumulative size of extracted files.
pub struct Preload {
    root: String,
    pub max_filecount: Option<usize>,
    pub max_filesize: Option<u64>,
}

impl Preload {
    /// The canonical root, as contracts see it.
    pub closed spec fn spec_root(&self) -> Seq<char> {
        self.root@
    }

    /// The file-count quota, as contracts see it.
    pub closed spec fn spec_max_filecount(&self) -> Option<usize> {
        self.max_filecount
    }

    /// The file-size quota, as contracts see it.
    pub closed spec fn spec_max_filesize(&self) -> Option<u64> {
        self.max_filesize
    }

    /// Accepts the scratch root if the filesystem currently shows it as a
    /// directory and it canonicalizes; the quotas are stored as given.
    pub fn init(directory: &str, max_filecount: Option<usize>, max_filesize: Option<u64>) -> (r:
        Result<Preload, PreloadError>)
        ensures
            r is Ok ==> r->Ok_0.spec_max_filecount() == max_filecount,
            r is Ok ==> r->Ok_0.spec_max_filesize() == max_filesize,
            r is Err ==> r->Err_0 == PreloadError::NotDirectory || r->Err_0
                == PreloadError::Unresolvable,
    {
        if !paths::dir_exists(directory) {
            return Err(PreloadError::NotDirectory);
        }
        match paths::canonical(directory) {
            Some(root) => Ok(Preload { root, max_filecount, max_filesize }),
            None => Err(PreloadError::Unresolvable),
        }
    }

    /// The canonicalized sandbox root.
    pub fn root(&self) -> (r: &String)
        ensures
            r@ == self.spec_root(),
    {
        &self.root
    }

    /// The scratch directory for one torrent: `<root>/<40-hex hash>`.
    /// Any identifier that is not exactly 40 hexadecimal characters is
    /// rejected before the filesystem is touched.
    pub fn scratch_path(&self, info_hash: &str) -> (r: Result<String, PreloadError>)
        ensures
            r is Ok <==> is_hash_text(info_hash@),
            r is Ok ==> r->Ok_0@ == self.spec_root() + seq!['/'] + info_hash@,
            r is Err ==> r->Err_0 == PreloadError::InvalidInfoHash,
    {
        if !is_info_hash(info_hash) {
            return Err(PreloadError::InvalidInfoHash);
        }
        Ok(paths::join(&self.root, info_hash))
    }

    /// Resolves an untrusted relative path against the root and returns the
    /// canonical location, provided it is still at or below the root. Every
    /// `Ok` result is safe to read: it starts with the canonical root,
    /// component by component.
    pub fn resolve(&self, relative: &str) -> (r: Result<String, PreloadError>)
        ensures
            r is Ok ==> paths::starts_with_component(self.spec_root(), r->Ok_0@),
            r is Err ==> r->Err_0 == PreloadError::Unresolvable || r->Err_0
                == PreloadError::OutsideRoot,
    {
        let joined = paths::join(&self.root, relative);
        match paths::canonical(joined.as_str()) {
            Some(c) => {
                if paths::within(self.root.as_str(), c.as_str()) {
                    Ok(c)
                } else {
                    Err(PreloadError::OutsideRoot)
                }
            },
            None => Err(PreloadError::Unresolvable),
        }
    }
}

/// Whether `value` may be used as a scratch subdirectory name: exactly 40
/// hexadecimal characters. Defends against directory-name injection from
/// malformed or adversarial hash strings.
pub fn is_info_hash(value: &str) -> (r: bool)
    ensures
        r == is_hash_text(value@),
{
    let n = value.unicode_len();
    if n != 40 {
        return false;
    }
    let mut i: usize = 0;
    while i < n
        invariant
            0 <= i <= n,
            n == value@.len(),
            forall|j: int| 0 <= j < i ==> text::is_hex_char(#[trigger] value@[j]),
        decreases n - i,
    {
        if !text::hex_char(value.get_char(i)) {
            return false;
        }
        i += 1;
    }
    true
}

} // verus!
