//! One file entry of a torrent's metadata, as the serving path shows it.

use vstd::prelude::*;

verus! {

/// A declared file: its decoded relative path, when the declared name could
/// be decoded at all, and its length in bytes.
pub struct File {
    pub path: Option<String>,
    pub length: u64,
}

impl File {
    /// The display path: the decoded path, or `?` when it is unknown.
    pub fn path(&self) -> (r: String)
        ensures
            r@ == if self.path is Some {
                self.path->0@
            } else {
                "?"@
            },
    {
        match &self.path {
            Some(p) => p.clone(),
            None => String::from_str("?"),
        }
    }
}

} // verus!
