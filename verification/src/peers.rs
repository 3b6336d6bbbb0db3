//! The configured seed peers handed to the engine as initial contacts.
//! Parsing the configured strings into socket addresses happens at the
//! edge; the set itself only answers whether there is anything to hand on.

use vstd::prelude::*;

use crate::endpoint::Endpoint;

verus! {

/// The configured seed peers, in configuration order.
pub struct Peers(Vec<Endpoint>);

impl Peers {
    /// The stored peers, as contracts see them.
    pub closed spec fn spec_list(&self) -> Seq<Endpoint> {
        self.0@
    }

    /// Stores the already-parsed peer endpoints as given.
    pub fn init(peers: Vec<Endpoint>) -> (r: Peers)
        ensures
            r.spec_list() == peers@,
    {
        Peers(peers)
    }

    /// The initial contacts for an engine submission: every configured
    /// peer, or nothing when none is configured.
    pub fn initial_peers(&self) -> (r: Option<Vec<Endpoint>>)
        ensures
            r is Some <==> self.spec_list().len() > 0,
            r is Some ==> r->0@ == self.spec_list(),
    {
        if self.0.is_empty() {
            return None;
        }
        let mut copy: Vec<Endpoint> = Vec::new();
        let mut i: usize = 0;
        while i < self.0.len()
            invariant
                0 <= i <= self.0@.len(),
                copy@ =~= self.0@.subrange(0, i as int),
            decreases self.0@.len() - i,
        {
            copy.push(self.0[i].duplicate());
            i += 1;
        }
        proof {
            assert(self.0@.subrange(0, self.0@.len() as int) =~= self.0@);
        }
        Some(copy)
    }
}

} // verus!
