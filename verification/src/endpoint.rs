//! A configured network endpoint, reduced to what the routing and
//! aggregation rules read: its address family and its textual address.
//! Parsing configured strings into real socket addresses happens at the
//! edge; the library only matches families and carries the text through.

use vstd::prelude::*;

verus! {

/// One local or remote socket endpoint.
pub struct Endpoint {
    /// Whether the address belongs to the IPv6 family; otherwise IPv4.
    pub v6: bool,
    /// The textual socket address, as configured.
    pub addr: String,
}

impl Endpoint {
    /// An identical copy.
    pub fn duplicate(&self) -> (r: Endpoint)
        ensures
            r == *self,
    {
        Endpoint { v6: self.v6, addr: self.addr.clone() }
    }
}

} // verus!
