//! The link prefix for RSS channel items: the canonical URL reduced to its
//! root-path form and escaped once, so every item link is `<base><hash>`.

use vstd::prelude::*;

use crate::feed::escape_seq;
use crate::feed::escape;

verus! {

/// What the root-path form of a URL is: `url::Url::parse` followed by
/// clearing path, query and fragment depends on the input characters alone;
/// `None` when the text is not a valid absolute URL.
pub uninterp spec fn url_base_of(s: Seq<char>) -> Option<Seq<char>>;

/// Relies on `url::Url::parse`, `Url::set_path`, `Url::set_query`,
/// `Url::set_fragment` and `Url::as_str`: renders the URL with path `/`
/// and no query or fragment, a pure function of the input text.
#[verifier::external_body]
fn url_base(s: &str) -> (r: Option<String>)
    ensures
        r is Some <==> url_base_of(s@) is Some,
        r is Some ==> r->0@ == url_base_of(s@)->0,
{
    let mut u = url::Url::parse(s).ok()?;
    u.set_path("/");
    u.set_query(None);
    u.set_fragment(None);
    Some(u.as_str().to_owned())
}

/// The escaped link base a configured canonical URL yields: empty when no
/// canonical URL is configured or it does not parse.
pub open spec fn link_base_text(canonical: Option<Seq<char>>) -> Seq<char> {
    match canonical {
        Some(c) => match url_base_of(c) {
            Some(b) => escape_seq(b),
            None => Seq::empty(),
        },
        None => Seq::empty(),
    }
}

/// The valid link prefix for RSS channel items.
pub struct Link(String);

impl Link {
    /// The stored prefix, as contracts see it.
    pub closed spec fn spec_text(&self) -> Seq<char> {
        self.0@
    }

    /// Reduces the canonical URL to its root-path form and escapes it once;
    /// without a canonical URL the prefix is empty.
    pub fn from_url(canonical: Option<&str>) -> (r: Link)
        ensures
            r.spec_text() == link_base_text(
                match canonical {
                    Some(c) => Some(c@),
                    None => None,
                },
            ),
    {
        match canonical {
            Some(c) => match url_base(c) {
                Some(b) => Link(escape(b.as_str())),
                None => Link(String::new()),
            },
            None => Link(String::new()),
        }
    }

    /// The link for one item: the prefix followed by the hash text.
    pub fn link(&self, info_hash: &str) -> (r: String)
        ensures
            r@ == self.spec_text() + info_hash@,
    {
        let mut s = self.0.clone();
        s.append(info_hash);
        s
    }
}

} // verus!
