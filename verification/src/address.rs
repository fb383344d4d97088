//! Request addresses: what the URL parser reports of a parsed URL.

use url::Url;
use vstd::prelude::*;

verus! {

/// The parsed URL of the `url` crate.
#[verifier::external_type_specification]
#[verifier::external_body]
pub struct ExUrl(url::Url);

/// The serialization of the URL, as `Url::as_str` returns it: the full text
/// that URL patterns are matched against.
pub uninterp spec fn url_text(url: Url) -> Seq<char>;

/// The domain name of the URL's host, as `Url::domain` returns it: `None`
/// where the URL has no host, or a host that is an address and not a name.
pub uninterp spec fn url_domain(url: Url) -> Option<Seq<char>>;

/// `Url::as_str` returns the serialization that the URL holds.
pub assume_specification<'a>[ Url::as_str ](url: &'a Url) -> (s: &'a str)
    ensures
        s@ == url_text(*url),
;

/// `Url::domain` returns the host of the URL where that host is a domain
/// name, and `None` otherwise.
pub assume_specification<'a>[ Url::domain ](url: &'a Url) -> (d: Option<&'a str>)
    ensures
        match d {
            Some(name) => url_domain(*url) == Some(name@),
            None => url_domain(*url) is None,
        },
;

} // verus!
