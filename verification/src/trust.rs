//! Classification of trust-resource arguments: a URL to fetch or a local
//! file path.

use vstd::prelude::*;

verus! {

#[verifier::external_type_specification]
#[verifier::external_body]
pub struct ExUrl(url::Url);

/// Whether the url crate accepts this text as an absolute URL; a pure
/// function of the text.
pub uninterp spec fn url_accepts(s: Seq<char>) -> bool;

/// Relies on url::Url::parse: success depends on the text alone.
#[verifier::external_body]
fn try_parse_url(s: &str) -> (r: Option<url::Url>)
    ensures
        r is Some <==> url_accepts(s@),
{
    url::Url::parse(s).ok()
}

/// Where a trust resource comes from.
#[derive(Debug)]
pub enum TrustResource {
    /// Fetched from a URL.
    Remote(url::Url),
    /// Read from a local file, the path kept verbatim.
    Local(String),
}

/// Classifies a trust-resource argument: a parseable absolute URL is
/// fetched remotely, anything else names a local file. Total: every string
/// is accepted.
pub fn parse_resource_string(s: &str) -> (r: TrustResource)
    ensures
        url_accepts(s@) ==> r is Remote,
        !url_accepts(s@) ==> (r matches TrustResource::Local(p) && p@ == s@),
{
    match try_parse_url(s) {
        Some(u) => TrustResource::Remote(u),
        None => TrustResource::Local(s.to_owned()),
    }
}

} // verus!
