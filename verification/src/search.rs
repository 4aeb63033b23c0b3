//! The search request for a part, and what a search brings back.

use vstd::prelude::*;
use crate::category::ComponentType;

verus! {

/// The search endpoint, with the fixed offset that skips the engine's own
/// leading results.
pub const SEARCH_ENDPOINT: &'static str = "https://www.staticice.com.au/cgi-bin/search.cgi?spos=3";

/// The name of the parameter that carries the search text.
pub const QUERY_PARAMETER: &'static str = "q";

/// The page that a search for a part brought back.
#[derive(Debug, PartialEq, Eq)]
pub struct SearchResult<'a> {
    pub component: &'a ComponentType,
    pub page: String,
}

/// Why no request could be made.
#[derive(Clone, Copy, Debug, PartialEq, Eq, Structural)]
pub enum SearchError {
    /// No address could be built for the search.
    InvalidUrl,
}

/// `url::ParseError`, the error of a text that is no absolute URL; it is
/// passed on unopened.
#[verifier::external_type_specification]
#[verifier::external_body]
pub struct ExParseError(url::ParseError);

/// The absolute URL `base` with the pair `key`, `value` added to its query
/// string, as text; `None` where `base` is no absolute URL.
pub uninterp spec fn url_with_param(base: Seq<char>, key: Seq<char>, value: Seq<char>) -> Option<Seq<char>>;

/// `url::Url::parse_with_params` on `base` and the one pair `key`, `value`,
/// and the text of the URL that it gives. Claimed: the outcome is a
/// function of the three texts. The call panics where it has to note, in
/// 32 bits, a place behind four gigabytes of the URL's text: where the
/// query begins, if `base` has none, or where the fragment begins, if it
/// has one. So a `base` without query, or with a fragment, is left out.
#[verifier::external_body]
fn extend_url(base: &str, key: &str, value: &str) -> (r: Result<String, url::ParseError>)
    requires
        base@.contains('?'),
        !base@.contains('#'),
    ensures
        match r {
            Ok(address) => url_with_param(base@, key@, value@) == Some(address@),
            Err(_) => url_with_param(base@, key@, value@) is None,
        },
{
    url::Url::parse_with_params(base, [(key, value)]).map(String::from)
}

/// The request that the outcome of building an address allows.
pub fn request_for(built: Result<String, url::ParseError>) -> (r: Result<String, SearchError>)
    ensures
        match built {
            Ok(address) => r == Ok::<String, SearchError>(address),
            Err(_) => r == Err::<String, SearchError>(SearchError::InvalidUrl),
        },
{
    match built {
        Ok(address) => Ok(address),
        Err(_) => Err(SearchError::InvalidUrl),
    }
}

/// The address to fetch for a search for `query`: the endpoint with the
/// search text added as a parameter, encoded as URLs require.
pub fn search_url(query: &str) -> (r: Result<String, SearchError>)
    ensures
        match r {
            Ok(address) => url_with_param(SEARCH_ENDPOINT@, QUERY_PARAMETER@, query@) == Some(
                address@,
            ),
            Err(e) => e == SearchError::InvalidUrl && url_with_param(
                SEARCH_ENDPOINT@,
                QUERY_PARAMETER@,
                query@,
            ) is None,
        },
{
    proof {
        reveal_strlit("https://www.staticice.com.au/cgi-bin/search.cgi?spos=3");
        assert(SEARCH_ENDPOINT@[47] == '?');
    }
    request_for(extend_url(SEARCH_ENDPOINT, QUERY_PARAMETER, query))
}

} // verus!
