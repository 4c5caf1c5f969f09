//! URL parsing and query building, done by the `url` crate.

use vstd::prelude::*;

verus! {

/// What `url::Url::parse` makes of `input`: `None` when it is not a URL,
/// else its scheme and, when it has one, its host (as `host_str` gives it).
pub uninterp spec fn url_scheme_host(input: Seq<char>) -> Option<(Seq<char>, Option<Seq<char>>)>;

/// The serialization of `input`, parsed by `url::Url::parse`, after the
/// query pairs `pairs` were appended in order, form-urlencoded; `None` when
/// `input` does not parse.
pub uninterp spec fn url_with_query(input: Seq<char>, pairs: Seq<(Seq<char>, Seq<char>)>) -> Option<
    Seq<char>,
>;

/// The scheme and host of a URL, through `url::Url::parse`, `scheme` and
/// `host_str`. Claimed: the result is `url_scheme_host` of the input.
#[verifier::external_body]
pub(crate) fn parse_scheme_host(input: &str) -> (r: Option<(String, Option<String>)>)
    ensures
        match r {
            Some((scheme, host)) => url_scheme_host(input@) == Some(
                (
                    scheme@,
                    match host {
                        Some(h) => Some(h@),
                        None => None,
                    },
                ),
            ),
            None => url_scheme_host(input@) is None,
        },
{
    match url::Url::parse(input) {
        Ok(u) => Some((u.scheme().to_string(), u.host_str().map(|h| h.to_string()))),
        Err(_) => None,
    }
}

/// A list of string pairs as pairs of character sequences.
pub open spec fn pairs_view(pairs: Seq<(String, String)>) -> Seq<(Seq<char>, Seq<char>)> {
    pairs.map_values(|p: (String, String)| (p.0@, p.1@))
}

/// A URL with query pairs appended, through `url::Url::parse`,
/// `query_pairs_mut().append_pair` for each pair in order, and `as_str`.
/// Claimed: the result is `url_with_query` of the arguments, and it exists
/// exactly when the input parses (both go through the same `Url::parse`).
#[verifier::external_body]
pub(crate) fn append_query_pairs(input: &str, pairs: &Vec<(String, String)>) -> (r: Option<String>)
    ensures
        match r {
            Some(u) => url_with_query(input@, pairs_view(pairs@)) == Some(u@),
            None => url_with_query(input@, pairs_view(pairs@)) is None,
        },
        r is Some <==> url_scheme_host(input@) is Some,
{
    match url::Url::parse(input) {
        Ok(mut u) => {
            for (k, v) in pairs.iter() {
                u.query_pairs_mut().append_pair(k, v);
            }
            Some(u.as_str().to_string())
        },
        Err(_) => None,
    }
}

} // verus!
