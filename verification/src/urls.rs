//! What the URL parser of `reqwest` (the `url` crate) makes of a text.
use vstd::prelude::*;

verus! {

/// `reqwest::Url::parse` accepts the text.
pub uninterp spec fn url_parses(s: Seq<char>) -> bool;

/// The path of the URL parsed from the text (`Url::path`).
pub uninterp spec fn parsed_url_path(s: Seq<char>) -> Seq<char>;

/// The scheme of the URL parsed from the text (`Url::scheme`).
pub uninterp spec fn parsed_url_scheme(s: Seq<char>) -> Seq<char>;

/// The host of the URL parsed from the text (`Url::host_str`).
pub uninterp spec fn parsed_url_host(s: Seq<char>) -> Option<Seq<char>>;

/// The explicit port of the URL parsed from the text (`Url::port`; none when
/// it is absent or the scheme's default).
pub uninterp spec fn parsed_url_port(s: Seq<char>) -> Option<u16>;

/// `reqwest::Url::parse(value).is_ok()`; whether it succeeds is named by
/// `url_parses`.
#[verifier::external_body]
pub(crate) fn url_is_valid(value: &str) -> (r: bool)
    ensures
        r == url_parses(value@),
{
    reqwest::Url::parse(value).is_ok()
}

/// `reqwest::Url::parse(value)` and then `Url::path`: the path when the text
/// parses, nothing otherwise.
#[verifier::external_body]
pub(crate) fn url_path(value: &str) -> (r: Option<String>)
    ensures
        r is Some <==> url_parses(value@),
        r matches Some(p) ==> p@ == parsed_url_path(value@),
{
    reqwest::Url::parse(value).ok().map(|url| url.path().to_string())
}

/// The parts of a parsed URL that make up its origin.
pub struct UrlOriginParts {
    pub scheme: String,
    pub host: Option<String>,
    pub port: Option<u16>,
}

/// `reqwest::Url::parse(value)` and then `Url::scheme`, `Url::host_str` and
/// `Url::port`: the parts when the text parses, nothing otherwise.
#[verifier::external_body]
pub(crate) fn url_origin_parts(value: &str) -> (r: Option<UrlOriginParts>)
    ensures
        r is Some <==> url_parses(value@),
        r matches Some(p) ==> p.scheme@ == parsed_url_scheme(value@) && match p.host {
            Some(h) => parsed_url_host(value@) == Some(h@),
            None => parsed_url_host(value@) is None,
        } && p.port == parsed_url_port(value@),
{
    reqwest::Url::parse(value).ok().map(
        |url| UrlOriginParts {
            scheme: url.scheme().to_string(),
            host: url.host_str().map(|h| h.to_string()),
            port: url.port(),
        },
    )
}

} // verus!
