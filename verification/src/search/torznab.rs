//! Torznab indexers: where a search is sent and how a feed item becomes a
//! release candidate.
use vstd::prelude::*;

use crate::domain::search::ReleaseCandidate;
use crate::text::{chars_of, concat, copy_str, opt_view, trim_end_matches, trim_end_matches_str};

verus! {

/// One `<item>` of a Torznab feed.
#[derive(Clone, Debug, PartialEq, Eq)]
pub struct TorznabItem {
    pub guid: String,
    pub title: String,
    pub size: i64,
    pub link: Option<String>,
}

/// Where and with which key searches go to a Torznab indexer.
#[derive(Clone, Debug, PartialEq, Eq)]
pub struct TorznabClient {
    pub api_url: String,
    pub api_key: Option<String>,
}

impl TorznabClient {
    /// A client of the indexer's `/api` endpoint.
    pub fn new(base_url: &str, api_key: Option<String>) -> (r: Self)
        ensures
            r.api_url@ == torznab_api_url_spec(base_url@, None),
            r.api_key == api_key,
    {
        TorznabClient { api_url: torznab_api_url(base_url, None), api_key }
    }

    /// A client of the indexer's endpoint at `api_path` (`/api` when none).
    pub fn new_with_api_path(base_url: &str, api_key: Option<String>, api_path: Option<&str>) -> (r:
        Self)
        ensures
            r.api_url@ == torznab_api_url_spec(
                base_url@,
                match api_path {
                    Some(p) => Some(p@),
                    None => None,
                },
            ),
            r.api_key == api_key,
    {
        TorznabClient { api_url: torznab_api_url(base_url, api_path), api_key }
    }
}

/// The API endpoint: the base URL without trailing slashes, then the API path
/// (`/api` by default) with a leading slash.
pub open spec fn torznab_api_url_spec(base_url: Seq<char>, api_path: Option<Seq<char>>) -> Seq<char> {
    let path = match api_path {
        Some(p) => p,
        None => "/api"@,
    };
    trim_end_matches(base_url, '/') + if path.len() > 0 && path[0] == '/' {
        path
    } else {
        seq!['/'] + path
    }
}

pub fn torznab_api_url(base_url: &str, api_path: Option<&str>) -> (r: String)
    ensures
        r@ == torznab_api_url_spec(
            base_url@,
            match api_path {
                Some(p) => Some(p@),
                None => None,
            },
        ),
{
    proof {
        reveal_strlit("/api");
        reveal_strlit("/");
    }
    let base = trim_end_matches_str(base_url, '/');
    let path = match api_path {
        Some(p) => copy_str(p),
        None => copy_str("/api"),
    };
    let chars = chars_of(path.as_str());
    if chars.len() > 0 && chars[0] == '/' {
        concat(base.as_str(), path.as_str())
    } else {
        let slashed = concat("/", path.as_str());
        assert(slashed@ == seq!['/'] + path@);
        concat(base.as_str(), slashed.as_str())
    }
}

/// The query parameters of a search, with the API key when there is one.
pub fn torznab_query_params(query: &str, api_key: &Option<String>) -> (r: Vec<(String, String)>)
    ensures
        r@.len() == if api_key is Some {
            3int
        } else {
            2int
        },
        r@[0].0@ == "t"@ && r@[0].1@ == "search"@,
        r@[1].0@ == "q"@ && r@[1].1@ == query@,
        api_key matches Some(k) ==> r@[2].0@ == "apikey"@ && r@[2].1@ == k@,
{
    let mut out: Vec<(String, String)> = Vec::new();
    out.push((copy_str("t"), copy_str("search")));
    out.push((copy_str("q"), copy_str(query)));
    match api_key {
        Some(k) => {
            out.push((copy_str("apikey"), copy_str(k.as_str())));
        },
        None => {},
    }
    out
}

/// A feed item as a candidate of the `torznab` source; the title is taken as
/// it is.
pub fn candidate_from_torznab_item(item: TorznabItem) -> (r: ReleaseCandidate)
    ensures
        r.external_id == item.guid,
        r.source@ == "torznab"@,
        r.title == item.title,
        r.protocol@ == "torrent"@,
        r.size_bytes == item.size,
        r.indexer@ == "torznab"@,
        r.download_url == item.link,
        r.narrator is None,
        !r.graphic_audio,
        r.detected_language is None,
{
    ReleaseCandidate {
        external_id: item.guid,
        source: copy_str("torznab"),
        title: item.title,
        protocol: copy_str("torrent"),
        size_bytes: item.size,
        indexer: copy_str("torznab"),
        download_url: item.link,
        narrator: None,
        graphic_audio: false,
        detected_language: None,
    }
}

} // verus!
