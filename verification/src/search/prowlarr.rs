//! Prowlarr's search API: where it is asked and how its answer becomes
//! release candidates.
use vstd::prelude::*;

use crate::domain::search::{parsed_candidate, CandidateView, ReleaseCandidate};
use crate::json::{json_array, json_get, JsonValue};
use crate::numbers::{decimal, i64_to_string, parse_i64, parse_i64_spec};
use crate::text::{
    chars_of, collapse_whitespace, concat, copy_str, in_class_exec, is_blank, join, opt_view,
    string_from, trim, trim_end_matches, trim_end_matches_str, trim_start_by, trim_start_index,
    trim_str, utf8_len, utf8_size, char_utf8_len, words, TrimClass, chars_in_bytes,
    lemma_utf8_size_take_step, lemma_utf8_size_bounds, lemma_utf8_size_split,
};

verus! {

/// Longest body excerpt quoted in an error, in bytes.
pub const SNIPPET_MAX_BYTES: usize = 240;

// ---------------------------------------------------------------------------
// The request
// ---------------------------------------------------------------------------

/// Where and with which key searches go to Prowlarr.
#[derive(Clone, Debug, PartialEq, Eq)]
pub struct ProwlarrClient {
    pub base_url: String,
    pub api_key: String,
}

impl ProwlarrClient {
    /// The base URL is kept without trailing slashes.
    pub fn new(base_url: &str, api_key: &str) -> (r: Self)
        ensures
            r.base_url@ == trim_end_matches(base_url@, '/'),
            r.api_key@ == api_key@,
    {
        ProwlarrClient { base_url: prowlarr_base_url(base_url), api_key: copy_str(api_key) }
    }

    /// The search endpoint.
    pub fn search_url(&self) -> (r: String)
        ensures
            r@ == self.base_url@ + "/api/v1/search"@,
    {
        search_url(self.base_url.as_str())
    }
}

/// The base URL without trailing slashes, as the client keeps it.
pub fn prowlarr_base_url(base_url: &str) -> (r: String)
    ensures
        r@ == trim_end_matches(base_url@, '/'),
{
    trim_end_matches_str(base_url, '/')
}

/// The search endpoint under a base URL kept by `prowlarr_base_url`.
pub fn search_url(base_url: &str) -> (r: String)
    ensures
        r@ == base_url@ + "/api/v1/search"@,
{
    concat(base_url, "/api/v1/search")
}

/// The query parameters of a search: the query, the media type, and one
/// `indexerIds` pair per selected indexer.
pub open spec fn search_params(query: Seq<char>, media_type: Seq<char>, indexer_ids: Seq<i32>) -> Seq<
    (Seq<char>, Seq<char>),
> {
    seq![("query"@, query), ("type"@, media_type)] + indexer_ids.map_values(
        |id: i32| ("indexerIds"@, decimal(id as int)),
    )
}

pub fn search_query_params(query: &str, media_type: &str, indexer_ids: &[i32]) -> (r: Vec<
    (String, String),
>)
    ensures
        r@.map_values(|p: (String, String)| (p.0@, p.1@)) == search_params(
            query@,
            media_type@,
            indexer_ids@,
        ),
{
    let mut out: Vec<(String, String)> = Vec::new();
    out.push((copy_str("query"), copy_str(query)));
    out.push((copy_str("type"), copy_str(media_type)));
    let mut i: usize = 0;
    while i < indexer_ids.len()
        invariant
            i <= indexer_ids.len(),
            out@.map_values(|p: (String, String)| (p.0@, p.1@)) == search_params(
                query@,
                media_type@,
                indexer_ids@.take(i as int),
            ),
        decreases indexer_ids.len() - i,
    {
        let ghost before = out@;
        out.push((copy_str("indexerIds"), i64_to_string(indexer_ids[i] as i64)));
        assert(indexer_ids@.take(i + 1).map_values(|id: i32| ("indexerIds"@, decimal(id as int)))
            =~= indexer_ids@.take(i as int).map_values(
            |id: i32| ("indexerIds"@, decimal(id as int)),
        ).push(("indexerIds"@, decimal(indexer_ids@[i as int] as int))));
        assert(out@.map_values(|p: (String, String)| (p.0@, p.1@)) =~= before.map_values(
            |p: (String, String)| (p.0@, p.1@),
        ).push(("indexerIds"@, decimal(indexer_ids@[i as int] as int))));
        i = i + 1;
    }
    assert(indexer_ids@.take(indexer_ids.len() as int) =~= indexer_ids@);
    out
}

// ---------------------------------------------------------------------------
// The answer
// ---------------------------------------------------------------------------

/// The body is an HTML page rather than JSON: its first non-blank character
/// is `<`.
pub open spec fn looks_like_html_spec(body: Seq<char>) -> bool {
    let t = trim_start_by(body, TrimClass::Whitespace);
    t.len() > 0 && t[0] == '<'
}

pub fn looks_like_html(body: &str) -> (r: bool)
    ensures
        r == looks_like_html_spec(body@),
{
    let v = chars_of(body);
    let lo = trim_start_index(&v, TrimClass::Whitespace);
    lo < v.len() && v[lo] == '<'
}

/// The body with whitespace runs collapsed, cut after 240 bytes with `...`
/// appended; nothing when the cut would split a character (where slicing the
/// text would panic).
pub open spec fn snippet_spec(body: Seq<char>) -> Option<Seq<char>> {
    let compact = join(words(body), " "@);
    if utf8_size(compact) <= SNIPPET_MAX_BYTES {
        Some(compact)
    } else {
        match chars_in_bytes(compact, SNIPPET_MAX_BYTES as int) {
            Some(k) => Some(compact.take(k) + "..."@),
            None => None,
        }
    }
}

pub fn snippet(body: &str) -> (r: Option<String>)
    ensures
        match r {
            Some(t) => snippet_spec(body@) == Some(t@),
            None => snippet_spec(body@) is None,
        },
{
    let v = chars_of(body);
    let compact = collapse_whitespace(&v);
    proof {
        reveal_strlit("...");
        lemma_utf8_size_bounds(compact@);
    }
    // bytes of the first i characters
    let mut bytes: usize = 0;
    let mut i: usize = 0;
    assert(compact@.skip(0) =~= compact@);
    while i < compact.len() && bytes < SNIPPET_MAX_BYTES
        invariant
            i <= compact.len(),
            bytes == utf8_size(compact@.take(i as int)),
            bytes <= SNIPPET_MAX_BYTES + 4,
            chars_in_bytes(compact@, SNIPPET_MAX_BYTES as int) == match chars_in_bytes(
                compact@.skip(i as int),
                SNIPPET_MAX_BYTES - bytes,
            ) {
                Some(k) => Some(k + i),
                None => None,
            },
        decreases compact.len() - i,
    {
        proof {
            lemma_utf8_size_take_step(compact@, i as int);
            assert(compact@.skip(i as int).drop_first() =~= compact@.skip(i + 1));
            assert(compact@.skip(i as int)[0] == compact@[i as int]);
        }
        bytes = bytes + char_utf8_len(compact[i]);
        i = i + 1;
    }
    if i == compact.len() && bytes <= SNIPPET_MAX_BYTES {
        assert(compact@.take(i as int) =~= compact@);
        return Some(string_from(&compact));
    }
    // the text is longer than the limit
    proof {
        if i == compact.len() {
            assert(compact@.take(i as int) =~= compact@);
        } else {
            lemma_utf8_size_take_step(compact@, i as int);
            let rest = compact@.skip(i as int);
            assert(compact@ =~= compact@.take(i as int) + rest);
            lemma_utf8_size_split(compact@.take(i as int), rest);
            lemma_utf8_size_bounds(rest);
        }
    }
    if bytes == SNIPPET_MAX_BYTES {
        let mut cut: Vec<char> = Vec::new();
        let mut j: usize = 0;
        while j < i
            invariant
                j <= i <= compact.len(),
                cut@ == compact@.take(j as int),
            decreases i - j,
        {
            cut.push(compact[j]);
            j = j + 1;
            assert(cut@ =~= compact@.take(j as int));
        }
        cut.push('.');
        cut.push('.');
        cut.push('.');
        assert(cut@ =~= compact@.take(i as int) + "..."@);
        Some(string_from(&cut))
    } else {
        None
    }
}


// ---------------------------------------------------------------------------
// Search results
// ---------------------------------------------------------------------------

/// A text field: a string trimmed (nothing when blank) or a number's text.
pub open spec fn string_field_spec(value: Option<JsonValue>) -> Option<Seq<char>> {
    match value {
        Some(JsonValue::Str(s)) => if trim(s@).len() == 0 {
            None
        } else {
            Some(trim(s@))
        },
        Some(JsonValue::Number(n)) => Some(n.repr@),
        _ => None,
    }
}

/// An integer field: an integer number, or a string holding one.
pub open spec fn i64_field_spec(value: Option<JsonValue>) -> Option<i64> {
    match value {
        Some(JsonValue::Number(n)) => n.int,
        Some(JsonValue::Str(s)) => parse_i64_spec(trim(s@)),
        _ => None,
    }
}

pub open spec fn or_text(a: Option<Seq<char>>, b: Seq<char>) -> Seq<char> {
    match a {
        Some(v) => v,
        None => b,
    }
}

/// The candidate a search result describes: it needs an identifier (`guid`,
/// else `infoUrl`) and a title; protocol, indexer and size have defaults.
pub open spec fn prowlarr_item(v: JsonValue) -> Option<CandidateView> {
    let id = match string_field_spec(json_get(v, "guid"@)) {
        Some(g) => Some(g),
        None => string_field_spec(json_get(v, "infoUrl"@)),
    };
    let title = string_field_spec(json_get(v, "title"@));
    if id is Some && title is Some {
        Some(
            parsed_candidate(
                id.unwrap(),
                "prowlarr"@,
                title.unwrap(),
                or_text(string_field_spec(json_get(v, "protocol"@)), "torrent"@),
                match i64_field_spec(json_get(v, "size"@)) {
                    Some(n) => n,
                    None => 0,
                },
                or_text(string_field_spec(json_get(v, "indexer"@)), "Prowlarr"@),
                string_field_spec(json_get(v, "downloadUrl"@)),
            ),
        )
    } else {
        None
    }
}

/// The candidates of the results that describe one, in order.
pub open spec fn prowlarr_items(items: Seq<JsonValue>) -> Seq<CandidateView>
    decreases items.len(),
{
    if items.len() == 0 {
        Seq::empty()
    } else {
        let prev = prowlarr_items(items.drop_last());
        match prowlarr_item(items.last()) {
            Some(c) => prev.push(c),
            None => prev,
        }
    }
}

pub fn string_field(value: Option<&JsonValue>) -> (r: Option<String>)
    ensures
        opt_view(r) == string_field_spec(match value {
            Some(v) => Some(*v),
            None => None,
        }),
{
    match value {
        Some(JsonValue::Str(s)) => {
            if is_blank(s.as_str()) {
                None
            } else {
                Some(trim_str(s.as_str()))
            }
        },
        Some(JsonValue::Number(n)) => Some(copy_str(n.repr.as_str())),
        _ => None,
    }
}

pub fn i64_field(value: Option<&JsonValue>) -> (r: Option<i64>)
    ensures
        r == i64_field_spec(match value {
            Some(v) => Some(*v),
            None => None,
        }),
{
    match value {
        Some(JsonValue::Number(n)) => n.int,
        Some(JsonValue::Str(s)) => {
            let t = trim_str(s.as_str());
            parse_i64(t.as_str())
        },
        _ => None,
    }
}

fn or_default_text(a: Option<String>, b: &str) -> (r: String)
    ensures
        r@ == or_text(opt_view(a), b@),
{
    match a {
        Some(v) => v,
        None => copy_str(b),
    }
}

pub fn release_candidate_from_value(value: &JsonValue) -> (r: Option<ReleaseCandidate>)
    ensures
        match r {
            Some(c) => prowlarr_item(*value) == Some(c@),
            None => prowlarr_item(*value) is None,
        },
{
    proof {
        reveal_strlit("torrent");
        reveal_strlit("Prowlarr");
        reveal_strlit("prowlarr");
    }
    let external_id = match string_field(value.get("guid")) {
        Some(g) => g,
        None => match string_field(value.get("infoUrl")) {
            Some(u) => u,
            None => {
                return None;
            },
        },
    };
    let title = match string_field(value.get("title")) {
        Some(t) => t,
        None => {
            return None;
        },
    };
    let protocol = or_default_text(string_field(value.get("protocol")), "torrent");
    let indexer = or_default_text(string_field(value.get("indexer")), "Prowlarr");
    let size_bytes = match i64_field(value.get("size")) {
        Some(n) => n,
        None => 0,
    };
    let download_url = string_field(value.get("downloadUrl"));
    let candidate = ReleaseCandidate {
        external_id,
        source: copy_str("prowlarr"),
        title,
        protocol,
        size_bytes,
        indexer,
        download_url,
        narrator: None,
        graphic_audio: false,
        detected_language: None,
    };
    Some(candidate.with_parsed_metadata())
}

/// The candidates of a search answer: nothing when the answer is not an
/// array, else one per result that describes a candidate.
pub fn candidates_from_payload(payload: &JsonValue) -> (r: Option<Vec<ReleaseCandidate>>)
    ensures
        match r {
            Some(cs) => json_array(*payload) matches Some(items) && cs@.map_values(
                |c: ReleaseCandidate| c@,
            ) == prowlarr_items(items),
            None => json_array(*payload) is None,
        },
{
    let items = match payload.as_array() {
        Some(items) => items,
        None => {
            return None;
        },
    };
    let mut out: Vec<ReleaseCandidate> = Vec::new();
    let mut i: usize = 0;
    while i < items.len()
        invariant
            i <= items.len(),
            out@.map_values(|c: ReleaseCandidate| c@) == prowlarr_items(items@.take(i as int)),
        decreases items.len() - i,
    {
        assert(items@.take(i + 1).drop_last() =~= items@.take(i as int));
        assert(items@.take(i + 1).last() == items@[i as int]);
        let ghost before = out@;
        match release_candidate_from_value(&items[i]) {
            Some(c) => {
                out.push(c);
                assert(out@.map_values(|c: ReleaseCandidate| c@) =~= before.map_values(
                    |c: ReleaseCandidate| c@,
                ).push(prowlarr_item(items@[i as int]).unwrap()));
            },
            None => {},
        }
        i = i + 1;
    }
    assert(items@.take(items.len() as int) =~= items@);
    Some(out)
}

} // verus!
