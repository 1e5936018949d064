//! The rules of the request store: which batches are accepted, how the
//! state of a request moves, and what its events record.
use vstd::prelude::*;

use crate::domain::requests::{media_type_text, CreateRequest, ManifestationPreference};
use crate::domain::search::ReleaseCandidate;
use crate::json::{
    boolean, integer, jview, jview_entries, json_bool, json_get, json_str, opt_text, push_entry,
    push_item, text, vget, JsonValue, JsonView,
};
use crate::text::{copy_str, is_blank, opt_view, str_eq, trim};

verus! {

/// A download waiting in the download client.
#[derive(Clone, Debug, PartialEq, Eq)]
pub struct QueuedDownloadRecord {
    pub request_id: String,
    pub category: String,
}

/// An indexer searched directly (Torznab or Newznab).
#[derive(Clone, Debug, PartialEq, Eq)]
pub struct SearchIndexerRecord {
    pub id: i64,
    pub prowlarr_indexer_id: Option<i64>,
    pub implementation: String,
    pub protocol: Option<String>,
    pub base_url: String,
    pub api_path: Option<String>,
    pub api_key: Option<String>,
    pub enabled: bool,
}

// ---------------------------------------------------------------------------
// Batches
// ---------------------------------------------------------------------------

/// A batch is stored whole or not at all: every request needs a work id that
/// is not blank.
pub open spec fn batch_error(requests: Seq<CreateRequest>) -> Option<Seq<char>> {
    if exists|i: int| 0 <= i < requests.len() && trim(#[trigger] requests[i].external_work_id@).len()
        == 0 {
        Some("external work id cannot be empty"@)
    } else {
        None
    }
}

pub fn validate_batch(requests: &Vec<CreateRequest>) -> (r: Result<(), String>)
    ensures
        match r {
            Ok(()) => batch_error(requests@) is None,
            Err(e) => batch_error(requests@) == Some(e@),
        },
{
    let mut i: usize = 0;
    while i < requests.len()
        invariant
            i <= requests.len(),
            forall|j: int| 0 <= j < i ==> trim(#[trigger] requests@[j].external_work_id@).len() > 0,
        decreases requests.len() - i,
    {
        if is_blank(requests[i].external_work_id.as_str()) {
            assert(trim(requests@[i as int].external_work_id@).len() == 0);
            return Err(copy_str("external work id cannot be empty"));
        }
        i = i + 1;
    }
    Ok(())
}

// ---------------------------------------------------------------------------
// States
// ---------------------------------------------------------------------------

/// The state a search outcome leads to.
pub open spec fn state_after_search(outcome: Seq<char>) -> Seq<char> {
    if outcome == "auto_acquire"@ {
        "queued"@
    } else if outcome == "review"@ {
        "review"@
    } else if outcome == "no_match"@ {
        "no_match"@
    } else {
        "requested"@
    }
}

pub fn next_state_after_search(outcome: &str) -> (r: &'static str)
    ensures
        r@ == state_after_search(outcome@),
{
    if str_eq(outcome, "auto_acquire") {
        "queued"
    } else if str_eq(outcome, "review") {
        "review"
    } else if str_eq(outcome, "no_match") {
        "no_match"
    } else {
        "requested"
    }
}

/// Requests in these states are searched again by the search worker.
pub open spec fn pending_search_state(state: Seq<char>) -> bool {
    state == "requested"@ || state == "no_match"@
}

pub fn is_pending_search_state(state: &str) -> (r: bool)
    ensures
        r == pending_search_state(state@),
{
    str_eq(state, "requested") || str_eq(state, "no_match")
}

/// A request that reached the library: duplicates of it are refused.
pub open spec fn imported_state(state: Seq<char>) -> bool {
    state == "imported"@ || state == "synced"@
}

pub fn is_imported_state(state: &str) -> (r: bool)
    ensures
        r == imported_state(state@),
{
    str_eq(state, "imported") || str_eq(state, "synced")
}

// ---------------------------------------------------------------------------
// Event payloads
// ---------------------------------------------------------------------------

pub open spec fn opt_json(o: Option<Seq<char>>) -> JsonView {
    match o {
        Some(s) => JsonView::Str(s),
        None => JsonView::Null,
    }
}

/// The manifestation preferences as stored in an event.
pub open spec fn manifestation_view(m: ManifestationPreference) -> JsonView {
    JsonView::Object(
        seq![
            ("edition_title"@, opt_json(opt_view(m.edition_title))),
            ("preferred_narrator"@, opt_json(opt_view(m.preferred_narrator))),
            ("preferred_publisher"@, opt_json(opt_view(m.preferred_publisher))),
            ("graphic_audio"@, JsonView::Bool(m.graphic_audio)),
        ],
    )
}

/// The payload of the `request.created` event.
pub open spec fn created_payload_view(request_id: Seq<char>, r: CreateRequest) -> JsonView {
    JsonView::Object(
        seq![
            ("request_id"@, JsonView::Str(request_id)),
            ("external_work_id"@, JsonView::Str(r.external_work_id@)),
            (
                "work"@,
                JsonView::Object(
                    seq![
                        ("external_id"@, JsonView::Str(r.external_work_id@)),
                        ("title"@, JsonView::Str(r.title@)),
                        ("author"@, JsonView::Str(r.author@)),
                    ],
                ),
            ),
            ("title"@, JsonView::Str(r.title@)),
            ("author"@, JsonView::Str(r.author@)),
            ("media_type"@, JsonView::Str(media_type_text(r.media_type))),
            ("preferred_language"@, opt_json(opt_view(r.preferred_language))),
            ("manifestation"@, manifestation_view(r.manifestation)),
        ],
    )
}

fn manifestation_json(m: &ManifestationPreference) -> (r: JsonValue)
    ensures
        jview(r) == manifestation_view(*m),
{
    let mut es: Vec<(String, JsonValue)> = Vec::new();
    push_entry(&mut es, "edition_title", opt_text(&m.edition_title));
    push_entry(&mut es, "preferred_narrator", opt_text(&m.preferred_narrator));
    push_entry(&mut es, "preferred_publisher", opt_text(&m.preferred_publisher));
    push_entry(&mut es, "graphic_audio", boolean(m.graphic_audio));
    assert(jview_entries(es@) =~= seq![
        ("edition_title"@, opt_json(opt_view(m.edition_title))),
        ("preferred_narrator"@, opt_json(opt_view(m.preferred_narrator))),
        ("preferred_publisher"@, opt_json(opt_view(m.preferred_publisher))),
        ("graphic_audio"@, JsonView::Bool(m.graphic_audio)),
    ]);
    JsonValue::Object(es)
}

/// The payload recorded when a request is created.
pub fn created_event_payload(request_id: &str, request: &CreateRequest) -> (r: JsonValue)
    ensures
        jview(r) == created_payload_view(request_id@, *request),
{
    let mut work: Vec<(String, JsonValue)> = Vec::new();
    push_entry(&mut work, "external_id", text(request.external_work_id.as_str()));
    push_entry(&mut work, "title", text(request.title.as_str()));
    push_entry(&mut work, "author", text(request.author.as_str()));
    assert(jview_entries(work@) =~= seq![
        ("external_id"@, JsonView::Str(request.external_work_id@)),
        ("title"@, JsonView::Str(request.title@)),
        ("author"@, JsonView::Str(request.author@)),
    ]);
    let mut es: Vec<(String, JsonValue)> = Vec::new();
    push_entry(&mut es, "request_id", text(request_id));
    push_entry(&mut es, "external_work_id", text(request.external_work_id.as_str()));
    push_entry(&mut es, "work", JsonValue::Object(work));
    push_entry(&mut es, "title", text(request.title.as_str()));
    push_entry(&mut es, "author", text(request.author.as_str()));
    push_entry(&mut es, "media_type", text(request.media_type.as_str()));
    push_entry(&mut es, "preferred_language", opt_text(&request.preferred_language));
    push_entry(&mut es, "manifestation", manifestation_json(&request.manifestation));
    assert(jview_entries(es@) =~= seq![
        ("request_id"@, JsonView::Str(request_id@)),
        ("external_work_id"@, JsonView::Str(request.external_work_id@)),
        (
            "work"@,
            JsonView::Object(
                seq![
                    ("external_id"@, JsonView::Str(request.external_work_id@)),
                    ("title"@, JsonView::Str(request.title@)),
                    ("author"@, JsonView::Str(request.author@)),
                ],
            ),
        ),
        ("title"@, JsonView::Str(request.title@)),
        ("author"@, JsonView::Str(request.author@)),
        ("media_type"@, JsonView::Str(media_type_text(request.media_type))),
        ("preferred_language"@, opt_json(opt_view(request.preferred_language))),
        ("manifestation"@, manifestation_view(request.manifestation)),
    ]);
    JsonValue::Object(es)
}

/// What a stored event gives back of the manifestation preferences: each
/// text member when it is a string, the flag when it is a boolean (else
/// false); a payload without them gives none.
pub open spec fn manifestation_read(payload: JsonView) -> (
    Option<Seq<char>>,
    Option<Seq<char>>,
    Option<Seq<char>>,
    bool,
) {
    let m = vget(payload, "manifestation"@);
    let text_of = |k: Seq<char>|
        match m {
            Some(mv) => match vget(mv, k) {
                Some(JsonView::Str(s)) => Some(s),
                _ => None,
            },
            None => None,
        };
    (
        text_of("edition_title"@),
        text_of("preferred_narrator"@),
        text_of("preferred_publisher"@),
        match m {
            Some(mv) => match vget(mv, "graphic_audio"@) {
                Some(JsonView::Bool(b)) => b,
                _ => false,
            },
            None => false,
        },
    )
}

fn member_text(v: Option<&JsonValue>, key: &str) -> (r: Option<String>)
    ensures
        opt_view(r) == match v {
            Some(mv) => match vget(jview(*mv), key@) {
                Some(JsonView::Str(s)) => Some(s),
                _ => None,
            },
            None => None,
        },
{
    match v {
        Some(mv) => {
            proof {
                crate::json::lemma_get_view(*mv, key@);
            }
            match mv.member_str(key) {
                Some(s) => Some(copy_str(s)),
                None => None,
            }
        },
        None => None,
    }
}

/// The manifestation preferences read back from a stored event payload.
pub fn manifestation_from_payload(payload: &JsonValue) -> (r: ManifestationPreference)
    ensures
        (
            opt_view(r.edition_title),
            opt_view(r.preferred_narrator),
            opt_view(r.preferred_publisher),
            r.graphic_audio,
        ) == manifestation_read(jview(*payload)),
{
    proof {
        crate::json::lemma_get_view(*payload, "manifestation"@);
    }
    let m = payload.get("manifestation");
    let graphic_audio = match m {
        Some(mv) => {
            proof {
                crate::json::lemma_get_view(*mv, "graphic_audio"@);
            }
            match mv.member_bool("graphic_audio") {
                Some(b) => b,
                None => false,
            }
        },
        None => false,
    };
    ManifestationPreference {
        edition_title: member_text(m, "edition_title"),
        preferred_narrator: member_text(m, "preferred_narrator"),
        preferred_publisher: member_text(m, "preferred_publisher"),
        graphic_audio,
    }
}

/// The payload recorded when a download is queued.
pub open spec fn download_queued_view(c: ReleaseCandidate, category: Seq<char>) -> JsonView {
    JsonView::Object(
        seq![
            ("candidate_external_id"@, JsonView::Str(c.external_id@)),
            ("candidate_source"@, JsonView::Str(c.source@)),
            ("candidate_title"@, JsonView::Str(c.title@)),
            ("candidate_protocol"@, JsonView::Str(c.protocol@)),
            (
                "candidate_size_bytes"@,
                JsonView::Number(crate::numbers::decimal(c.size_bytes as int), Some(c.size_bytes)),
            ),
            ("candidate_indexer"@, JsonView::Str(c.indexer@)),
            ("download_url"@, opt_json(opt_view(c.download_url))),
            ("category"@, JsonView::Str(category)),
        ],
    )
}

pub fn download_queued_payload(candidate: &ReleaseCandidate, category: &str) -> (r: JsonValue)
    ensures
        jview(r) == download_queued_view(*candidate, category@),
{
    let mut es: Vec<(String, JsonValue)> = Vec::new();
    push_entry(&mut es, "candidate_external_id", text(candidate.external_id.as_str()));
    push_entry(&mut es, "candidate_source", text(candidate.source.as_str()));
    push_entry(&mut es, "candidate_title", text(candidate.title.as_str()));
    push_entry(&mut es, "candidate_protocol", text(candidate.protocol.as_str()));
    push_entry(&mut es, "candidate_size_bytes", integer(candidate.size_bytes));
    push_entry(&mut es, "candidate_indexer", text(candidate.indexer.as_str()));
    push_entry(&mut es, "download_url", opt_text(&candidate.download_url));
    push_entry(&mut es, "category", text(category));
    assert(jview_entries(es@) =~= seq![
        ("candidate_external_id"@, JsonView::Str(candidate.external_id@)),
        ("candidate_source"@, JsonView::Str(candidate.source@)),
        ("candidate_title"@, JsonView::Str(candidate.title@)),
        ("candidate_protocol"@, JsonView::Str(candidate.protocol@)),
        (
            "candidate_size_bytes"@,
            JsonView::Number(
                crate::numbers::decimal(candidate.size_bytes as int),
                Some(candidate.size_bytes),
            ),
        ),
        ("candidate_indexer"@, JsonView::Str(candidate.indexer@)),
        ("download_url"@, opt_json(opt_view(candidate.download_url))),
        ("category"@, JsonView::Str(category@)),
    ]);
    JsonValue::Object(es)
}

/// The payload recorded when a review candidate is approved or rejected.
pub fn review_decision_payload(candidate_id: i64, candidate_external_id: &str) -> (r: JsonValue)
    ensures
        jview(r) == JsonView::Object(
            seq![
                (
                    "candidate_id"@,
                    JsonView::Number(crate::numbers::decimal(candidate_id as int), Some(candidate_id)),
                ),
                ("candidate_external_id"@, JsonView::Str(candidate_external_id@)),
            ],
        ),
{
    let mut es: Vec<(String, JsonValue)> = Vec::new();
    push_entry(&mut es, "candidate_id", integer(candidate_id));
    push_entry(&mut es, "candidate_external_id", text(candidate_external_id));
    assert(jview_entries(es@) =~= seq![
        (
            "candidate_id"@,
            JsonView::Number(crate::numbers::decimal(candidate_id as int), Some(candidate_id)),
        ),
        ("candidate_external_id"@, JsonView::Str(candidate_external_id@)),
    ]);
    JsonValue::Object(es)
}

/// The payload recorded when a download completes: its files.
pub fn download_completed_payload(files: &Vec<String>) -> (r: JsonValue)
    ensures
        jview(r) == JsonView::Object(
            seq![("files"@, JsonView::Array(files@.map_values(|f: String| JsonView::Str(f@))))],
        ),
{
    let mut items: Vec<JsonValue> = Vec::new();
    let mut i: usize = 0;
    while i < files.len()
        invariant
            i <= files.len(),
            crate::json::jview_items(items@) == files@.take(i as int).map_values(
                |f: String| JsonView::Str(f@),
            ),
        decreases files.len() - i,
    {
        push_item(&mut items, text(files[i].as_str()));
        assert(files@.take(i + 1).map_values(|f: String| JsonView::Str(f@)) =~= files@.take(
            i as int,
        ).map_values(|f: String| JsonView::Str(f@)).push(JsonView::Str(files@[i as int]@)));
        i = i + 1;
    }
    assert(files@.take(files.len() as int) =~= files@);
    let mut es: Vec<(String, JsonValue)> = Vec::new();
    push_entry(&mut es, "files", JsonValue::Array(items));
    assert(jview_entries(es@) =~= seq![
        ("files"@, JsonView::Array(files@.map_values(|f: String| JsonView::Str(f@)))),
    ]);
    JsonValue::Object(es)
}

/// A payload with one text member, such as the destination of an import.
pub fn single_text_payload(key: &str, value: &str) -> (r: JsonValue)
    ensures
        jview(r) == JsonView::Object(seq![(key@, JsonView::Str(value@))]),
{
    let mut es: Vec<(String, JsonValue)> = Vec::new();
    push_entry(&mut es, key, text(value));
    assert(jview_entries(es@) =~= seq![(key@, JsonView::Str(value@))]);
    JsonValue::Object(es)
}

// ---------------------------------------------------------------------------
// Laws
// ---------------------------------------------------------------------------

/// What a request's creation event records of its manifestation preferences
/// is read back unchanged.
pub proof fn lemma_manifestation_round_trip(request_id: Seq<char>, r: CreateRequest)
    ensures
        manifestation_read(created_payload_view(request_id, r)) == (
            opt_view(r.manifestation.edition_title),
            opt_view(r.manifestation.preferred_narrator),
            opt_view(r.manifestation.preferred_publisher),
            r.manifestation.graphic_audio,
        ),
{
    reveal_strlit("manifestation");
    reveal_strlit("request_id");
    reveal_strlit("external_work_id");
    reveal_strlit("work");
    reveal_strlit("title");
    reveal_strlit("author");
    reveal_strlit("media_type");
    reveal_strlit("preferred_language");
    reveal_strlit("edition_title");
    reveal_strlit("preferred_narrator");
    reveal_strlit("preferred_publisher");
    reveal_strlit("graphic_audio");
    let p = created_payload_view(request_id, r);
    let es = match p {
        JsonView::Object(es) => es,
        _ => Seq::empty(),
    };
    let ms = match manifestation_view(r.manifestation) {
        JsonView::Object(ms) => ms,
        _ => Seq::empty(),
    };
    assert("manifestation"@.len() != "request_id"@.len());
    assert("manifestation"@.len() != "external_work_id"@.len());
    assert("manifestation"@.len() != "work"@.len());
    assert("manifestation"@.len() != "title"@.len());
    assert("manifestation"@.len() != "author"@.len());
    assert("manifestation"@.len() != "media_type"@.len());
    assert("manifestation"@.len() != "preferred_language"@.len());
    assert(crate::json::vkey_index(es, "manifestation"@) == Some(7int)) by {
        reveal_with_fuel(crate::json::vkey_index, 9);
    }
    assert("edition_title"@.len() != "preferred_narrator"@.len());
    assert("preferred_publisher"@.len() != "edition_title"@.len());
    assert("preferred_publisher"@.len() != "preferred_narrator"@.len());
    assert("graphic_audio"@[0] != "edition_title"@[0]);
    assert("graphic_audio"@.len() != "preferred_narrator"@.len());
    assert("graphic_audio"@.len() != "preferred_publisher"@.len());
    assert(crate::json::vkey_index(ms, "edition_title"@) == Some(0int)) by {
        reveal_with_fuel(crate::json::vkey_index, 5);
    }
    assert(crate::json::vkey_index(ms, "preferred_narrator"@) == Some(1int)) by {
        reveal_with_fuel(crate::json::vkey_index, 5);
    }
    assert(crate::json::vkey_index(ms, "preferred_publisher"@) == Some(2int)) by {
        reveal_with_fuel(crate::json::vkey_index, 5);
    }
    assert(crate::json::vkey_index(ms, "graphic_audio"@) == Some(3int)) by {
        reveal_with_fuel(crate::json::vkey_index, 5);
    }
}

} // verus!
