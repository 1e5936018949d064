//! Giving requests made before canonical works existed their work identity.
use vstd::prelude::*;

use crate::json::{
    jview, jview_entries, lemma_vinsert_vget, object_insert, push_entry, text, vget, vinsert,
    JsonValue, JsonView,
};
use crate::text::concat;

verus! {

/// Seconds the backfill worker waits after a pass: a minute after work was
/// done, an hour when there was none, five minutes after a failure.
pub open spec fn backfill_delay_spec(outcome: Option<usize>) -> u64 {
    match outcome {
        Some(n) => if n > 0 {
            60
        } else {
            3600
        },
        None => 300,
    }
}

/// `outcome` is the number of requests backfilled, or nothing when the pass
/// failed.
pub fn backfill_delay_secs(outcome: Option<usize>) -> (r: u64)
    ensures
        r == backfill_delay_spec(outcome),
{
    match outcome {
        Some(n) => if n > 0 {
            60
        } else {
            3600
        },
        None => 300,
    }
}

/// The creation event of a request after backfilling: the work id, title and
/// author set, and the work itself recorded.
pub open spec fn backfilled_payload_view(
    payload: JsonView,
    external_id: Seq<char>,
    title: Seq<char>,
    author: Seq<char>,
) -> JsonView {
    match payload {
        JsonView::Object(es) => JsonView::Object(
            vinsert(
                vinsert(
                    vinsert(
                        vinsert(es, "external_work_id"@, JsonView::Str(external_id)),
                        "title"@,
                        JsonView::Str(title),
                    ),
                    "author"@,
                    JsonView::Str(author),
                ),
                "work"@,
                JsonView::Object(
                    seq![
                        ("external_id"@, JsonView::Str(external_id)),
                        ("title"@, JsonView::Str(title)),
                        ("author"@, JsonView::Str(author)),
                    ],
                ),
            ),
        ),
        other => other,
    }
}

pub fn backfill_event_payload(payload: JsonValue, external_id: &str, title: &str, author: &str) -> (r:
    JsonValue)
    ensures
        jview(r) == backfilled_payload_view(jview(payload), external_id@, title@, author@),
{
    let mut p = payload;
    object_insert(&mut p, "external_work_id", text(external_id));
    object_insert(&mut p, "title", text(title));
    object_insert(&mut p, "author", text(author));
    let mut work: Vec<(String, JsonValue)> = Vec::new();
    push_entry(&mut work, "external_id", text(external_id));
    push_entry(&mut work, "title", text(title));
    push_entry(&mut work, "author", text(author));
    assert(jview_entries(work@) =~= seq![
        ("external_id"@, JsonView::Str(external_id@)),
        ("title"@, JsonView::Str(title@)),
        ("author"@, JsonView::Str(author@)),
    ]);
    object_insert(&mut p, "work", JsonValue::Object(work));
    p
}

/// A backfilled creation event reads back the canonical work id, title and
/// author; its other members are kept.
pub proof fn lemma_backfilled_reads(
    entries: Seq<(Seq<char>, JsonView)>,
    external_id: Seq<char>,
    title: Seq<char>,
    author: Seq<char>,
    other: Seq<char>,
)
    ensures
        ({
            let p = backfilled_payload_view(JsonView::Object(entries), external_id, title, author);
            &&& vget(p, "external_work_id"@) == Some(JsonView::Str(external_id))
            &&& vget(p, "title"@) == Some(JsonView::Str(title))
            &&& vget(p, "author"@) == Some(JsonView::Str(author))
            &&& (other != "external_work_id"@ && other != "title"@ && other != "author"@ && other
                != "work"@) ==> vget(p, other) == vget(JsonView::Object(entries), other)
        }),
{
    reveal_strlit("external_work_id");
    reveal_strlit("title");
    reveal_strlit("author");
    reveal_strlit("work");
    assert("external_work_id"@.len() != "title"@.len());
    assert("external_work_id"@.len() != "author"@.len());
    assert("external_work_id"@.len() != "work"@.len());
    assert("title"@.len() != "author"@.len());
    assert("title"@.len() != "work"@.len());
    assert("author"@.len() != "work"@.len());
    let e1 = vinsert(entries, "external_work_id"@, JsonView::Str(external_id));
    let e2 = vinsert(e1, "title"@, JsonView::Str(title));
    let e3 = vinsert(e2, "author"@, JsonView::Str(author));
    let work = JsonView::Object(
        seq![
            ("external_id"@, JsonView::Str(external_id)),
            ("title"@, JsonView::Str(title)),
            ("author"@, JsonView::Str(author)),
        ],
    );
    let keys = seq!["external_work_id"@, "title"@, "author"@, other];
    assert forall|k: Seq<char>| keys.contains(k) implies {
        &&& vget(JsonView::Object(vinsert(e3, "work"@, work)), k) == if k == "work"@ {
            Some(work)
        } else {
            vget(JsonView::Object(e3), k)
        }
        &&& vget(JsonView::Object(e3), k) == if k == "author"@ {
            Some(JsonView::Str(author))
        } else {
            vget(JsonView::Object(e2), k)
        }
        &&& vget(JsonView::Object(e2), k) == if k == "title"@ {
            Some(JsonView::Str(title))
        } else {
            vget(JsonView::Object(e1), k)
        }
        &&& vget(JsonView::Object(e1), k) == if k == "external_work_id"@ {
            Some(JsonView::Str(external_id))
        } else {
            vget(JsonView::Object(entries), k)
        }
    } by {
        lemma_vinsert_vget(e3, "work"@, work, k);
        lemma_vinsert_vget(e2, "author"@, JsonView::Str(author), k);
        lemma_vinsert_vget(e1, "title"@, JsonView::Str(title), k);
        lemma_vinsert_vget(entries, "external_work_id"@, JsonView::Str(external_id), k);
    }
    assert(keys.contains("external_work_id"@)) by {
        assert(keys[0] == "external_work_id"@);
    }
    assert(keys.contains("title"@)) by {
        assert(keys[1] == "title"@);
    }
    assert(keys.contains("author"@)) by {
        assert(keys[2] == "author"@);
    }
    assert(keys.contains(other)) by {
        assert(keys[3] == other);
    }
}

pub fn resolve_failed_message(request_id: &str) -> (r: String)
    ensures
        r@ == "failed to resolve canonical work for request "@ + request_id@,
{
    concat("failed to resolve canonical work for request ", request_id)
}

pub fn missing_created_event_message(request_id: &str) -> (r: String)
    ensures
        r@ == "missing request.created event for request "@ + request_id@,
{
    concat("missing request.created event for request ", request_id)
}

pub fn invalid_event_payload_message(request_id: &str) -> (r: String)
    ensures
        r@ == "invalid request event payload for request "@ + request_id@,
{
    concat("invalid request event payload for request ", request_id)
}

} // verus!
