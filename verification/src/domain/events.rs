use vstd::prelude::*;

use crate::text::{concat, str_eq};

verus! {

/// What happened to a request.
#[derive(Clone, Copy, Debug, PartialEq, Eq, Structural)]
pub enum RequestEventKind {
    Created,
    SearchCompleted,
    ReviewQueued,
    ReviewApproved,
    ReviewRejected,
    DownloadQueued,
    DownloadCompleted,
    ImportSucceeded,
    SyncSucceeded,
    LibraryDiscovered,
}

/// The stored text of an event kind.
pub open spec fn event_kind_text(kind: RequestEventKind) -> Seq<char> {
    match kind {
        RequestEventKind::Created => "request.created"@,
        RequestEventKind::SearchCompleted => "search.completed"@,
        RequestEventKind::ReviewQueued => "review.queued"@,
        RequestEventKind::ReviewApproved => "review.approved"@,
        RequestEventKind::ReviewRejected => "review.rejected"@,
        RequestEventKind::DownloadQueued => "download.queued"@,
        RequestEventKind::DownloadCompleted => "download.completed"@,
        RequestEventKind::ImportSucceeded => "import.succeeded"@,
        RequestEventKind::SyncSucceeded => "sync.succeeded"@,
        RequestEventKind::LibraryDiscovered => "library.discovered"@,
    }
}

/// The event kind stored under `value`, if any.
pub open spec fn event_kind_from_text(value: Seq<char>) -> Option<RequestEventKind> {
    if value == "request.created"@ {
        Some(RequestEventKind::Created)
    } else if value == "search.completed"@ {
        Some(RequestEventKind::SearchCompleted)
    } else if value == "review.queued"@ {
        Some(RequestEventKind::ReviewQueued)
    } else if value == "review.approved"@ {
        Some(RequestEventKind::ReviewApproved)
    } else if value == "review.rejected"@ {
        Some(RequestEventKind::ReviewRejected)
    } else if value == "download.queued"@ {
        Some(RequestEventKind::DownloadQueued)
    } else if value == "download.completed"@ {
        Some(RequestEventKind::DownloadCompleted)
    } else if value == "import.succeeded"@ {
        Some(RequestEventKind::ImportSucceeded)
    } else if value == "sync.succeeded"@ {
        Some(RequestEventKind::SyncSucceeded)
    } else if value == "library.discovered"@ {
        Some(RequestEventKind::LibraryDiscovered)
    } else {
        None
    }
}

impl RequestEventKind {
    pub fn as_str(&self) -> (r: &'static str)
        ensures
            r@ == event_kind_text(*self),
    {
        match self {
            RequestEventKind::Created => "request.created",
            RequestEventKind::SearchCompleted => "search.completed",
            RequestEventKind::ReviewQueued => "review.queued",
            RequestEventKind::ReviewApproved => "review.approved",
            RequestEventKind::ReviewRejected => "review.rejected",
            RequestEventKind::DownloadQueued => "download.queued",
            RequestEventKind::DownloadCompleted => "download.completed",
            RequestEventKind::ImportSucceeded => "import.succeeded",
            RequestEventKind::SyncSucceeded => "sync.succeeded",
            RequestEventKind::LibraryDiscovered => "library.discovered",
        }
    }

    /// Parses a stored event kind; an unknown text gives the error
    /// `unknown request event kind: <text>`.
    pub fn from_db(value: String) -> (r: Result<Self, String>)
        ensures
            r matches Ok(k) ==> event_kind_from_text(value@) == Some(k),
            r matches Err(msg) ==> event_kind_from_text(value@) is None && msg@
                == "unknown request event kind: "@ + value@,
            r is Ok <==> event_kind_from_text(value@) is Some,
    {
        let v = value.as_str();
        if str_eq(v, "request.created") {
            Ok(RequestEventKind::Created)
        } else if str_eq(v, "search.completed") {
            Ok(RequestEventKind::SearchCompleted)
        } else if str_eq(v, "review.queued") {
            Ok(RequestEventKind::ReviewQueued)
        } else if str_eq(v, "review.approved") {
            Ok(RequestEventKind::ReviewApproved)
        } else if str_eq(v, "review.rejected") {
            Ok(RequestEventKind::ReviewRejected)
        } else if str_eq(v, "download.queued") {
            Ok(RequestEventKind::DownloadQueued)
        } else if str_eq(v, "download.completed") {
            Ok(RequestEventKind::DownloadCompleted)
        } else if str_eq(v, "import.succeeded") {
            Ok(RequestEventKind::ImportSucceeded)
        } else if str_eq(v, "sync.succeeded") {
            Ok(RequestEventKind::SyncSucceeded)
        } else if str_eq(v, "library.discovered") {
            Ok(RequestEventKind::LibraryDiscovered)
        } else {
            Err(concat("unknown request event kind: ", v))
        }
    }
}

/// Reading back the stored text of an event kind gives the kind again.
pub proof fn lemma_event_kind_round_trip(kind: RequestEventKind)
    ensures
        event_kind_from_text(event_kind_text(kind)) == Some(kind),
{
    reveal_strlit("request.created");
    reveal_strlit("search.completed");
    reveal_strlit("review.queued");
    reveal_strlit("review.approved");
    reveal_strlit("review.rejected");
    reveal_strlit("download.queued");
    reveal_strlit("download.completed");
    reveal_strlit("import.succeeded");
    reveal_strlit("sync.succeeded");
    reveal_strlit("library.discovered");
    assert("request.created"@[0] != "search.completed"@[0]);
    assert("request.created"@[2] != "review.queued"@[2]);
    assert("request.created"@[2] != "review.approved"@[2]);
    assert("request.created"@[2] != "review.rejected"@[2]);
    assert("request.created"@[0] != "download.queued"@[0]);
    assert("request.created"@[0] != "download.completed"@[0]);
    assert("request.created"@[0] != "import.succeeded"@[0]);
    assert("request.created"@[0] != "sync.succeeded"@[0]);
    assert("request.created"@[0] != "library.discovered"@[0]);
    assert("search.completed"@[0] != "review.queued"@[0]);
    assert("search.completed"@[0] != "review.approved"@[0]);
    assert("search.completed"@[0] != "review.rejected"@[0]);
    assert("search.completed"@[0] != "download.queued"@[0]);
    assert("search.completed"@[0] != "download.completed"@[0]);
    assert("search.completed"@[0] != "import.succeeded"@[0]);
    assert("search.completed"@[1] != "sync.succeeded"@[1]);
    assert("search.completed"@[0] != "library.discovered"@[0]);
    assert("review.queued"@[7] != "review.approved"@[7]);
    assert("review.queued"@[7] != "review.rejected"@[7]);
    assert("review.queued"@[0] != "download.queued"@[0]);
    assert("review.queued"@[0] != "download.completed"@[0]);
    assert("review.queued"@[0] != "import.succeeded"@[0]);
    assert("review.queued"@[0] != "sync.succeeded"@[0]);
    assert("review.queued"@[0] != "library.discovered"@[0]);
    assert("review.approved"@[7] != "review.rejected"@[7]);
    assert("review.approved"@[0] != "download.queued"@[0]);
    assert("review.approved"@[0] != "download.completed"@[0]);
    assert("review.approved"@[0] != "import.succeeded"@[0]);
    assert("review.approved"@[0] != "sync.succeeded"@[0]);
    assert("review.approved"@[0] != "library.discovered"@[0]);
    assert("review.rejected"@[0] != "download.queued"@[0]);
    assert("review.rejected"@[0] != "download.completed"@[0]);
    assert("review.rejected"@[0] != "import.succeeded"@[0]);
    assert("review.rejected"@[0] != "sync.succeeded"@[0]);
    assert("review.rejected"@[0] != "library.discovered"@[0]);
    assert("download.queued"@[9] != "download.completed"@[9]);
    assert("download.queued"@[0] != "import.succeeded"@[0]);
    assert("download.queued"@[0] != "sync.succeeded"@[0]);
    assert("download.queued"@[0] != "library.discovered"@[0]);
    assert("download.completed"@[0] != "import.succeeded"@[0]);
    assert("download.completed"@[0] != "sync.succeeded"@[0]);
    assert("download.completed"@[0] != "library.discovered"@[0]);
    assert("import.succeeded"@[0] != "sync.succeeded"@[0]);
    assert("import.succeeded"@[0] != "library.discovered"@[0]);
    assert("sync.succeeded"@[0] != "library.discovered"@[0]);
}

#[derive(Clone, Debug, PartialEq, Eq)]
pub struct RequestEventRecord {
    pub id: i64,
    pub request_id: String,
    pub kind: RequestEventKind,
    pub payload_json: String,
    pub created_at: String,
}

} // verus!
