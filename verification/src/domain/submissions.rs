use vstd::prelude::*;

use crate::domain::{
    catalog::WorkRecord,
    requests::{ManifestationPreference, MediaType, RequestListRecord},
};
use crate::text::str_eq;

verus! {

/// How a submission entered the system.
#[derive(Clone, Copy, Debug, PartialEq, Eq, Structural)]
pub enum SubmissionIntakeMode {
    Metadata,
    Manual,
}

pub open spec fn intake_mode_from_text(value: Seq<char>) -> Option<SubmissionIntakeMode> {
    if value == "metadata"@ {
        Some(SubmissionIntakeMode::Metadata)
    } else if value == "manual"@ {
        Some(SubmissionIntakeMode::Manual)
    } else {
        None
    }
}

pub open spec fn intake_mode_text(mode: SubmissionIntakeMode) -> Seq<char> {
    match mode {
        SubmissionIntakeMode::Metadata => "metadata"@,
        SubmissionIntakeMode::Manual => "manual"@,
    }
}

impl SubmissionIntakeMode {
    pub fn from_db(value: &str) -> (r: Option<Self>)
        ensures
            r == intake_mode_from_text(value@),
    {
        if str_eq(value, "metadata") {
            Some(SubmissionIntakeMode::Metadata)
        } else if str_eq(value, "manual") {
            Some(SubmissionIntakeMode::Manual)
        } else {
            None
        }
    }

    pub fn as_db(&self) -> (r: &'static str)
        ensures
            r@ == intake_mode_text(*self),
    {
        match self {
            SubmissionIntakeMode::Metadata => "metadata",
            SubmissionIntakeMode::Manual => "manual",
        }
    }
}

impl Default for SubmissionIntakeMode {
    fn default() -> (r: Self)
        ensures
            r == SubmissionIntakeMode::Metadata,
    {
        SubmissionIntakeMode::Metadata
    }
}

/// Where a submission stands in its review.
#[derive(Clone, Copy, Debug, PartialEq, Eq, Structural)]
pub enum SubmissionStatus {
    Submitted,
    PendingResolution,
    Resolved,
    Approved,
    Rejected,
}

pub open spec fn submission_status_from_text(value: Seq<char>) -> Option<SubmissionStatus> {
    if value == "submitted"@ {
        Some(SubmissionStatus::Submitted)
    } else if value == "pending_resolution"@ {
        Some(SubmissionStatus::PendingResolution)
    } else if value == "resolved"@ {
        Some(SubmissionStatus::Resolved)
    } else if value == "approved"@ {
        Some(SubmissionStatus::Approved)
    } else if value == "rejected"@ {
        Some(SubmissionStatus::Rejected)
    } else {
        None
    }
}

pub open spec fn submission_status_text(status: SubmissionStatus) -> Seq<char> {
    match status {
        SubmissionStatus::Submitted => "submitted"@,
        SubmissionStatus::PendingResolution => "pending_resolution"@,
        SubmissionStatus::Resolved => "resolved"@,
        SubmissionStatus::Approved => "approved"@,
        SubmissionStatus::Rejected => "rejected"@,
    }
}

impl SubmissionStatus {
    pub fn from_db(value: &str) -> (r: Option<Self>)
        ensures
            r == submission_status_from_text(value@),
    {
        if str_eq(value, "submitted") {
            Some(SubmissionStatus::Submitted)
        } else if str_eq(value, "pending_resolution") {
            Some(SubmissionStatus::PendingResolution)
        } else if str_eq(value, "resolved") {
            Some(SubmissionStatus::Resolved)
        } else if str_eq(value, "approved") {
            Some(SubmissionStatus::Approved)
        } else if str_eq(value, "rejected") {
            Some(SubmissionStatus::Rejected)
        } else {
            None
        }
    }

    pub fn as_db(&self) -> (r: &'static str)
        ensures
            r@ == submission_status_text(*self),
    {
        match self {
            SubmissionStatus::Submitted => "submitted",
            SubmissionStatus::PendingResolution => "pending_resolution",
            SubmissionStatus::Resolved => "resolved",
            SubmissionStatus::Approved => "approved",
            SubmissionStatus::Rejected => "rejected",
        }
    }
}

impl Default for SubmissionStatus {
    fn default() -> (r: Self)
        ensures
            r == SubmissionStatus::Submitted,
    {
        SubmissionStatus::Submitted
    }
}

/// Reading back the stored text of an intake mode or a status gives it again.
pub proof fn lemma_submission_text_round_trip(mode: SubmissionIntakeMode, status: SubmissionStatus)
    ensures
        intake_mode_from_text(intake_mode_text(mode)) == Some(mode),
        submission_status_from_text(submission_status_text(status)) == Some(status),
{
    reveal_strlit("metadata");
    reveal_strlit("manual");
    reveal_strlit("submitted");
    reveal_strlit("pending_resolution");
    reveal_strlit("resolved");
    reveal_strlit("approved");
    reveal_strlit("rejected");
    assert("metadata"@[1] != "manual"@[1]);
    assert("metadata"@[0] != "submitted"@[0]);
    assert("metadata"@[0] != "pending_resolution"@[0]);
    assert("metadata"@[0] != "resolved"@[0]);
    assert("metadata"@[0] != "approved"@[0]);
    assert("metadata"@[0] != "rejected"@[0]);
    assert("manual"@[0] != "submitted"@[0]);
    assert("manual"@[0] != "pending_resolution"@[0]);
    assert("manual"@[0] != "resolved"@[0]);
    assert("manual"@[0] != "approved"@[0]);
    assert("manual"@[0] != "rejected"@[0]);
    assert("submitted"@[0] != "pending_resolution"@[0]);
    assert("submitted"@[0] != "resolved"@[0]);
    assert("submitted"@[0] != "approved"@[0]);
    assert("submitted"@[0] != "rejected"@[0]);
    assert("pending_resolution"@[0] != "resolved"@[0]);
    assert("pending_resolution"@[0] != "approved"@[0]);
    assert("pending_resolution"@[0] != "rejected"@[0]);
    assert("resolved"@[0] != "approved"@[0]);
    assert("resolved"@[2] != "rejected"@[2]);
    assert("approved"@[0] != "rejected"@[0]);
}

/// Where a possible duplicate was found.
#[derive(Clone, Copy, Debug, PartialEq, Eq, Structural)]
pub enum DuplicateSource {
    AthenaRequested,
    AthenaImported,
    Audiobookshelf,
}

impl Default for DuplicateSource {
    fn default() -> (r: Self)
        ensures
            r == DuplicateSource::AthenaRequested,
    {
        DuplicateSource::AthenaRequested
    }
}

#[derive(Clone, Debug, PartialEq, Eq)]
pub struct DuplicateHint {
    pub source: DuplicateSource,
    pub label: String,
    pub detail: Option<String>,
}

#[derive(Clone, Debug, PartialEq, Eq)]
pub struct SubmissionSearchCandidate {
    pub work: WorkRecord,
    pub duplicate_hints: Vec<DuplicateHint>,
}

#[derive(Clone, Debug, PartialEq, Eq)]
pub struct SubmissionSearchResult {
    pub works: Vec<SubmissionSearchCandidate>,
}

#[derive(Clone, Debug, PartialEq, Eq)]
pub struct RequestSubmissionRecord {
    pub id: String,
    pub requested_by_user_id: String,
    pub requested_by_username: String,
    pub intake_mode: SubmissionIntakeMode,
    pub title: String,
    pub author: String,
    pub external_work_id: Option<String>,
    pub notes: Option<String>,
    pub media_types: Vec<MediaType>,
    pub preferred_language: Option<String>,
    pub manifestation: ManifestationPreference,
    pub status: SubmissionStatus,
    pub requires_admin_approval: bool,
    pub allow_duplicate: bool,
    pub linked_requests: Vec<RequestListRecord>,
    pub created_at: String,
    pub updated_at: String,
}

#[derive(Clone, Debug, PartialEq, Eq)]
pub struct SubmissionEventRecord {
    pub id: i64,
    pub submission_id: String,
    pub kind: String,
    pub payload_json: String,
    pub created_at: String,
}

#[derive(Clone, Debug, PartialEq)]
pub struct RequestSubmissionDetailRecord {
    pub submission: RequestSubmissionRecord,
    pub events: Vec<SubmissionEventRecord>,
}

#[derive(Clone, Debug, Default, PartialEq, Eq)]
pub struct CreateSubmissionRequest {
    pub intake_mode: Option<SubmissionIntakeMode>,
    pub selected_work_id: Option<String>,
    pub title: Option<String>,
    pub author: Option<String>,
    pub notes: Option<String>,
    pub media_types: Vec<MediaType>,
    pub preferred_language: Option<String>,
    pub manifestation: ManifestationPreference,
    pub allow_duplicate: bool,
}

#[derive(Clone, Debug, Default, PartialEq, Eq)]
pub struct ResolveManualSubmissionRequest {
    pub selected_work_id: String,
}

} // verus!
