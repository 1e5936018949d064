//! Submissions: what a user asks for, how it is checked against what exists,
//! and which requests and states it leads to.
use vstd::prelude::*;

use crate::db::requests::imported_state;
use crate::domain::auth::UserRole;
use crate::domain::catalog::WorkRecord;
use crate::domain::requests::{CreateRequest, ManifestationPreference, MediaType};
use crate::domain::settings::{
    normalize_optional_text, normalized_text, PersistedAudiobookshelfIntegrationSettings,
};
use crate::domain::submissions::{
    CreateSubmissionRequest, DuplicateHint, DuplicateSource, SubmissionIntakeMode, SubmissionStatus,
};
use crate::http::error::AppError;
use crate::http::views::{media_type_label, media_type_label_spec};
use crate::json::{boolean, jview, jview_entries, push_entry, text, JsonValue, JsonView};
use crate::metadata::openlibrary::{normalize_text, normalize_text_spec};
use crate::sync::audiobookshelf::AudiobookshelfLibraryItem;
use crate::text::{concat, copy_opt, copy_str, is_blank, opt_view, str_eq, trim};

verus! {

/// The query of a submission search.
#[derive(Clone, Debug, Default, PartialEq, Eq)]
pub struct SubmissionSearchQuery {
    pub title: Option<String>,
    pub author: Option<String>,
}

/// The query of the submission list: `all` lists everyone's (for admins).
#[derive(Clone, Debug, Default, PartialEq, Eq)]
pub struct SubmissionListQuery {
    pub all: Option<bool>,
}

fn blank_or_missing(v: &Option<String>) -> (r: bool)
    ensures
        r == match v {
            Some(s) => trim(s@).len() == 0,
            None => true,
        },
{
    match v {
        Some(s) => is_blank(s.as_str()),
        None => true,
    }
}

/// A search with neither title nor author is not sent to the metadata
/// service; it finds nothing.
pub fn search_is_empty(query: &SubmissionSearchQuery) -> (r: bool)
    ensures
        r == ((match query.title {
            Some(s) => trim(s@).len() == 0,
            None => true,
        }) && (match query.author {
            Some(s) => trim(s@).len() == 0,
            None => true,
        })),
{
    blank_or_missing(&query.title) && blank_or_missing(&query.author)
}

// ---------------------------------------------------------------------------
// Creating a submission
// ---------------------------------------------------------------------------

/// How a new submission starts.
#[derive(Clone, Debug, PartialEq, Eq)]
pub enum SubmissionStart {
    /// A work chosen from the metadata service, to be looked up by its id.
    Metadata { selected_work_id: String },
    /// A title and author typed in, to be resolved by an admin later.
    Manual { title: String, author: String },
}

/// Requests from users who may not acquire directly wait for an admin.
pub open spec fn requires_approval_spec(role: UserRole) -> bool {
    !(role == UserRole::Admin || role == UserRole::Trusted)
}

/// How a submission starts, or why it is refused: it needs a media type;
/// a metadata submission needs a work id, a manual one a title and an author
/// (each trimmed, blank counting as missing).
pub open spec fn start_spec(payload: CreateSubmissionRequest) -> Result<
    (SubmissionIntakeMode, Seq<char>, Seq<char>),
    Seq<char>,
> {
    let mode = match payload.intake_mode {
        Some(m) => m,
        None => SubmissionIntakeMode::Metadata,
    };
    if payload.media_types@.len() == 0 {
        Err("no media types selected"@)
    } else {
        match mode {
            SubmissionIntakeMode::Metadata => match normalized_text(
                match payload.selected_work_id {
                    Some(s) => s@,
                    None => Seq::empty(),
                },
            ) {
                Some(id) => Ok((mode, id, Seq::empty())),
                None => Err("missing selected_work_id"@),
            },
            SubmissionIntakeMode::Manual => {
                let title = normalized_text(
                    match payload.title {
                        Some(s) => s@,
                        None => Seq::empty(),
                    },
                );
                let author = normalized_text(
                    match payload.author {
                        Some(s) => s@,
                        None => Seq::empty(),
                    },
                );
                if title is None {
                    Err("manual submissions require a title"@)
                } else if author is None {
                    Err("manual submissions require an author"@)
                } else {
                    Ok((mode, title.unwrap(), author.unwrap()))
                }
            },
        }
    }
}

fn normalized(v: &Option<String>) -> (r: Option<String>)
    ensures
        opt_view(r) == normalized_text(
            match v {
                Some(s) => s@,
                None => Seq::<char>::empty(),
            },
        ),
{
    match v {
        Some(s) => normalize_optional_text(Some(copy_str(s.as_str()))),
        None => {
            proof {
                crate::text::lemma_trim_empty_iff_all_ws(Seq::<char>::empty());
            }
            None
        },
    }
}

pub fn start_submission(payload: &CreateSubmissionRequest) -> (r: Result<SubmissionStart, AppError>)
    ensures
        match r {
            Ok(SubmissionStart::Metadata { selected_work_id }) => start_spec(*payload) == Ok::<
                (SubmissionIntakeMode, Seq<char>, Seq<char>),
                Seq<char>,
            >((SubmissionIntakeMode::Metadata, selected_work_id@, Seq::empty())),
            Ok(SubmissionStart::Manual { title, author }) => start_spec(*payload) == Ok::<
                (SubmissionIntakeMode, Seq<char>, Seq<char>),
                Seq<char>,
            >((SubmissionIntakeMode::Manual, title@, author@)),
            Err(e) => e matches AppError::BadRequest(m) && start_spec(*payload) == Err::<
                (SubmissionIntakeMode, Seq<char>, Seq<char>),
                Seq<char>,
            >(m@),
        },
{
    if payload.media_types.len() == 0 {
        return Err(AppError::BadRequest(copy_str("no media types selected")));
    }
    let mode = match payload.intake_mode {
        Some(m) => m,
        None => SubmissionIntakeMode::Metadata,
    };
    match mode {
        SubmissionIntakeMode::Metadata => match normalized(&payload.selected_work_id) {
            Some(id) => Ok(SubmissionStart::Metadata { selected_work_id: id }),
            None => Err(AppError::BadRequest(copy_str("missing selected_work_id"))),
        },
        SubmissionIntakeMode::Manual => {
            let title = match normalized(&payload.title) {
                Some(t) => t,
                None => {
                    return Err(AppError::BadRequest(copy_str("manual submissions require a title")));
                },
            };
            let author = match normalized(&payload.author) {
                Some(a) => a,
                None => {
                    return Err(
                        AppError::BadRequest(copy_str("manual submissions require an author")),
                    );
                },
            };
            Ok(SubmissionStart::Manual { title, author })
        },
    }
}

/// The status a submission is stored with.
pub open spec fn initial_status_spec(mode: SubmissionIntakeMode, role: UserRole) -> SubmissionStatus {
    match mode {
        SubmissionIntakeMode::Manual => SubmissionStatus::PendingResolution,
        SubmissionIntakeMode::Metadata => if requires_approval_spec(role) {
            SubmissionStatus::Submitted
        } else {
            SubmissionStatus::Approved
        },
    }
}

pub fn initial_status(mode: SubmissionIntakeMode, role: UserRole) -> (r: SubmissionStatus)
    ensures
        r == initial_status_spec(mode, role),
{
    match mode {
        SubmissionIntakeMode::Manual => SubmissionStatus::PendingResolution,
        SubmissionIntakeMode::Metadata => if !role.can_auto_acquire() {
            SubmissionStatus::Submitted
        } else {
            SubmissionStatus::Approved
        },
    }
}

/// The status after an admin resolved a manual submission.
pub fn resolved_status(requires_admin_approval: bool) -> (r: SubmissionStatus)
    ensures
        r == if requires_admin_approval {
            SubmissionStatus::Resolved
        } else {
            SubmissionStatus::Approved
        },
{
    if requires_admin_approval {
        SubmissionStatus::Resolved
    } else {
        SubmissionStatus::Approved
    }
}

/// The work looked up for a submission, or the refusal when the metadata
/// service does not know it.
pub fn selected_work_or_error(found: Option<WorkRecord>) -> (r: Result<WorkRecord, AppError>)
    ensures
        match r {
            Ok(w) => found == Some(w),
            Err(e) => found is None && (e matches AppError::BadRequest(m) && m@
                == "selected work id not found"@),
        },
{
    match found {
        Some(w) => Ok(w),
        None => Err(AppError::BadRequest(copy_str("selected work id not found"))),
    }
}

/// The requests a chosen work leads to: one per media type, in order.
pub open spec fn request_for(
    r: CreateRequest,
    media_type: MediaType,
    work: WorkRecord,
    preferred_language: Option<Seq<char>>,
    manifestation: ManifestationPreference,
) -> bool {
    &&& r.external_work_id@ == work.external_id@
    &&& r.title@ == work.title@
    &&& r.author@ == work.primary_author@
    &&& r.media_type == media_type
    &&& opt_view(r.preferred_language) == preferred_language
    &&& r.manifestation == manifestation
}

pub fn requests_for_work(
    media_types: &Vec<MediaType>,
    work: &WorkRecord,
    preferred_language: &Option<String>,
    manifestation: &ManifestationPreference,
) -> (r: Vec<CreateRequest>)
    ensures
        r@.len() == media_types@.len(),
        forall|i: int|
            0 <= i < r@.len() ==> request_for(
                #[trigger] r@[i],
                media_types@[i],
                *work,
                opt_view(*preferred_language),
                *manifestation,
            ),
{
    let mut out: Vec<CreateRequest> = Vec::new();
    let mut i: usize = 0;
    while i < media_types.len()
        invariant
            i <= media_types.len(),
            out@.len() == i,
            forall|j: int|
                0 <= j < i ==> request_for(
                    #[trigger] out@[j],
                    media_types@[j],
                    *work,
                    opt_view(*preferred_language),
                    *manifestation,
                ),
        decreases media_types.len() - i,
    {
        out.push(
            CreateRequest {
                external_work_id: copy_str(work.external_id.as_str()),
                title: copy_str(work.title.as_str()),
                author: copy_str(work.primary_author.as_str()),
                media_type: media_types[i],
                preferred_language: copy_opt(preferred_language),
                manifestation: manifestation_copy(manifestation),
            },
        );
        i = i + 1;
    }
    out
}

fn manifestation_copy(m: &ManifestationPreference) -> (r: ManifestationPreference)
    ensures
        r == *m,
{
    ManifestationPreference {
        edition_title: copy_opt_exact(&m.edition_title),
        preferred_narrator: copy_opt_exact(&m.preferred_narrator),
        preferred_publisher: copy_opt_exact(&m.preferred_publisher),
        graphic_audio: m.graphic_audio,
    }
}

fn copy_opt_exact(o: &Option<String>) -> (r: Option<String>)
    ensures
        r == *o,
{
    match o {
        Some(s) => Some(s.clone()),
        None => None,
    }
}

/// The payload of the event recorded when a submission's requests exist.
pub fn requests_created_payload(requires_admin_approval: bool) -> (r: JsonValue)
    ensures
        jview(r) == JsonView::Object(
            seq![("requires_admin_approval"@, JsonView::Bool(requires_admin_approval))],
        ),
{
    let mut es: Vec<(String, JsonValue)> = Vec::new();
    push_entry(&mut es, "requires_admin_approval", boolean(requires_admin_approval));
    assert(jview_entries(es@) =~= seq![
        ("requires_admin_approval"@, JsonView::Bool(requires_admin_approval)),
    ]);
    JsonValue::Object(es)
}

/// The payload of the event recorded when a submission is resolved.
pub fn resolved_payload(work: &WorkRecord) -> (r: JsonValue)
    ensures
        jview(r) == JsonView::Object(
            seq![
                ("external_work_id"@, JsonView::Str(work.external_id@)),
                ("title"@, JsonView::Str(work.title@)),
                ("author"@, JsonView::Str(work.primary_author@)),
            ],
        ),
{
    let mut es: Vec<(String, JsonValue)> = Vec::new();
    push_entry(&mut es, "external_work_id", text(work.external_id.as_str()));
    push_entry(&mut es, "title", text(work.title.as_str()));
    push_entry(&mut es, "author", text(work.primary_author.as_str()));
    assert(jview_entries(es@) =~= seq![
        ("external_work_id"@, JsonView::Str(work.external_id@)),
        ("title"@, JsonView::Str(work.title@)),
        ("author"@, JsonView::Str(work.primary_author@)),
    ]);
    JsonValue::Object(es)
}

// ---------------------------------------------------------------------------
// Duplicates
// ---------------------------------------------------------------------------

pub open spec fn media_label_spec(media_type: MediaType) -> Seq<char> {
    media_type_label_spec(media_type)
}

/// A request of the same title and author, shown as a possible duplicate:
/// imported or synced ones are in the library, others are pending.
pub fn athena_hint(state: &str, media_type: &MediaType, request_id: &str) -> (r: DuplicateHint)
    ensures
        r.source == if imported_state(state@) {
            DuplicateSource::AthenaImported
        } else {
            DuplicateSource::AthenaRequested
        },
        r.label@ == "Athena "@ + state@,
        opt_view(r.detail) == Some(media_label_spec(*media_type) + " "@ + request_id@),
{
    let source = if crate::db::requests::is_imported_state(state) {
        DuplicateSource::AthenaImported
    } else {
        DuplicateSource::AthenaRequested
    };
    let label = concat("Athena ", state);
    let a = concat(media_type_label(media_type), " ");
    let detail = concat(a.as_str(), request_id);
    DuplicateHint { source, label, detail: Some(detail) }
}

/// An Audiobookshelf item is the work when title and author agree on their
/// ASCII letters and digits, case aside.
pub open spec fn abs_matches_work_spec(item: AudiobookshelfLibraryItem, work: WorkRecord) -> bool {
    let m = item.library_item.media.metadata;
    normalize_text_spec(m.title@) == normalize_text_spec(work.title@) && normalize_text_spec(
        match m.author_name {
            Some(a) => a@,
            None => Seq::empty(),
        },
    ) == normalize_text_spec(work.primary_author@)
}

pub fn normalize_for_match(value: &str) -> (r: String)
    ensures
        r@ == normalize_text_spec(value@),
{
    normalize_text(value)
}

pub fn abs_matches_work(item: &AudiobookshelfLibraryItem, work: &WorkRecord) -> (r: bool)
    ensures
        r == abs_matches_work_spec(*item, *work),
{
    let m = &item.library_item.media.metadata;
    let t1 = normalize_for_match(m.title.as_str());
    let t2 = normalize_for_match(work.title.as_str());
    let author = match &m.author_name {
        Some(a) => a.as_str(),
        None => "",
    };
    proof {
        reveal_strlit("");
    }
    let a1 = normalize_for_match(author);
    let a2 = normalize_for_match(work.primary_author.as_str());
    str_eq(t1.as_str(), t2.as_str()) && str_eq(a1.as_str(), a2.as_str())
}

/// Indices of the items that are the work, at most three, in order.
pub open spec fn abs_match_indices(
    items: Seq<AudiobookshelfLibraryItem>,
    work: WorkRecord,
) -> Seq<int>
    decreases items.len(),
{
    if items.len() == 0 {
        Seq::empty()
    } else {
        let prev = abs_match_indices(items.drop_last(), work);
        if prev.len() < 3 && abs_matches_work_spec(items.last(), work) {
            prev.push(items.len() - 1)
        } else {
            prev
        }
    }
}

/// The hints for Audiobookshelf items that are the work (at most three).
pub fn abs_hints(items: &Vec<AudiobookshelfLibraryItem>, work: &WorkRecord) -> (r: Vec<DuplicateHint>)
    ensures
        r@.len() == abs_match_indices(items@, *work).len(),
        forall|k: int|
            0 <= k < r@.len() ==> {
                &&& (#[trigger] r@[k]).source == DuplicateSource::Audiobookshelf
                &&& r@[k].label@ == "Already in Audiobookshelf"@
                &&& opt_view(r@[k].detail) == Some(
                    items@[abs_match_indices(items@, *work)[k]].library_item.id@,
                )
            },
{
    let mut out: Vec<DuplicateHint> = Vec::new();
    let mut i: usize = 0;
    while i < items.len()
        invariant
            i <= items.len(),
            out@.len() == abs_match_indices(items@.take(i as int), *work).len(),
            out@.len() <= 3,
            forall|j: int| 0 <= j < abs_match_indices(items@.take(i as int), *work).len() ==> 0 <= #[trigger] abs_match_indices(items@.take(i as int), *work)[j] < i,
            forall|k: int|
                0 <= k < out@.len() ==> {
                    &&& (#[trigger] out@[k]).source == DuplicateSource::Audiobookshelf
                    &&& out@[k].label@ == "Already in Audiobookshelf"@
                    &&& opt_view(out@[k].detail) == Some(
                        items@[abs_match_indices(items@.take(i as int), *work)[k]].library_item.id@,
                    )
                },
        decreases items.len() - i,
    {
        assert(items@.take(i + 1).drop_last() =~= items@.take(i as int));
        assert(items@.take(i + 1).last() == items@[i as int]);
        let ghost prev = abs_match_indices(items@.take(i as int), *work);
        if out.len() < 3 && abs_matches_work(&items[i], work) {
            out.push(
                DuplicateHint {
                    source: DuplicateSource::Audiobookshelf,
                    label: copy_str("Already in Audiobookshelf"),
                    detail: Some(copy_str(items[i].library_item.id.as_str())),
                },
            );
        }
        i = i + 1;
    }
    assert(items@.take(items.len() as int) =~= items@);
    out
}

/// Audiobookshelf is asked about duplicates when it is enabled, marks
/// existing books during search, and has an API key: the library and the
/// query `<title> <author>`.
pub fn abs_duplicate_lookup(
    abs: &PersistedAudiobookshelfIntegrationSettings,
    work: &WorkRecord,
) -> (r: Option<(String, String, String, String)>)
    ensures
        match r {
            Some((base, key, library, query)) => abs.enabled && abs.mark_existing_during_search && (
            abs.api_key matches Some(k) && base@ == abs.base_url@ && key@ == k@ && library@
                == abs.library_id@ && query@ == work.title@ + " "@ + work.primary_author@),
            None => !(abs.enabled && abs.mark_existing_during_search && abs.api_key is Some),
        },
{
    if !(abs.enabled && abs.mark_existing_during_search) {
        return None;
    }
    match &abs.api_key {
        Some(k) => {
            let a = concat(work.title.as_str(), " ");
            let query = concat(a.as_str(), work.primary_author.as_str());
            Some(
                (
                    copy_str(abs.base_url.as_str()),
                    copy_str(k.as_str()),
                    copy_str(abs.library_id.as_str()),
                    query,
                ),
            )
        },
        None => None,
    }
}

/// A hint that blocks an audiobook: it is already in the library or in
/// Audiobookshelf.
pub open spec fn blocking_hint(h: DuplicateHint) -> bool {
    h.source == DuplicateSource::AthenaImported || h.source == DuplicateSource::Audiobookshelf
}

/// An audiobook that already exists is refused unless an admin allows the
/// duplicate; ebooks are never refused.
pub open spec fn duplicate_refused(
    media_types: Seq<MediaType>,
    hints: Seq<DuplicateHint>,
    allow_duplicate: bool,
    is_admin: bool,
) -> bool {
    media_types.contains(MediaType::Audiobook) && (exists|i: int|
        0 <= i < hints.len() && blocking_hint(#[trigger] hints[i])) && !(allow_duplicate
        && is_admin)
}

/// Whether the submission's audiobook needs the duplicate check at all.
pub fn wants_audiobook(media_types: &Vec<MediaType>) -> (r: bool)
    ensures
        r == media_types@.contains(MediaType::Audiobook),
{
    let mut i: usize = 0;
    while i < media_types.len()
        invariant
            i <= media_types.len(),
            forall|j: int| 0 <= j < i ==> media_types@[j] != MediaType::Audiobook,
        decreases media_types.len() - i,
    {
        if media_types[i] == MediaType::Audiobook {
            assert(media_types@[i as int] == MediaType::Audiobook);
            return true;
        }
        i = i + 1;
    }
    false
}

pub fn enforce_duplicates(
    media_types: &Vec<MediaType>,
    hints: &Vec<DuplicateHint>,
    allow_duplicate: bool,
    role: UserRole,
) -> (r: Result<(), AppError>)
    ensures
        match r {
            Ok(()) => !duplicate_refused(
                media_types@,
                hints@,
                allow_duplicate,
                role == UserRole::Admin,
            ),
            Err(e) => duplicate_refused(
                media_types@,
                hints@,
                allow_duplicate,
                role == UserRole::Admin,
            ) && (e matches AppError::BadRequest(m) && m@
                == "duplicate audiobook suppressed; only admins can override"@),
        },
{
    if !wants_audiobook(media_types) {
        return Ok(());
    }
    let mut blocking = false;
    let mut i: usize = 0;
    while i < hints.len()
        invariant
            i <= hints.len(),
            !blocking ==> forall|j: int| 0 <= j < i ==> !blocking_hint(#[trigger] hints@[j]),
            blocking ==> exists|j: int| 0 <= j < hints@.len() && blocking_hint(#[trigger] hints@[j]),
        decreases hints.len() - i,
    {
        let s = hints[i].source;
        if s == DuplicateSource::AthenaImported || s == DuplicateSource::Audiobookshelf {
            assert(blocking_hint(hints@[i as int]));
            blocking = true;
        }
        i = i + 1;
    }
    if blocking && !(allow_duplicate && role.is_admin()) {
        return Err(
            AppError::BadRequest(
                copy_str("duplicate audiobook suppressed; only admins can override"),
            ),
        );
    }
    Ok(())
}

// ---------------------------------------------------------------------------
// Access and notifications
// ---------------------------------------------------------------------------

/// A submission is shown to admins and to the user who made it.
pub fn check_submission_access(role: UserRole, user_id: &str, owner_id: &str) -> (r: Result<
    (),
    AppError,
>)
    ensures
        match r {
            Ok(()) => role == UserRole::Admin || user_id@ == owner_id@,
            Err(e) => role != UserRole::Admin && user_id@ != owner_id@ && (e matches AppError::Forbidden(
                m,
            ) && m@ == "submission access denied"@),
        },
{
    if !role.is_admin() && !str_eq(owner_id, user_id) {
        return Err(AppError::Forbidden(copy_str("submission access denied")));
    }
    Ok(())
}

/// The refusal for an unknown submission.
pub fn submission_not_found(id: &str) -> (r: AppError)
    ensures
        r matches AppError::NotFound(m) && m@ == "submission "@ + id@ + " not found"@,
{
    let a = concat("submission ", id);
    AppError::NotFound(concat(a.as_str(), " not found"))
}

/// The text of the notification about a new submission.
pub fn created_notification_body(title: &str, username: &str) -> (r: String)
    ensures
        r@ == title@ + " by "@ + username@,
{
    let a = concat(title, " by ");
    concat(a.as_str(), username)
}

/// The text of the notification about a resolved submission.
pub fn resolved_notification_body(title: &str) -> (r: String)
    ensures
        r@ == title@ + " resolved to canonical metadata"@,
{
    concat(title, " resolved to canonical metadata")
}

/// The text of the notification about an approved or rejected submission.
pub fn decided_notification_body(id: &str, approved: bool) -> (r: String)
    ensures
        r@ == "Submission "@ + id@ + if approved {
            " approved"@
        } else {
            " rejected"@
        },
{
    let a = concat("Submission ", id);
    if approved {
        concat(a.as_str(), " approved")
    } else {
        concat(a.as_str(), " rejected")
    }
}

} // verus!
