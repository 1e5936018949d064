//! The request API: searching works, creating requests for a chosen work,
//! and deciding on review candidates.
use vstd::prelude::*;

use crate::domain::catalog::WorkRecord;
use crate::domain::requests::{CreateRequest, CreateRequestSelection, MediaType};
use crate::domain::settings::{normalize_optional_text, normalized_text};
use crate::http::error::AppError;
use crate::http::handlers::submissions::{request_for, requests_for_work};
use crate::numbers::{decimal, i64_to_string};
use crate::text::{concat, copy_str, is_blank, opt_view, trim};

verus! {

/// The query of a work search.
#[derive(Clone, Debug, Default, PartialEq, Eq)]
pub struct RequestSearchQuery {
    pub title: Option<String>,
    pub author: Option<String>,
}

/// A search is only sent when a title or an author is given.
pub fn has_searched(query: &RequestSearchQuery) -> (r: bool)
    ensures
        r == !((match query.title {
            Some(s) => trim(s@).len() == 0,
            None => true,
        }) && (match query.author {
            Some(s) => trim(s@).len() == 0,
            None => true,
        })),
{
    let t = match &query.title {
        Some(s) => is_blank(s.as_str()),
        None => true,
    };
    let a = match &query.author {
        Some(s) => is_blank(s.as_str()),
        None => true,
    };
    !(t && a)
}

/// The chosen work's id, trimmed; refused when missing or blank.
pub fn selected_work_id(selection: &CreateRequestSelection) -> (r: Result<String, AppError>)
    ensures
        match r {
            Ok(id) => normalized_text(
                match selection.selected_work_id {
                    Some(s) => s@,
                    None => Seq::<char>::empty(),
                },
            ) == Some(id@),
            Err(e) => normalized_text(
                match selection.selected_work_id {
                    Some(s) => s@,
                    None => Seq::<char>::empty(),
                },
            ) is None && (e matches AppError::BadRequest(m) && m@ == "missing selected_work_id"@),
        },
{
    let value = match &selection.selected_work_id {
        Some(s) => normalize_optional_text(Some(copy_str(s.as_str()))),
        None => {
            proof {
                crate::text::lemma_trim_empty_iff_all_ws(Seq::<char>::empty());
            }
            None
        },
    };
    match value {
        Some(id) => Ok(id),
        None => Err(AppError::BadRequest(copy_str("missing selected_work_id"))),
    }
}

/// At least one media type must be chosen.
pub fn parse_media_types(media_types: Vec<MediaType>) -> (r: Result<Vec<MediaType>, AppError>)
    ensures
        match r {
            Ok(m) => m == media_types && media_types@.len() > 0,
            Err(e) => media_types@.len() == 0 && (e matches AppError::BadRequest(m) && m@
                == "no media types selected"@),
        },
{
    if media_types.len() == 0 {
        return Err(AppError::BadRequest(copy_str("no media types selected")));
    }
    Ok(media_types)
}

/// The requests created for a chosen work: one per chosen media type, with
/// the trimmed language preference and the manifestation preferences.
pub fn requests_for_selection(selection: &CreateRequestSelection, work: &WorkRecord) -> (r: Vec<
    CreateRequest,
>)
    ensures
        r@.len() == selection.media_types@.len(),
        forall|i: int|
            0 <= i < r@.len() ==> request_for(
                #[trigger] r@[i],
                selection.media_types@[i],
                *work,
                match selection.preferred_language {
                    Some(p) => normalized_text(p@),
                    None => None,
                },
                selection.manifestation,
            ),
{
    let language = normalize_optional_text(crate::text::copy_opt(&selection.preferred_language));
    requests_for_work(&selection.media_types, work, &language, &selection.manifestation)
}

/// The refusal for an unknown request.
pub fn request_not_found(id: &str) -> (r: AppError)
    ensures
        r matches AppError::NotFound(m) && m@ == "Request with ID "@ + id@ + " not found"@,
{
    let a = concat("Request with ID ", id);
    AppError::NotFound(concat(a.as_str(), " not found"))
}

/// The refusal for an unknown review candidate.
pub fn review_candidate_not_found(candidate_id: i64) -> (r: AppError)
    ensures
        r matches AppError::NotFound(m) && m@ == "Review candidate "@ + decimal(candidate_id as int)
            + " not found"@,
{
    let a = concat("Review candidate ", i64_to_string(candidate_id).as_str());
    AppError::NotFound(concat(a.as_str(), " not found"))
}

/// Approving a candidate sends it to qBittorrent, which must be enabled.
pub fn check_approval_possible(qbittorrent_enabled: bool) -> (r: Result<(), AppError>)
    ensures
        match r {
            Ok(()) => qbittorrent_enabled,
            Err(e) => !qbittorrent_enabled && (e matches AppError::BadRequest(m) && m@
                == "qBittorrent must be enabled before approving candidates"@),
        },
{
    if !qbittorrent_enabled {
        return Err(
            AppError::BadRequest(copy_str("qBittorrent must be enabled before approving candidates")),
        );
    }
    Ok(())
}

/// What follows a rejected candidate.
#[derive(Clone, Copy, Debug, PartialEq, Eq, Structural)]
pub enum AfterRejection {
    /// The queue is empty: the request is searched again.
    SearchAgain,
    /// Candidates remain: the request stays in review.
    StayInReview,
}

pub fn after_rejection(remaining: usize) -> (r: AfterRejection)
    ensures
        r == if remaining == 0 {
            AfterRejection::SearchAgain
        } else {
            AfterRejection::StayInReview
        },
{
    if remaining == 0 {
        AfterRejection::SearchAgain
    } else {
        AfterRejection::StayInReview
    }
}

} // verus!
