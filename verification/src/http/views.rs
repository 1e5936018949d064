//! How requests and works are shown on the server-rendered pages.
use vstd::prelude::*;

use crate::domain::catalog::WorkRecord;
use crate::domain::requests::{MediaType, RequestRecord};
use crate::text::{concat, copy_str, opt_view};

verus! {

pub open spec fn media_type_label_spec(media_type: MediaType) -> Seq<char> {
    match media_type {
        MediaType::Ebook => "Ebook"@,
        MediaType::Audiobook => "Audiobook"@,
    }
}

pub fn media_type_label(media_type: &MediaType) -> (r: &'static str)
    ensures
        r@ == media_type_label_spec(*media_type),
{
    match media_type {
        MediaType::Ebook => "Ebook",
        MediaType::Audiobook => "Audiobook",
    }
}

/// A preference as shown: the value, or `Any` when there is none.
pub open spec fn or_any(v: Option<String>) -> Seq<char> {
    match v {
        Some(s) => s@,
        None => "Any"@,
    }
}

fn or_any_exec(v: Option<String>) -> (r: String)
    ensures
        r@ == or_any(v),
{
    match v {
        Some(s) => s,
        None => copy_str("Any"),
    }
}

#[derive(Clone, Debug, PartialEq, Eq)]
pub struct RequestDetailView {
    pub id: String,
    pub title: String,
    pub author: String,
    pub media_type_label: &'static str,
    pub preferred_language: String,
    pub edition_title: String,
    pub preferred_narrator: String,
    pub preferred_publisher: String,
    pub graphic_audio: bool,
    pub state: String,
    pub created_at: String,
}

impl RequestDetailView {
    pub fn from_record(record: RequestRecord) -> (r: Self)
        ensures
            r.id == record.id,
            r.title == record.title,
            r.author == record.author,
            r.media_type_label@ == media_type_label_spec(record.media_type),
            r.preferred_language@ == or_any(record.preferred_language),
            r.edition_title@ == or_any(record.manifestation.edition_title),
            r.preferred_narrator@ == or_any(record.manifestation.preferred_narrator),
            r.preferred_publisher@ == or_any(record.manifestation.preferred_publisher),
            r.graphic_audio == record.manifestation.graphic_audio,
            r.state == record.state,
            r.created_at == record.created_at,
    {
        let label = media_type_label(&record.media_type);
        RequestDetailView {
            id: record.id,
            title: record.title,
            author: record.author,
            media_type_label: label,
            preferred_language: or_any_exec(record.preferred_language),
            edition_title: or_any_exec(record.manifestation.edition_title),
            preferred_narrator: or_any_exec(record.manifestation.preferred_narrator),
            preferred_publisher: or_any_exec(record.manifestation.preferred_publisher),
            graphic_audio: record.manifestation.graphic_audio,
            state: record.state,
            created_at: record.created_at,
        }
    }
}

#[derive(Clone, Debug, Default, PartialEq, Eq)]
pub struct RequestSearchView {
    pub title: String,
    pub author: String,
}

#[derive(Clone, Debug, PartialEq, Eq)]
pub struct WorkMatchView {
    pub selection_value: String,
    pub title: String,
    pub author: String,
}

impl WorkMatchView {
    /// The choice of a work: `id|title|author` as the selected value.
    pub fn from_work(work: WorkRecord) -> (r: Self)
        ensures
            r.selection_value@ == work.external_id@ + "|"@ + work.title@ + "|"@
                + work.primary_author@,
            r.title == work.title,
            r.author == work.primary_author,
    {
        let a = concat(work.external_id.as_str(), "|");
        let b = concat(a.as_str(), work.title.as_str());
        let c = concat(b.as_str(), "|");
        let selection_value = concat(c.as_str(), work.primary_author.as_str());
        WorkMatchView { selection_value, title: work.title, author: work.primary_author }
    }
}

#[derive(Clone, Debug, PartialEq, Eq)]
pub struct CreatedRequestView {
    pub id: String,
    pub title: String,
    pub author: String,
    pub media_type_label: &'static str,
}

impl CreatedRequestView {
    pub fn from_record(record: RequestRecord) -> (r: Self)
        ensures
            r.id == record.id,
            r.title == record.title,
            r.author == record.author,
            r.media_type_label@ == media_type_label_spec(record.media_type),
    {
        let label = media_type_label(&record.media_type);
        CreatedRequestView {
            id: record.id,
            title: record.title,
            author: record.author,
            media_type_label: label,
        }
    }
}

/// What the request search page shows: the query, the matching works, and
/// whether a search was made.
#[derive(Clone, Debug, PartialEq, Eq)]
pub struct RequestsIndexTemplate {
    pub search: RequestSearchView,
    pub matches: Vec<WorkMatchView>,
    pub has_searched: bool,
}

/// What the page of one request shows.
#[derive(Clone, Debug, PartialEq, Eq)]
pub struct RequestsShowTemplate {
    pub request: RequestDetailView,
}

/// What the page after creating requests shows.
#[derive(Clone, Debug, PartialEq, Eq)]
pub struct RequestsCreatedTemplate {
    pub requests: Vec<CreatedRequestView>,
}

} // verus!
