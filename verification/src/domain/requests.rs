use vstd::prelude::*;

use super::events::RequestEventRecord;
use super::search::ReviewQueueEntry;
use crate::text::{copy_str, str_eq};

verus! {

/// Kind of book a request asks for.
#[derive(Clone, Copy, Debug, PartialEq, Eq, Structural)]
pub enum MediaType {
    Ebook,
    Audiobook,
}

pub open spec fn media_type_from_text(value: Seq<char>) -> Option<MediaType> {
    if value == "ebook"@ {
        Some(MediaType::Ebook)
    } else if value == "audiobook"@ {
        Some(MediaType::Audiobook)
    } else {
        None
    }
}

pub open spec fn media_type_text(media_type: MediaType) -> Seq<char> {
    match media_type {
        MediaType::Ebook => "ebook"@,
        MediaType::Audiobook => "audiobook"@,
    }
}

impl MediaType {
    pub fn from_str(value: &str) -> (r: Option<Self>)
        ensures
            r == media_type_from_text(value@),
    {
        if str_eq(value, "ebook") {
            Some(MediaType::Ebook)
        } else if str_eq(value, "audiobook") {
            Some(MediaType::Audiobook)
        } else {
            None
        }
    }

    pub fn as_str(&self) -> (r: &'static str)
        ensures
            r@ == media_type_text(*self),
    {
        match self {
            MediaType::Ebook => "ebook",
            MediaType::Audiobook => "audiobook",
        }
    }
}

impl Default for MediaType {
    fn default() -> (r: Self)
        ensures
            r == MediaType::Ebook,
    {
        MediaType::Ebook
    }
}

/// Reading back the stored text of a media type gives the media type again.
pub proof fn lemma_media_type_round_trip(media_type: MediaType)
    ensures
        media_type_from_text(media_type_text(media_type)) == Some(media_type),
{
    reveal_strlit("ebook");
    reveal_strlit("audiobook");
    assert("ebook"@[0] != "audiobook"@[0]);

}

/// Preferences about the particular edition or recording of a work.
#[derive(Clone, Debug, Default, PartialEq, Eq)]
pub struct ManifestationPreference {
    pub edition_title: Option<String>,
    pub preferred_narrator: Option<String>,
    pub preferred_publisher: Option<String>,
    pub graphic_audio: bool,
}

impl ManifestationPreference {
    pub fn new(
        edition_title: Option<String>,
        preferred_narrator: Option<String>,
        preferred_publisher: Option<String>,
        graphic_audio: bool,
    ) -> (r: Self)
        ensures
            r.edition_title == edition_title,
            r.preferred_narrator == preferred_narrator,
            r.preferred_publisher == preferred_publisher,
            r.graphic_audio == graphic_audio,
    {
        ManifestationPreference {
            edition_title,
            preferred_narrator,
            preferred_publisher,
            graphic_audio,
        }
    }
}

#[derive(Clone, Debug, PartialEq, Eq)]
pub struct CreateRequest {
    pub external_work_id: String,
    pub title: String,
    pub author: String,
    pub media_type: MediaType,
    pub preferred_language: Option<String>,
    pub manifestation: ManifestationPreference,
}

#[derive(Clone, Debug, PartialEq, Eq)]
pub struct RequestRecord {
    pub id: String,
    pub external_work_id: String,
    pub title: String,
    pub author: String,
    pub media_type: MediaType,
    pub preferred_language: Option<String>,
    pub manifestation: ManifestationPreference,
    pub state: String,
    pub created_at: String,
    pub requires_admin_approval: bool,
}

impl RequestRecord {
    /// A freshly requested record with the given title, author and media type
    /// and no preferences.
    pub fn for_tests(title: &str, author: &str, media_type: MediaType) -> (r: Self)
        ensures
            r.title@ == title@,
            r.author@ == author@,
            r.media_type == media_type,
            r.preferred_language is None,
            r.manifestation.edition_title is None,
            r.manifestation.preferred_narrator is None,
            r.manifestation.preferred_publisher is None,
            !r.manifestation.graphic_audio,
            r.state@ == "requested"@,
            !r.requires_admin_approval,
    {
        RequestRecord {
            id: copy_str("request-1"),
            external_work_id: String::new(),
            title: copy_str(title),
            author: copy_str(author),
            media_type,
            preferred_language: None,
            manifestation: ManifestationPreference::new(None, None, None, false),
            state: copy_str("requested"),
            created_at: String::new(),
            requires_admin_approval: false,
        }
    }

    /// The same record with the manifestation preferences replaced.
    pub fn with_preferences(self, manifestation: ManifestationPreference) -> (r: Self)
        ensures
            r == (RequestRecord { manifestation, ..self }),
    {
        RequestRecord { manifestation, ..self }
    }
}

#[derive(Clone, Debug, PartialEq, Eq)]
pub struct RequestListRecord {
    pub id: String,
    pub title: String,
    pub author: String,
    pub media_type: MediaType,
    pub state: String,
    pub created_at: String,
}

#[derive(Clone, Debug, Default, PartialEq, Eq)]
pub struct CreateRequestSelection {
    pub selected_work_id: Option<String>,
    pub media_types: Vec<MediaType>,
    pub preferred_language: Option<String>,
    pub manifestation: ManifestationPreference,
}

#[derive(Clone, Debug, PartialEq)]
pub struct RequestDetailRecord {
    pub request: RequestRecord,
    pub events: Vec<RequestEventRecord>,
    pub review_queue: Vec<ReviewQueueEntry>,
}

} // verus!
