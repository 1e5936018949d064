use vstd::prelude::*;

use crate::text::copy_str;

verus! {

/// What kind of media a download payload holds.
#[derive(Clone, Copy, Debug, PartialEq, Eq, Structural)]
pub enum ImportMediaType {
    Ebook,
    Audiobook,
    Mixed,
    Invalid,
}

pub open spec fn import_media_text(t: ImportMediaType) -> Seq<char> {
    match t {
        ImportMediaType::Ebook => "ebook"@,
        ImportMediaType::Audiobook => "audiobook"@,
        ImportMediaType::Mixed => "mixed"@,
        ImportMediaType::Invalid => "invalid"@,
    }
}

impl ImportMediaType {
    pub fn as_str(&self) -> (r: &'static str)
        ensures
            r@ == import_media_text(*self),
    {
        match self {
            ImportMediaType::Ebook => "ebook",
            ImportMediaType::Audiobook => "audiobook",
            ImportMediaType::Mixed => "mixed",
            ImportMediaType::Invalid => "invalid",
        }
    }
}

#[derive(Clone, Debug, PartialEq, Eq)]
pub struct Classification {
    pub media_type: ImportMediaType,
    pub reason: Option<String>,
}

impl Classification {
    pub fn ebook() -> (r: Self)
        ensures
            r.media_type == ImportMediaType::Ebook,
            r.reason is None,
    {
        Classification { media_type: ImportMediaType::Ebook, reason: None }
    }

    pub fn audiobook() -> (r: Self)
        ensures
            r.media_type == ImportMediaType::Audiobook,
            r.reason is None,
    {
        Classification { media_type: ImportMediaType::Audiobook, reason: None }
    }

    pub fn mixed() -> (r: Self)
        ensures
            r.media_type == ImportMediaType::Mixed,
            r.reason is None,
    {
        Classification { media_type: ImportMediaType::Mixed, reason: None }
    }

    pub fn invalid(reason: &str) -> (r: Self)
        ensures
            r.media_type == ImportMediaType::Invalid,
            r.reason matches Some(text) && text@ == reason@,
    {
        Classification { media_type: ImportMediaType::Invalid, reason: Some(copy_str(reason)) }
    }
}

} // verus!
