//! Audiobookshelf's API: where a client sends requests, and the library items
//! a search returns.
use vstd::prelude::*;

use crate::text::{concat, copy_str};

verus! {

/// Where and as whom requests go to an Audiobookshelf server.
#[derive(Clone, Debug, PartialEq, Eq)]
pub struct AudiobookshelfClient {
    pub base_url: String,
    pub api_key: String,
}

impl AudiobookshelfClient {
    pub fn new(base_url: &str, api_key: &str) -> (r: Self)
        ensures
            r.base_url@ == base_url@,
            r.api_key@ == api_key@,
    {
        AudiobookshelfClient { base_url: copy_str(base_url), api_key: copy_str(api_key) }
    }

    /// The endpoint that rescans a library.
    pub fn scan_library_url(&self, library_id: &str) -> (r: String)
        ensures
            r@ == self.base_url@ + "/api/libraries/"@ + library_id@ + "/scan"@,
    {
        let a = concat(self.base_url.as_str(), "/api/libraries/");
        let b = concat(a.as_str(), library_id);
        concat(b.as_str(), "/scan")
    }

    /// The endpoint that searches a library.
    pub fn search_library_url(&self, library_id: &str) -> (r: String)
        ensures
            r@ == self.base_url@ + "/api/libraries/"@ + library_id@ + "/search"@,
    {
        let a = concat(self.base_url.as_str(), "/api/libraries/");
        let b = concat(a.as_str(), library_id);
        concat(b.as_str(), "/search")
    }

    /// The `Authorization` header: the API key as a bearer token.
    pub fn authorization(&self) -> (r: String)
        ensures
            r@ == "Bearer "@ + self.api_key@,
    {
        concat("Bearer ", self.api_key.as_str())
    }
}

#[derive(Clone, Debug, Default, PartialEq, Eq)]
pub struct AudiobookshelfSearchResponse {
    pub book: Vec<AudiobookshelfLibraryItem>,
}

#[derive(Clone, Debug, Default, PartialEq, Eq)]
pub struct AudiobookshelfLibraryItem {
    pub library_item: AudiobookshelfLibraryItemData,
}

#[derive(Clone, Debug, Default, PartialEq, Eq)]
pub struct AudiobookshelfLibraryItemData {
    pub id: String,
    pub media: AudiobookshelfMedia,
}

#[derive(Clone, Debug, Default, PartialEq, Eq)]
pub struct AudiobookshelfMedia {
    pub metadata: AudiobookshelfMetadata,
}

#[derive(Clone, Debug, Default, PartialEq, Eq)]
pub struct AudiobookshelfMetadata {
    pub title: String,
    pub author_name: Option<String>,
    pub narrator_name: Option<String>,
    pub series_name: Option<String>,
}

} // verus!
