//! Scanning the library folders for books that were not requested through
//! the service: `<root>/<author>/<title>/…` directories.
use vstd::prelude::*;

use crate::domain::imports::ImportMediaType;
use crate::domain::library::ScannedItem;
use crate::domain::requests::MediaType;
use crate::importer::classify::{classify_payload, classify_spec};
use crate::text::copy_str;

verus! {

/// The library scanner: it walks the ebook and audiobook roots.
pub struct LibraryScanner;

/// What a scan found.
#[derive(Clone, Debug, Default, PartialEq, Eq)]
pub struct ScanCounts {
    pub ebooks_found: i64,
    pub audiobooks_found: i64,
    pub duplicates_skipped: i64,
}

/// What becomes of one title directory.
#[derive(Clone, Copy, Debug, PartialEq, Eq, Structural)]
pub enum ScanOutcome {
    /// No files, or files of another kind: not counted.
    Skipped,
    /// Already known by its path or by title and author.
    Duplicate,
    /// A new book: recorded as a discovered request.
    Discovered,
}

/// The payload kind expected under a root.
pub open spec fn expected_media_spec(media_type: MediaType) -> ImportMediaType {
    match media_type {
        MediaType::Ebook => ImportMediaType::Ebook,
        MediaType::Audiobook => ImportMediaType::Audiobook,
    }
}

/// A title directory is taken when it holds files of the root's kind (or a
/// mix).
pub open spec fn title_accepted_spec(media_type: MediaType, files: Seq<String>) -> bool {
    files.len() > 0 && (classify_spec(files) == expected_media_spec(media_type) || classify_spec(
        files,
    ) == ImportMediaType::Mixed)
}

pub open spec fn scan_outcome_spec(media_type: MediaType, files: Seq<String>, known: bool) -> ScanOutcome {
    if !title_accepted_spec(media_type, files) {
        ScanOutcome::Skipped
    } else if known {
        ScanOutcome::Duplicate
    } else {
        ScanOutcome::Discovered
    }
}

/// Whether the files of a title directory make it a book of the root's kind.
pub fn title_accepted(media_type: MediaType, files: &[String]) -> (r: bool)
    ensures
        r == title_accepted_spec(media_type, files@),
{
    if files.len() == 0 {
        return false;
    }
    let expected = match media_type {
        MediaType::Ebook => ImportMediaType::Ebook,
        MediaType::Audiobook => ImportMediaType::Audiobook,
    };
    let classification = classify_payload(files);
    classification.media_type == expected || classification.media_type == ImportMediaType::Mixed
}

/// Decides a title directory: `known` says whether a request with its path
/// or its title and author exists.
pub fn scan_outcome(media_type: MediaType, files: &[String], known: bool) -> (r: ScanOutcome)
    ensures
        r == scan_outcome_spec(media_type, files@, known),
{
    if !title_accepted(media_type, files) {
        ScanOutcome::Skipped
    } else if known {
        ScanOutcome::Duplicate
    } else {
        ScanOutcome::Discovered
    }
}

/// The counts after one title directory.
pub open spec fn counts_after(c: ScanCounts, media_type: MediaType, outcome: ScanOutcome) -> ScanCounts {
    match outcome {
        ScanOutcome::Skipped => c,
        ScanOutcome::Duplicate => ScanCounts { duplicates_skipped: (c.duplicates_skipped + 1) as i64, ..c },
        ScanOutcome::Discovered => match media_type {
            MediaType::Ebook => ScanCounts { ebooks_found: (c.ebooks_found + 1) as i64, ..c },
            MediaType::Audiobook => ScanCounts { audiobooks_found: (c.audiobooks_found + 1) as i64, ..c },
        },
    }
}

impl ScanCounts {
    /// Counts one title directory.
    pub fn record(&mut self, media_type: MediaType, outcome: ScanOutcome)
        requires
            old(self).ebooks_found < i64::MAX,
            old(self).audiobooks_found < i64::MAX,
            old(self).duplicates_skipped < i64::MAX,
        ensures
            *final(self) == counts_after(*old(self), media_type, outcome),
    {
        match outcome {
            ScanOutcome::Skipped => {},
            ScanOutcome::Duplicate => {
                self.duplicates_skipped = self.duplicates_skipped + 1;
            },
            ScanOutcome::Discovered => match media_type {
                MediaType::Ebook => {
                    self.ebooks_found = self.ebooks_found + 1;
                },
                MediaType::Audiobook => {
                    self.audiobooks_found = self.audiobooks_found + 1;
                },
            },
        }
    }
}

/// Each title directory counts at most once, in exactly one count, and no
/// count goes down.
pub proof fn lemma_counts_monotone(c: ScanCounts, media_type: MediaType, outcome: ScanOutcome)
    requires
        c.ebooks_found < i64::MAX,
        c.audiobooks_found < i64::MAX,
        c.duplicates_skipped < i64::MAX,
    ensures
        counts_after(c, media_type, outcome).ebooks_found >= c.ebooks_found,
        counts_after(c, media_type, outcome).audiobooks_found >= c.audiobooks_found,
        counts_after(c, media_type, outcome).duplicates_skipped >= c.duplicates_skipped,
        counts_after(c, media_type, outcome).ebooks_found + counts_after(
            c,
            media_type,
            outcome,
        ).audiobooks_found + counts_after(c, media_type, outcome).duplicates_skipped == c.ebooks_found
            + c.audiobooks_found + c.duplicates_skipped + if outcome == ScanOutcome::Skipped {
            0int
        } else {
            1int
        },
{
}

/// A discovered book: author and title from the directory names (the
/// placeholders when a name is missing or not text).
pub fn scanned_item(
    author_name: Option<&str>,
    title_name: Option<&str>,
    media_type: MediaType,
    imported_path: &str,
) -> (r: ScannedItem)
    ensures
        r.author@ == match author_name {
            Some(a) => a@,
            None => "Unknown Author"@,
        },
        r.title@ == match title_name {
            Some(t) => t@,
            None => "Unknown Title"@,
        },
        r.media_type == media_type,
        r.imported_path@ == imported_path@,
{
    ScannedItem {
        author: copy_str(
            match author_name {
                Some(a) => a,
                None => "Unknown Author",
            },
        ),
        title: copy_str(
            match title_name {
                Some(t) => t,
                None => "Unknown Title",
            },
        ),
        media_type,
        imported_path: copy_str(imported_path),
    }
}

} // verus!
