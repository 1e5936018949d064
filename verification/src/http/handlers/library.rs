//! The library scan API.
use vstd::prelude::*;

use crate::library_scanner::ScanCounts;

verus! {

/// What a finished scan job records: the counts, or zero counts and the
/// error.
pub fn scan_job_completion(result: Result<ScanCounts, String>) -> (r: (i64, i64, i64, Option<String>))
    ensures
        match result {
            Ok(c) => r == (c.ebooks_found, c.audiobooks_found, c.duplicates_skipped, None::<String>),
            Err(e) => r == (0i64, 0i64, 0i64, Some(e)),
        },
{
    match result {
        Ok(c) => (c.ebooks_found, c.audiobooks_found, c.duplicates_skipped, None),
        Err(e) => (0, 0, 0, Some(e)),
    }
}

} // verus!
