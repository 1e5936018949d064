//! The cover image proxy.
use vstd::prelude::*;

verus! {

/// The query of a cover request: its size.
#[derive(Clone, Debug, Default, PartialEq, Eq)]
pub struct CoverQuery {
    pub size: Option<String>,
}

/// Why a cover could not be served.
#[derive(Clone, Copy, Debug, PartialEq, Eq, Structural)]
pub enum CoverFailure {
    /// The settings could not be read.
    Settings,
    /// Open Library could not be reached.
    Upstream,
    /// Open Library has no such cover.
    Missing,
}

/// The status answered for each failure.
pub fn cover_failure_status(failure: CoverFailure) -> (r: u16)
    ensures
        r == match failure {
            CoverFailure::Settings => 500u16,
            CoverFailure::Upstream => 502u16,
            CoverFailure::Missing => 404u16,
        },
{
    match failure {
        CoverFailure::Settings => 500,
        CoverFailure::Upstream => 502,
        CoverFailure::Missing => 404,
    }
}

} // verus!
