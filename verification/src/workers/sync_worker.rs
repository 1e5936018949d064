//! Handing an imported ebook to Calibre.
use vstd::prelude::*;

use crate::text::{concat, str_eq};

verus! {

/// The sync worker: it runs the Calibre hook on imported ebooks.
pub struct SyncWorker;

/// Only an imported request is synced.
pub open spec fn sync_precondition_spec(request_id: Seq<char>, state: Seq<char>) -> Result<
    (),
    Seq<char>,
> {
    if state == "imported"@ {
        Ok(())
    } else {
        Err("request "@ + request_id + " must be imported before sync"@)
    }
}

pub fn check_sync_precondition(request_id: &str, state: &str) -> (r: Result<(), String>)
    ensures
        match r {
            Ok(()) => sync_precondition_spec(request_id@, state@) == Ok::<(), Seq<char>>(()),
            Err(e) => sync_precondition_spec(request_id@, state@) == Err::<(), Seq<char>>(e@),
        },
{
    if str_eq(state, "imported") {
        Ok(())
    } else {
        let a = concat("request ", request_id);
        Err(concat(a.as_str(), " must be imported before sync"))
    }
}

/// The error when the hook ran and failed.
pub fn calibre_failed_message(request_id: &str) -> (r: String)
    ensures
        r@ == "calibre hook failed for request "@ + request_id@,
{
    concat("calibre hook failed for request ", request_id)
}

/// The error when the hook could not be started.
pub fn calibre_start_failed_message(request_id: &str) -> (r: String)
    ensures
        r@ == "failed to execute calibre hook for request "@ + request_id@,
{
    concat("failed to execute calibre hook for request ", request_id)
}

} // verus!
