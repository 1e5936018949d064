//! The sign-in and user administration API.
use vstd::prelude::*;

use crate::http::error::AppError;
use crate::text::{concat, copy_str};

verus! {

/// A sign-in that matches no user.
pub fn invalid_login() -> (r: AppError)
    ensures
        r matches AppError::Unauthorized(m) && m@ == "invalid username or password"@,
{
    AppError::Unauthorized(copy_str("invalid username or password"))
}

/// The refusal for an unknown user.
pub fn user_not_found(id: &str) -> (r: AppError)
    ensures
        r matches AppError::NotFound(m) && m@ == "user "@ + id@ + " not found"@,
{
    let a = concat("user ", id);
    AppError::NotFound(concat(a.as_str(), " not found"))
}

} // verus!
