use vstd::prelude::*;

use crate::text::str_eq;

verus! {

/// Role of an account.
#[derive(Clone, Copy, Debug, PartialEq, Eq, Structural)]
pub enum UserRole {
    Admin,
    Trusted,
    Requester,
}

/// The role stored in the database under `value`, if any.
pub open spec fn role_from_db(value: Seq<char>) -> Option<UserRole> {
    if value == "admin"@ {
        Some(UserRole::Admin)
    } else if value == "trusted"@ {
        Some(UserRole::Trusted)
    } else if value == "requester"@ {
        Some(UserRole::Requester)
    } else {
        None
    }
}

/// The database text of a role.
pub open spec fn role_db_text(role: UserRole) -> Seq<char> {
    match role {
        UserRole::Admin => "admin"@,
        UserRole::Trusted => "trusted"@,
        UserRole::Requester => "requester"@,
    }
}

impl UserRole {
    pub fn from_db(value: &str) -> (r: Option<Self>)
        ensures
            r == role_from_db(value@),
    {
        if str_eq(value, "admin") {
            Some(UserRole::Admin)
        } else if str_eq(value, "trusted") {
            Some(UserRole::Trusted)
        } else if str_eq(value, "requester") {
            Some(UserRole::Requester)
        } else {
            None
        }
    }

    pub fn as_db(&self) -> (r: &'static str)
        ensures
            r@ == role_db_text(*self),
    {
        match self {
            UserRole::Admin => "admin",
            UserRole::Trusted => "trusted",
            UserRole::Requester => "requester",
        }
    }

    /// Admins and trusted users may have downloads dispatched without approval.
    pub fn can_auto_acquire(&self) -> (r: bool)
        ensures
            r == (*self == UserRole::Admin || *self == UserRole::Trusted),
    {
        match self {
            UserRole::Admin | UserRole::Trusted => true,
            UserRole::Requester => false,
        }
    }

    pub fn is_admin(&self) -> (r: bool)
        ensures
            r == (*self == UserRole::Admin),
    {
        match self {
            UserRole::Admin => true,
            _ => false,
        }
    }
}

impl Default for UserRole {
    fn default() -> (r: Self)
        ensures
            r == UserRole::Requester,
    {
        UserRole::Requester
    }
}

/// Reading back the stored text of a role gives the role again.
pub proof fn lemma_role_db_round_trip(role: UserRole)
    ensures
        role_from_db(role_db_text(role)) == Some(role),
{
    reveal_strlit("admin");
    reveal_strlit("trusted");
    reveal_strlit("requester");
    assert("admin"@[0] != "trusted"@[0]);
    assert("admin"@[0] != "requester"@[0]);
    assert("trusted"@[0] != "requester"@[0]);
}

#[derive(Clone, Debug, PartialEq, Eq)]
pub struct AuthUserRecord {
    pub id: String,
    pub username: String,
    pub role: UserRole,
}

#[derive(Clone, Debug, PartialEq, Eq)]
pub struct UserRecord {
    pub id: String,
    pub username: String,
    pub role: UserRole,
    pub disabled: bool,
    pub created_at: String,
}

#[derive(Clone, Debug, PartialEq, Eq)]
pub struct SessionRecord {
    pub id: String,
    pub user_id: String,
    pub expires_at: i64,
}

#[derive(Clone, Debug, Default, PartialEq, Eq)]
pub struct SetupRequest {
    pub username: String,
    pub password: String,
}

#[derive(Clone, Debug, Default, PartialEq, Eq)]
pub struct LoginRequest {
    pub username: String,
    pub password: String,
}

#[derive(Clone, Debug, Default, PartialEq, Eq)]
pub struct CreateUserRequest {
    pub username: String,
    pub password: String,
    pub role: UserRole,
}

#[derive(Clone, Debug, Default, PartialEq, Eq)]
pub struct UpdateUserRequest {
    pub role: Option<UserRole>,
    pub disabled: Option<bool>,
    pub password: Option<String>,
}

#[derive(Clone, Debug, PartialEq, Eq)]
pub struct AuthBootstrapStatus {
    pub setup_required: bool,
    pub authenticated_user: Option<AuthUserRecord>,
}

} // verus!
