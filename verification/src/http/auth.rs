//! Sessions: the cookie that carries them and who may do what.
use vstd::prelude::*;

use crate::domain::auth::{AuthUserRecord, UserRecord, UserRole};
use crate::http::error::AppError;
use crate::text::{
    chars_of, concat, copy_str, find, find_chars, occurs_at, is_ws, seq_eq, slice_chars, split, split_chars,
    string_from, trim, trim_chars,
};

verus! {

pub const SESSION_COOKIE_NAME: &'static str = "athena_session";

/// A session lasts thirty days.
pub const SESSION_TTL_SECONDS: i64 = 2592000;

/// `str::split_once('=')`: the text before and after the first `=`.
pub open spec fn split_once_eq(s: Seq<char>) -> Option<(Seq<char>, Seq<char>)> {
    match find(s, seq!['=']) {
        Some(i) => Some((s.take(i), s.skip(i + 1))),
        None => None,
    }
}

/// The value of the first cookie pair named `name` in a `Cookie` header:
/// pairs are `;` separated and trimmed, and split at their first `=`.
pub open spec fn cookie_value(pieces: Seq<Seq<char>>, name: Seq<char>) -> Option<Seq<char>>
    decreases pieces.len(),
{
    if pieces.len() == 0 {
        None
    } else {
        match split_once_eq(trim(pieces[0])) {
            Some((n, v)) => if n == name {
                Some(v)
            } else {
                cookie_value(pieces.drop_first(), name)
            },
            None => cookie_value(pieces.drop_first(), name),
        }
    }
}

/// The session id a `Cookie` header carries.
pub open spec fn session_id_spec(cookie_header: Seq<char>) -> Option<Seq<char>> {
    cookie_value(split(cookie_header, ';'), "athena_session"@)
}

pub fn session_id_from_cookie_header(cookie_header: &str) -> (r: Option<String>)
    ensures
        match r {
            Some(id) => session_id_spec(cookie_header@) == Some(id@),
            None => session_id_spec(cookie_header@) is None,
        },
{
    let pieces = split_chars(&chars_of(cookie_header), ';');
    let ghost pv = pieces@.map_values(|p: Vec<char>| p@);
    let name = chars_of(SESSION_COOKIE_NAME);
    proof {
        reveal_strlit("athena_session");
    }
    let eq = chars_of("=");
    proof {
        reveal_strlit("=");
        assert(eq@ =~= seq!['=']);
    }
    let mut i: usize = 0;
    assert(pv.skip(0) =~= pv);
    while i < pieces.len()
        invariant
            i <= pieces.len(),
            pv == pieces@.map_values(|p: Vec<char>| p@),
            pv == split(cookie_header@, ';'),
            name@ == "athena_session"@,
            eq@ == seq!['='],
            cookie_value(pv, "athena_session"@) == cookie_value(pv.skip(i as int), "athena_session"@),
        decreases pieces.len() - i,
    {
        assert(pv.skip(i as int).drop_first() =~= pv.skip(i + 1));
        assert(pv.skip(i as int)[0] == pieces@[i as int]@);
        let part = trim_chars(&pieces[i]);
        match find_chars(&part, &eq) {
            Some(k) => {
                assert(occurs_at(part@, eq@, k as int));
                assert(eq@.len() == 1);
                assert(k + 1 <= part.len());
                let n = slice_chars(&part, 0, k);
                assert(n@ =~= part@.take(k as int));
                if seq_eq(&n, &name) {
                    let v = slice_chars(&part, k + 1, part.len());
                    assert(v@ =~= part@.skip(k + 1));
                    return Some(string_from(&v));
                }
            },
            None => {},
        }
        i = i + 1;
    }
    assert(pv.skip(i as int) =~= Seq::<Seq<char>>::empty());
    None
}

/// The `Set-Cookie` value that starts a session.
pub open spec fn session_cookie_spec(session_id: Seq<char>) -> Seq<char> {
    "athena_session="@ + session_id + "; Path=/; HttpOnly; SameSite=Lax; Max-Age=2592000"@
}

pub fn session_cookie_value(session_id: &str) -> (r: String)
    ensures
        r@ == session_cookie_spec(session_id@),
{
    let a = concat("athena_session=", session_id);
    concat(a.as_str(), "; Path=/; HttpOnly; SameSite=Lax; Max-Age=2592000")
}

/// The `Set-Cookie` value that ends a session.
pub fn clear_session_cookie_value() -> (r: String)
    ensures
        r@ == "athena_session=; Path=/; HttpOnly; SameSite=Lax; Max-Age=0"@,
{
    copy_str("athena_session=; Path=/; HttpOnly; SameSite=Lax; Max-Age=0")
}

/// The signed-in user, required.
pub fn require_user(user: Option<AuthUserRecord>) -> (r: Result<AuthUserRecord, AppError>)
    ensures
        match r {
            Ok(u) => user == Some(u),
            Err(e) => user is None && (e matches AppError::Unauthorized(m) && m@ == "login required"@),
        },
{
    match user {
        Some(u) => Ok(u),
        None => Err(AppError::Unauthorized(copy_str("login required"))),
    }
}

/// An admin is required. Before the first admin exists everyone acts as the
/// bootstrap admin; afterwards the signed-in user must be an admin.
pub fn require_admin(setup_required: bool, user: Option<AuthUserRecord>) -> (r: Result<
    AuthUserRecord,
    AppError,
>)
    ensures
        match r {
            Ok(u) => if setup_required {
                u.id@ == "bootstrap-admin"@ && u.username@ == "bootstrap-admin"@ && u.role
                    == UserRole::Admin
            } else {
                user == Some(u) && u.role == UserRole::Admin
            },
            Err(e) => !setup_required && match user {
                None => e matches AppError::Unauthorized(m) && m@ == "login required"@,
                Some(u) => u.role != UserRole::Admin && (e matches AppError::Forbidden(m) && m@
                    == "admin access required"@),
            },
        },
{
    if setup_required {
        return Ok(
            AuthUserRecord {
                id: copy_str("bootstrap-admin"),
                username: copy_str("bootstrap-admin"),
                role: UserRole::Admin,
            },
        );
    }
    let u = require_user(user)?;
    if !u.role.is_admin() {
        return Err(AppError::Forbidden(copy_str("admin access required")));
    }
    Ok(u)
}

/// A user as the signed-in identity.
pub fn user_to_auth_user(user: UserRecord) -> (r: AuthUserRecord)
    ensures
        r.id == user.id,
        r.username == user.username,
        r.role == user.role,
{
    AuthUserRecord { id: user.id, username: user.username, role: user.role }
}

// ---------------------------------------------------------------------------
// Laws
// ---------------------------------------------------------------------------

/// The cookie a session is started with gives back the session id, as long
/// as the id holds no `;` and does not end in whitespace.
pub proof fn lemma_session_cookie_round_trip(session_id: Seq<char>)
    requires
        forall|i: int| 0 <= i < session_id.len() ==> #[trigger] session_id[i] != ';',
        session_id.len() == 0 || !is_ws(session_id.last()),
    ensures
        session_id_spec(session_cookie_spec(session_id)) == Some(session_id),
{
    reveal_strlit("athena_session=");
    reveal_strlit("; Path=/; HttpOnly; SameSite=Lax; Max-Age=2592000");
    reveal_strlit("athena_session");
    let head = "athena_session="@ + session_id;
    let rest = "; Path=/; HttpOnly; SameSite=Lax; Max-Age=2592000"@;
    let s = session_cookie_spec(session_id);
    assert(s == head + rest);
    assert forall|i: int| 0 <= i < head.len() implies #[trigger] head[i] != ';' by {
        if i >= 15 {
            assert(head[i] == session_id[i - 15]);
        }
    }
    crate::text::lemma_split_first_piece(head, rest, ';');
    let first = split(s, ';')[0];
    assert(first == head);
    // the first piece is already trimmed
    assert(head[0] == 'a');
    assert(!is_ws(head[0]));
    assert(!is_ws(head.last())) by {
        if session_id.len() == 0 {
            assert(head.last() == '=');
        } else {
            assert(head.last() == session_id.last());
        }
    }
    crate::text::lemma_trim_unchanged(head);
    // it splits at the `=` after the name
    assert(head[14] == '=');
    assert forall|j: int| 0 <= j < 14 implies head[j] != '=' by {}
    crate::text::lemma_find_first_char(head, '=', 14);
    assert(head.take(14) =~= "athena_session"@);
    assert(head.skip(15) =~= session_id);
}

} // verus!
