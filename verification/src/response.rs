//! Client-facing projections of an account and the session cookie contract.

use vstd::prelude::*;
use crate::TOKEN_TTL_SECS;
use crate::digits::{dec_str, u64_to_dec};
use crate::model::User;

verus! {

/// The subset of an account safe to return to a client. Derived, never
/// stored, and by construction it carries no credential hash.
#[allow(non_snake_case)]
pub struct FilteredUser {
    pub id: String,
    pub name: String,
    pub email: String,
    pub role: String,
    pub verified: bool,
    pub createdAt: u64,
    pub updatedAt: u64,
}

/// Field-by-field agreement of a projection with an account record: same
/// data, the identifier rendered in decimal, and nothing else.
pub open spec fn filtered_of(fu: FilteredUser, u: User) -> bool {
    &&& fu.id@ == dec_str(u.id as nat)
    &&& fu.name@ == u.name@
    &&& fu.email@ == u.email@
    &&& fu.role@ == u.role@
    &&& fu.verified == u.verified
    &&& fu.createdAt == u.created_at
    &&& fu.updatedAt == u.updated_at
}

/// Projects an account to its public view; the credential hash is dropped.
pub fn filter_user_record(user: &User) -> (r: FilteredUser)
    ensures
        filtered_of(r, *user),
{
    FilteredUser {
        id: u64_to_dec(user.id),
        name: user.name.clone(),
        email: user.email.clone(),
        role: user.role.clone(),
        verified: user.verified,
        createdAt: user.created_at,
        updatedAt: user.updated_at,
    }
}

/// The payload of a successful identity response.
pub struct UserData {
    pub user: FilteredUser,
}

/// The body of a successful identity response.
pub struct UserResponse {
    pub status: String,
    pub data: UserData,
}

/// Wraps a projection in the success-response shape.
pub fn user_response(user: FilteredUser) -> (r: UserResponse)
    ensures
        r.status@ == "success"@,
        r.data.user == user,
{
    UserResponse { status: String::from_str("success"), data: UserData { user } }
}

/// What the boundary must set on the client: a cookie named "token" on path
/// "/", HTTP-only, with a max-age in seconds (negative: expire at once).
pub struct SessionCookie {
    pub name: String,
    pub value: String,
    pub path: String,
    pub max_age_secs: i64,
    pub http_only: bool,
}

/// The cookie carrying a fresh session token. Its max-age equals the
/// token's time to live, so client-side expiry and token expiry agree.
pub fn session_cookie(token: &String) -> (c: SessionCookie)
    ensures
        c.name@ == "token"@,
        c.value@ == token@,
        c.path@ == "/"@,
        c.max_age_secs == TOKEN_TTL_SECS as i64,
        c.http_only,
{
    SessionCookie {
        name: String::from_str("token"),
        value: token.clone(),
        path: String::from_str("/"),
        max_age_secs: TOKEN_TTL_SECS as i64,
        http_only: true,
    }
}

/// The cookie that clears the client-held token at logout: same name and
/// path, empty value, immediate expiry. Logout only discards the client's
/// copy; the token itself stays valid until it expires.
pub fn logout_cookie() -> (c: SessionCookie)
    ensures
        c.name@ == "token"@,
        c.value@.len() == 0,
        c.path@ == "/"@,
        c.max_age_secs == -1,
        c.http_only,
{
    SessionCookie {
        name: String::from_str("token"),
        value: String::new(),
        path: String::from_str("/"),
        max_age_secs: -1,
        http_only: true,
    }
}

} // verus!
