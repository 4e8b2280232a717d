//! The data the authentication core works on: stored accounts, the fields a
//! new account is created from, token claims, and the submitted schemas.

use vstd::prelude::*;

verus! {

/// A stored account record. `password` holds the encoded credential hash,
/// never the raw password.
pub struct User {
    pub id: u64,
    pub name: String,
    pub email: String,
    pub password: String,
    pub role: String,
    pub verified: bool,
    pub created_at: u64,
    pub updated_at: u64,
}

/// What the repository needs to create an account; the identifier, role,
/// flag and timestamps are set by the store.
pub struct NewUser {
    pub name: String,
    pub email: String,
    pub password: String,
}

/// The claims a session token is signed over: subject, issued-at and
/// expires-at, timestamps in seconds.
pub struct TokenClaims {
    pub sub: String,
    pub iat: u64,
    pub exp: u64,
}

/// The submitted registration input.
pub struct RegisterUserSchema {
    pub name: String,
    pub email: String,
    pub password: String,
    pub password_confirmation: String,
}

/// The submitted login input.
pub struct LoginUserSchema {
    pub email: String,
    pub password: String,
}

/// Field-for-field agreement of two account records, up to string contents.
pub open spec fn user_eqv(a: User, b: User) -> bool {
    &&& a.id == b.id
    &&& a.name@ == b.name@
    &&& a.email@ == b.email@
    &&& a.password@ == b.password@
    &&& a.role@ == b.role@
    &&& a.verified == b.verified
    &&& a.created_at == b.created_at
    &&& a.updated_at == b.updated_at
}

impl User {
    /// An owned copy of the record, field for field.
    pub fn duplicate(&self) -> (r: User)
        ensures
            user_eqv(r, *self),
    {
        User {
            id: self.id,
            name: self.name.clone(),
            email: self.email.clone(),
            password: self.password.clone(),
            role: self.role.clone(),
            verified: self.verified,
            created_at: self.created_at,
            updated_at: self.updated_at,
        }
    }
}

} // verus!
