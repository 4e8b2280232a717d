//! Verified core of a web-API authentication service: credential hashing and
//! verification, time-bounded session tokens, registration and login flows,
//! and the request gate that resolves a token into an authenticated account.

use vstd::prelude::*;

pub mod digits;
pub mod flows;
pub mod hasher;
pub mod model;
pub mod repo;
pub mod response;
pub mod token;
pub mod validate;

verus! {

/// Seconds a freshly issued session token stays valid; the session cookie's
/// max-age must equal this so client-side expiry and token expiry agree.
pub const TOKEN_TTL_SECS: u64 = 3600;

} // verus!
