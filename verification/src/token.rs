//! Signed, time-bounded session tokens.
//!
//! Signing and signature checking are jsonwebtoken's; the expiry decision —
//! the part that makes a token time-bounded — is made here, in verified
//! code, against a caller-supplied clock reading.

use jsonwebtoken::errors::ErrorKind;
use jsonwebtoken::{decode, Algorithm, DecodingKey};
use serde_json::Value;
use vstd::prelude::*;
use crate::model::TokenClaims;

verus! {

/// The encoded token that signing the claims `{sub, iat, exp}` with `secret`
/// produces: HS256 tokens are a deterministic function of those values.
pub uninterp spec fn token_of(sub: Seq<char>, iat: u64, exp: u64, secret: Seq<u8>) -> Seq<char>;

/// Whether `token` is a structurally well-formed HS256 token whose embedded
/// signature verifies under `secret`: the outcome of signature checking, a
/// function of the two values alone.
pub uninterp spec fn validly_signed(token: Seq<char>, secret: Seq<u8>) -> bool;

/// Why a presented token was rejected. The classes stay distinguishable here
/// for diagnostics and collapse into one failure before reaching a client.
#[derive(Clone, Copy, Debug, PartialEq, Eq, Structural)]
pub enum TokenError {
    /// The string is not structurally a token this codec accepts.
    Malformed,
    /// The signature does not verify under the given secret.
    BadSignature,
    /// The token's expiry is not in the future.
    Expired,
}

/// Relies on jsonwebtoken's `encode` with the default header: signs the
/// claims `{sub, iat, exp}` with HS256 keyed by `secret`. The encoding is a
/// deterministic function of the claims and the secret and carries a valid
/// signature under that secret. For HS256 `encode` has no failing path —
/// the key family matches the fixed header, HMAC accepts any key length,
/// and serializing these claims cannot error — so it returns the token
/// outright.
#[verifier::external_body]
fn encode_jwt(sub: &String, iat: u64, exp: u64, secret: &Vec<u8>) -> (r: String)
    ensures
        r@ == token_of(sub@, iat, exp, secret@),
        validly_signed(r@, secret@),
{
    let mut claims = serde_json::Map::new();
    claims.insert("sub".to_string(), serde_json::Value::String(sub.clone()));
    claims.insert("iat".to_string(), serde_json::Value::from(iat));
    claims.insert("exp".to_string(), serde_json::Value::from(exp));
    let key = jsonwebtoken::EncodingKey::from_secret(secret);
    jsonwebtoken::encode(&jsonwebtoken::Header::default(), &serde_json::Value::Object(claims), &key)
        .expect("HS256 signing has no failing path")
}

/// Decoding answered `r` for `token` under `secret`: whenever the token is
/// one this codec signed with that secret, the answer is exactly the claims
/// it was signed over.
pub open spec fn decode_round_trip(
    r: Result<TokenClaims, TokenError>,
    token: Seq<char>,
    secret: Seq<u8>,
) -> bool {
    forall|s: Seq<char>, i: u64, e: u64|
        token == #[trigger] token_of(s, i, e, secret)
            ==> (r matches Ok(c) && c.sub@ == s && c.iat == i && c.exp == e)
}

/// Relies on jsonwebtoken's `decode`, with its own expiry validation
/// switched off so the expiry decision stays in verified code: checks the
/// HS256 signature against `secret` and hands the claims back. A token this
/// codec signed with the same secret decodes to exactly the claims it was
/// signed over; it answers `Ok` only for a well-formed token whose
/// signature verifies under `secret`, and a failed signature check is
/// reported apart from a structural failure.
#[verifier::external_body]
fn decode_jwt(token: &String, secret: &Vec<u8>) -> (r: Result<TokenClaims, TokenError>)
    ensures
        decode_round_trip(r, token@, secret@),
        r is Ok ==> validly_signed(token@, secret@),
{
    let mut val = jsonwebtoken::Validation::new(Algorithm::HS256);
    val.validate_exp = false;
    let data = match decode::<Value>(token, &DecodingKey::from_secret(secret), &val) {
        Ok(d) => d.claims,
        Err(e) => return Err(if matches!(e.kind(), ErrorKind::InvalidSignature) { TokenError::BadSignature } else { TokenError::Malformed }),
    };
    match (data.get("sub").and_then(|v| v.as_str()), data.get("iat").and_then(|v| v.as_u64()), data.get("exp").and_then(|v| v.as_u64())) {
        (Some(s), Some(i), Some(e)) => Ok(TokenClaims { sub: s.to_string(), iat: i, exp: e }),
        _ => Err(TokenError::Malformed),
    }
}

/// Mints a token asserting `subject`, issued at `now` and expiring at
/// `now + ttl`, signed with `secret`.
pub fn issue(subject: &String, now: u64, ttl: u64, secret: &Vec<u8>) -> (r: String)
    requires
        now + ttl <= u64::MAX,
    ensures
        r@ == token_of(subject@, now, (now + ttl) as u64, secret@),
        validly_signed(r@, secret@),
{
    encode_jwt(subject, now, now + ttl, secret)
}

/// Verifies a presented token against `secret` at time `now` and returns its
/// subject.
///
/// A token issued over claims `(s, iat, exp)` with the same secret is
/// accepted, with subject `s`, exactly while `now < exp`; from `exp` on it
/// is rejected as `Expired`. A negative-duration token (`iat > exp`) is
/// never accepted.
pub fn verify(token: &String, now: u64, secret: &Vec<u8>) -> (r: Result<String, TokenError>)
    ensures
        forall|s: Seq<char>, i: u64, e: u64|
            token@ == #[trigger] token_of(s, i, e, secret@) && i <= e && now < e
                ==> (r matches Ok(sub) && sub@ == s),
        forall|s: Seq<char>, i: u64, e: u64|
            token@ == #[trigger] token_of(s, i, e, secret@) && i <= e && now >= e
                ==> r == Err::<String, TokenError>(TokenError::Expired),
        forall|s: Seq<char>, i: u64, e: u64|
            token@ == #[trigger] token_of(s, i, e, secret@) && i > e
                ==> r == Err::<String, TokenError>(TokenError::Malformed),
        r is Ok ==> validly_signed(token@, secret@),
{
    match decode_jwt(token, secret) {
        Ok(claims) => {
            if claims.iat > claims.exp {
                Err(TokenError::Malformed)
            } else if now >= claims.exp {
                Err(TokenError::Expired)
            } else {
                Ok(claims.sub)
            }
        },
        Err(e) => Err(e),
    }
}

} // verus!
