//! Structural validation and normalization of registration input.

use vstd::prelude::*;
use crate::model::RegisterUserSchema;

verus! {

/// Whether a string is a well-formed email address: the outcome of the
/// HTML5-style check the validator crate makes, a function of the string
/// alone.
pub uninterp spec fn is_email(s: Seq<char>) -> bool;

/// The case-folded form of a string, as Unicode lowercasing gives it: a
/// function of the characters alone.
pub uninterp spec fn lower_of(s: Seq<char>) -> Seq<char>;

/// Relies on validator's `validate_email`: the HTML5 email grammar, a
/// function of the string alone.
#[verifier::external_body]
fn email_format_ok(s: &String) -> (r: bool)
    ensures
        r == is_email(s@),
{
    validator::validate_email(s.as_str())
}

/// Relies on `str::to_lowercase`: the result depends on the characters
/// alone, and an empty string stays empty.
#[verifier::external_body]
pub(crate) fn lowercase(s: &String) -> (r: String)
    ensures
        r@ == lower_of(s@),
        s@.len() == 0 ==> r@.len() == 0,
{
    s.to_lowercase()
}

/// One field-level failure of registration input: a closed set, mapped to
/// (field, message) pairs at the boundary.
#[derive(Clone, Copy, Debug, PartialEq, Eq, Structural)]
pub enum ValidationError {
    NameEmpty,
    EmailInvalid,
    PasswordEmpty,
    PasswordMismatch,
}

/// The failures a registration input earns, in a fixed order: empty name,
/// ill-formed email, empty password, password differing from its
/// confirmation.
pub open spec fn validation_errors_spec(s: RegisterUserSchema) -> Seq<ValidationError> {
    let none = Seq::<ValidationError>::empty();
    (if s.name@.len() == 0 {
        seq![ValidationError::NameEmpty]
    } else {
        none
    }) + (if !is_email(s.email@) {
        seq![ValidationError::EmailInvalid]
    } else {
        none
    }) + (if s.password@.len() == 0 {
        seq![ValidationError::PasswordEmpty]
    } else {
        none
    }) + (if s.password@ != s.password_confirmation@ {
        seq![ValidationError::PasswordMismatch]
    } else {
        none
    })
}

/// Checks a registration input and returns its failures, empty exactly when
/// the input is valid. Touches no storage.
pub fn validate_registration(s: &RegisterUserSchema) -> (r: Vec<ValidationError>)
    ensures
        r@ == validation_errors_spec(*s),
{
    let mut r: Vec<ValidationError> = Vec::new();
    if s.name.as_str().is_empty() {
        r.push(ValidationError::NameEmpty);
    }
    if !email_format_ok(&s.email) {
        r.push(ValidationError::EmailInvalid);
    }
    if s.password.as_str().is_empty() {
        r.push(ValidationError::PasswordEmpty);
    }
    if !(s.password == s.password_confirmation) {
        r.push(ValidationError::PasswordMismatch);
    }
    proof {
        assert(r@ =~= validation_errors_spec(*s));
    }
    r
}

} // verus!
