use auth_core::model::RegisterUserSchema;
use auth_core::validate::{validate_registration, ValidationError};

fn schema(name: &str, email: &str, password: &str, confirmation: &str) -> RegisterUserSchema {
    RegisterUserSchema {
        name: name.to_string(),
        email: email.to_string(),
        password: password.to_string(),
        password_confirmation: confirmation.to_string(),
    }
}

#[test]
fn valid_input_has_no_errors() {
    let errors = validate_registration(&schema("Ann", "ann@example.com", "secret1", "secret1"));
    assert!(errors.is_empty());
}

#[test]
fn empty_name_is_reported() {
    let errors = validate_registration(&schema("", "ann@example.com", "secret1", "secret1"));
    assert_eq!(errors, vec![ValidationError::NameEmpty]);
}

#[test]
fn ill_formed_email_is_reported() {
    let errors = validate_registration(&schema("Ann", "not-an-email", "secret1", "secret1"));
    assert_eq!(errors, vec![ValidationError::EmailInvalid]);
    let errors = validate_registration(&schema("Ann", "a@", "secret1", "secret1"));
    assert_eq!(errors, vec![ValidationError::EmailInvalid]);
}

#[test]
fn empty_password_is_reported() {
    let errors = validate_registration(&schema("Ann", "ann@example.com", "", ""));
    assert_eq!(errors, vec![ValidationError::PasswordEmpty]);
}

#[test]
fn mismatched_confirmation_is_reported() {
    let errors = validate_registration(&schema("Ann", "ann@example.com", "secret1", "secret2"));
    assert_eq!(errors, vec![ValidationError::PasswordMismatch]);
}

#[test]
fn failures_accumulate_in_order() {
    let errors = validate_registration(&schema("", "nope", "", "different"));
    assert_eq!(
        errors,
        vec![
            ValidationError::NameEmpty,
            ValidationError::EmailInvalid,
            ValidationError::PasswordEmpty,
            ValidationError::PasswordMismatch,
        ]
    );
}
