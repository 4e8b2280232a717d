use auth_core::flows::{
    login, register, session_gate, GateOutcome, LoginOutcome, RegisterOutcome,
};
use auth_core::model::{LoginUserSchema, RegisterUserSchema};
use auth_core::repo::Repo;
use auth_core::response::{filter_user_record, logout_cookie, session_cookie, user_response};
use auth_core::TOKEN_TTL_SECS;

fn reg(name: &str, email: &str, password: &str, confirmation: &str) -> RegisterUserSchema {
    RegisterUserSchema {
        name: name.to_string(),
        email: email.to_string(),
        password: password.to_string(),
        password_confirmation: confirmation.to_string(),
    }
}

fn creds(email: &str, password: &str) -> LoginUserSchema {
    LoginUserSchema { email: email.to_string(), password: password.to_string() }
}

fn secret() -> Vec<u8> {
    b"test-signing-secret".to_vec()
}

#[test]
fn registration_returns_identity_without_hash() {
    let mut repo = Repo::new();
    let outcome = register(&mut repo, &reg("Ann", "Ann@X.com", "secret1", "secret1"), 100);
    match outcome {
        RegisterOutcome::Success(fu) => {
            assert_eq!(fu.id, "0");
            assert_eq!(fu.name, "Ann");
            assert_eq!(fu.email, "ann@x.com");
            assert_eq!(fu.role, "user");
            assert!(!fu.verified);
            assert_eq!(fu.createdAt, 100);
            assert_eq!(fu.updatedAt, 100);
        }
        _ => panic!("registration of a fresh valid input must succeed"),
    }
}

#[test]
fn registration_rejects_invalid_input_without_touching_storage() {
    let mut repo = Repo::new();
    let outcome = register(&mut repo, &reg("", "nope", "a", "b"), 100);
    match outcome {
        RegisterOutcome::Invalid(errors) => assert_eq!(errors.len(), 3),
        _ => panic!("invalid input must be rejected field by field"),
    }
    // nothing was stored
    assert!(repo.find_by_email(&"nope".to_string()).is_none());
}

#[test]
fn second_registration_of_same_normalized_email_conflicts() {
    let mut repo = Repo::new();
    let first = register(&mut repo, &reg("Ann", "Ann@X.com", "secret1", "secret1"), 100);
    assert!(matches!(first, RegisterOutcome::Success(_)));
    // differently-cased spelling of the same normalized email
    let second = register(&mut repo, &reg("Ann again", "ANN@x.COM", "secret2", "secret2"), 200);
    assert!(matches!(second, RegisterOutcome::EmailConflict));
    assert_eq!(
        second.conflict_message().as_deref(),
        Some("email_conflict")
    );
}

#[test]
fn login_failures_are_observably_identical() {
    let mut repo = Repo::new();
    register(&mut repo, &reg("Ann", "ann@x.com", "secret1", "secret1"), 100);
    let now: u64 = 1_000_000;
    let unknown = login(&repo, &creds("nobody@x.com", "whatever"), now, &secret());
    let wrong = login(&repo, &creds("ann@x.com", "wrong-password"), now, &secret());
    assert!(matches!(unknown, LoginOutcome::IncorrectCredentials));
    assert!(matches!(wrong, LoginOutcome::IncorrectCredentials));
    assert_eq!(unknown.failure_message(), wrong.failure_message());
    assert_eq!(
        unknown.failure_message().as_deref(),
        Some("incorrect_email_or_password")
    );
}

#[test]
fn end_to_end_session() {
    let mut repo = Repo::new();
    let now: u64 = 1_700_000_000;

    // register with a mixed-case email; the returned identity is normalized
    let registered = register(&mut repo, &reg("Ann", "Ann@X.com", "secret1", "secret1"), now);
    let identity = match registered {
        RegisterOutcome::Success(fu) => fu,
        _ => panic!("registration must succeed"),
    };
    assert_eq!(identity.email, "ann@x.com");

    // login with the same credentials mints a token for that account
    let logged_in = login(&repo, &creds("Ann@X.com", "secret1"), now, &secret());
    let token = match logged_in {
        LoginOutcome::Success(token) => token,
        _ => panic!("login with correct credentials must succeed"),
    };

    // gating resolves the token to Ann's account
    match session_gate(&repo, Some(&token), now + 60, &secret()) {
        GateOutcome::Admitted(user) => {
            assert_eq!(user.email, "ann@x.com");
            assert_eq!(user.name, "Ann");
            assert_eq!(auth_core::digits::u64_to_dec(user.id), identity.id);
        }
        _ => panic!("a fresh token must be admitted"),
    }

    // 61 minutes later the same token is rejected as expired
    let later = now + 61 * 60;
    let expired = session_gate(&repo, Some(&token), later, &secret());
    assert!(matches!(expired, GateOutcome::InvalidOrExpiredToken));
    assert_eq!(
        expired.rejection_message().as_deref(),
        Some("invalid_or_expired_token")
    );
}

#[test]
fn gate_rejections_by_cause() {
    let mut repo = Repo::new();
    let now: u64 = 1_700_000_000;
    register(&mut repo, &reg("Ann", "ann@x.com", "secret1", "secret1"), now);

    let missing = session_gate(&repo, None, now, &secret());
    assert!(matches!(missing, GateOutcome::MissingToken));
    assert_eq!(missing.rejection_message().as_deref(), Some("missing_token"));

    let garbage = String::from("not-a-token");
    let invalid = session_gate(&repo, Some(&garbage), now, &secret());
    assert!(matches!(invalid, GateOutcome::InvalidOrExpiredToken));

    let other_secret = b"another-secret".to_vec();
    let token = match login(&repo, &creds("ann@x.com", "secret1"), now, &other_secret) {
        LoginOutcome::Success(token) => token,
        _ => panic!("login must succeed"),
    };
    let forged = session_gate(&repo, Some(&token), now, &secret());
    assert!(matches!(forged, GateOutcome::InvalidOrExpiredToken));

    // a valid token whose subject no longer resolves: issue for an account
    // that was never stored
    let stray = auth_core::token::issue(&String::from("999"), now, 3600, &secret());
    let unresolved = session_gate(&repo, Some(&stray), now, &secret());
    assert!(matches!(unresolved, GateOutcome::UserNotFound));
    assert_eq!(unresolved.rejection_message().as_deref(), Some("user_not_found"));

    // admission carries no message
    let token = match login(&repo, &creds("ann@x.com", "secret1"), now, &secret()) {
        LoginOutcome::Success(token) => token,
        _ => panic!("login must succeed"),
    };
    let admitted = session_gate(&repo, Some(&token), now, &secret());
    assert!(admitted.rejection_message().is_none());
}

#[test]
fn identity_response_shape() {
    let mut repo = Repo::new();
    let now: u64 = 1_700_000_000;
    register(&mut repo, &reg("Ann", "ann@x.com", "secret1", "secret1"), now);
    let account = repo.find_by_id(0).expect("missing account");
    let response = user_response(filter_user_record(&account));
    assert_eq!(response.status, "success");
    assert_eq!(response.data.user.email, "ann@x.com");
    assert_eq!(response.data.user.id, "0");
}

#[test]
fn cookie_contract_matches_token_ttl() {
    let token = String::from("some-token");
    let cookie = session_cookie(&token);
    assert_eq!(cookie.name, "token");
    assert_eq!(cookie.value, "some-token");
    assert_eq!(cookie.path, "/");
    assert_eq!(cookie.max_age_secs, TOKEN_TTL_SECS as i64);
    assert_eq!(cookie.max_age_secs, 3600);
    assert!(cookie.http_only);

    let clearing = logout_cookie();
    assert_eq!(clearing.name, "token");
    assert_eq!(clearing.value, "");
    assert_eq!(clearing.path, "/");
    assert_eq!(clearing.max_age_secs, -1);
    assert!(clearing.http_only);
}
