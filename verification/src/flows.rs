//! The authentication flows: registration, login, and the session gate that
//! resolves a presented token into an authenticated account.

use vstd::prelude::*;
use crate::TOKEN_TTL_SECS;
use crate::digits::{dec_str, dec_to_u64, lemma_dec_str_injective, u64_to_dec};
use crate::hasher::{get_password_hash, hash_matches, verify_password};
use crate::model::{LoginUserSchema, NewUser, RegisterUserSchema, User, user_eqv};
use crate::repo::{Repo, RepoError};
use crate::response::{FilteredUser, filter_user_record, filtered_of};
use crate::token::{TokenError, issue, token_of, validly_signed, verify};
use crate::validate::{ValidationError, lower_of, lowercase, validate_registration,
    validation_errors_spec};

verus! {

/// What registration ends in; each case maps to one fixed response shape.
pub enum RegisterOutcome {
    /// The created account's public view.
    Success(FilteredUser),
    /// Per-field failures; storage was not touched.
    Invalid(Vec<ValidationError>),
    /// The normalized email is already registered ("email_conflict").
    EmailConflict,
    /// Hashing or storage failed; no detail is leaked.
    ServerError,
}

impl RegisterOutcome {
    /// The message a conflict surfaces to the client.
    pub fn conflict_message(&self) -> (r: Option<String>)
        ensures
            r is Some <==> self is EmailConflict,
            r matches Some(m) ==> m@ == "email_conflict"@,
    {
        match self {
            RegisterOutcome::EmailConflict => Some(String::from_str("email_conflict")),
            _ => None,
        }
    }
}

/// The transition a successful registration makes: exactly one account
/// appended, holding the normalized email, the submitted name, a hash
/// matching the submitted password, the default role "user", the unverified
/// flag, both timestamps at `now`, and the store's next fresh identifier;
/// `fu` is that account's public view.
pub open spec fn register_success(
    r0: Repo,
    r1: Repo,
    s: RegisterUserSchema,
    now: u64,
    fu: FilteredUser,
) -> bool {
    let u = r1.accounts().last();
    &&& r1.accounts() == r0.accounts().push(u)
    &&& u.email@ == lower_of(s.email@)
    &&& u.name@ == s.name@
    &&& hash_matches(s.password@, u.password@)
    &&& u.password@.len() >= 1 && u.password@[0] == '$'
    &&& u.role@ == "user"@
    &&& u.verified == false
    &&& u.created_at == now
    &&& u.updated_at == now
    &&& u.id == r0.next_id_spec()
    &&& r1.next_id_spec() == r0.next_id_spec() + 1
    &&& filtered_of(fu, u)
}

/// Registration: validates the input, normalizes the email, rejects
/// duplicates, hashes the password, and stores the account.
///
/// Every valid input whose normalized email is fresh succeeds (while
/// identifiers remain and the password is shorter than the hasher's
/// four-gibibyte bound), and the returned identity is the stored account's
/// public view, which carries no credential hash.
pub fn register(repo: &mut Repo, schema: &RegisterUserSchema, now: u64) -> (r: RegisterOutcome)
    requires
        old(repo).wf(),
    ensures
        final(repo).wf(),
        ({
            let errs = validation_errors_spec(*schema);
            let norm = lower_of(schema.email@);
            &&& (errs.len() > 0 ==> r is Invalid)
            &&& (r matches RegisterOutcome::Invalid(v) ==> errs.len() > 0 && v@ == errs
                && *final(repo) == *old(repo))
            &&& (errs.len() == 0 && old(repo).contains_email(norm) ==> r is EmailConflict)
            &&& (r is EmailConflict ==> errs.len() == 0 && old(repo).contains_email(norm)
                && *final(repo) == *old(repo))
            &&& (errs.len() == 0 && !old(repo).contains_email(norm) && old(repo).next_id_spec()
                < u64::MAX && schema.password@.len() < 0x4000_0000 ==> r is Success)
            &&& (r is ServerError ==> errs.len() == 0 && !old(repo).contains_email(norm)
                && *final(repo) == *old(repo))
            &&& (r matches RegisterOutcome::Success(fu) ==> errs.len() == 0 && !old(
                repo,
            ).contains_email(norm) && register_success(*old(repo), *final(repo), *schema, now, fu))
        }),
{
    let errors = validate_registration(schema);
    if errors.len() > 0 {
        return RegisterOutcome::Invalid(errors);
    }
    let norm = lowercase(&schema.email);
    if repo.find_by_email(&norm).is_some() {
        return RegisterOutcome::EmailConflict;
    }
    let hashed = match get_password_hash(&schema.password) {
        Some(h) => h,
        None => {
            return RegisterOutcome::ServerError;
        },
    };
    let nu = NewUser { name: schema.name.clone(), email: norm, password: hashed };
    match repo.insert(nu, now) {
        Ok(u) => RegisterOutcome::Success(filter_user_record(&u)),
        Err(_) => RegisterOutcome::ServerError,
    }
}

/// Law: registering the same normalized email twice yields exactly one
/// success and one conflict, never two successes. After any successful
/// registration the normalized email is stored, and `register` answers a
/// stored normalized email with `EmailConflict` (and a success requires it
/// fresh), so a second attempt with the same normalized email cannot
/// succeed.
pub proof fn lemma_duplicate_registration_conflicts(
    r0: Repo,
    r1: Repo,
    s1: RegisterUserSchema,
    s2: RegisterUserSchema,
    now: u64,
    fu: FilteredUser,
)
    requires
        register_success(r0, r1, s1, now, fu),
        lower_of(s2.email@) == lower_of(s1.email@),
    ensures
        r1.contains_email(lower_of(s2.email@)),
{
    let n = r1.accounts().len() - 1;
    assert(r1.accounts()[n] == r1.accounts().last());
    assert(r1.accounts()[n].email@ == lower_of(s2.email@));
}

/// What login ends in; failures are indistinguishable on purpose.
pub enum LoginOutcome {
    /// A fresh session token, to be set both in the body and as the
    /// session cookie.
    Success(String),
    /// Unknown email or wrong password — one outcome for both
    /// ("incorrect_email_or_password").
    IncorrectCredentials,
}

impl LoginOutcome {
    /// The uniform message a credential failure surfaces to the client.
    pub fn failure_message(&self) -> (r: Option<String>)
        ensures
            r is Some <==> self is IncorrectCredentials,
            r matches Some(m) ==> m@ == "incorrect_email_or_password"@,
    {
        match self {
            LoginOutcome::IncorrectCredentials => Some(
                String::from_str("incorrect_email_or_password"),
            ),
            _ => None,
        }
    }
}

/// Whether the submitted credentials match a stored account: some record
/// holds the normalized email and its stored hash matches the password.
pub open spec fn credentials_ok(repo: Repo, email_norm: Seq<char>, password: Seq<char>) -> bool {
    exists|i: int|
        0 <= i < repo.accounts().len() && (#[trigger] repo.accounts()[i]).email@ == email_norm
            && hash_matches(password, repo.accounts()[i].password@)
}

/// Login: looks up the account under the normalized email, verifies the
/// password against its stored hash, and mints a session token for the
/// account's identifier with the fixed time to live.
///
/// Succeeds exactly when some stored account holds the normalized email
/// and its hash matches the password; a missing account and a wrong
/// password end in the same outcome, and nothing distinguishes them to the
/// caller.
pub fn login(repo: &Repo, schema: &LoginUserSchema, now: u64, secret: &Vec<u8>) -> (r: LoginOutcome)
    requires
        repo.wf(),
        now + TOKEN_TTL_SECS <= u64::MAX,
    ensures
        ({
            let norm = lower_of(schema.email@);
            &&& (r is IncorrectCredentials <==> !credentials_ok(
                *repo,
                norm,
                schema.password@,
            ))
            &&& (r is Success <==> credentials_ok(*repo, norm, schema.password@))
            &&& (r matches LoginOutcome::Success(t) ==> t@ == token_of(
                dec_str(repo.account_by_email(norm).id as nat),
                now,
                (now + TOKEN_TTL_SECS) as u64,
                secret@,
            ) && validly_signed(t@, secret@))
        }),
{
    let norm = lowercase(&schema.email);
    let found = repo.find_by_email(&norm);
    match found {
        None => {
            proof {
                assert forall|i: int|
                    !(0 <= i < repo.accounts().len() && (#[trigger] repo.accounts()[i]).email@
                        == norm@ && hash_matches(
                        schema.password@,
                        repo.accounts()[i].password@,
                    )) by {
                    if 0 <= i < repo.accounts().len() && repo.accounts()[i].email@ == norm@ {
                        assert(repo.contains_email(norm@));
                    }
                }
            }
            LoginOutcome::IncorrectCredentials
        },
        Some(u) => {
            proof {
                let k = choose|k: int|
                    0 <= k < repo.accounts().len() && (#[trigger] repo.accounts()[k]).email@
                        == norm@;
                assert(user_eqv(u, repo.accounts()[k]));
            }
            if verify_password(&schema.password, &u.password) {
                let subject = u64_to_dec(u.id);
                proof {
                    let k = choose|k: int|
                        0 <= k < repo.accounts().len() && (#[trigger] repo.accounts()[k]).email@
                            == norm@;
                    assert(hash_matches(schema.password@, repo.accounts()[k].password@));
                    assert(credentials_ok(*repo, norm@, schema.password@));
                }
                LoginOutcome::Success(issue(&subject, now, TOKEN_TTL_SECS, secret))
            } else {
                proof {
                    let k = choose|k: int|
                        0 <= k < repo.accounts().len() && (#[trigger] repo.accounts()[k]).email@
                            == norm@;
                    assert forall|i: int|
                        !(0 <= i < repo.accounts().len() && (#[trigger] repo.accounts()[i]).email@
                            == norm@ && hash_matches(
                            schema.password@,
                            repo.accounts()[i].password@,
                        )) by {
                        if 0 <= i < repo.accounts().len() && repo.accounts()[i].email@ == norm@ {
                            if i < k {
                                assert(repo.accounts()[i].email@ != repo.accounts()[k].email@);
                            }
                            if k < i {
                                assert(repo.accounts()[k].email@ != repo.accounts()[i].email@);
                            }
                            assert(i == k);
                        }
                    }
                }
                LoginOutcome::IncorrectCredentials
            }
        },
    }
}

/// Law: a login with an unknown email and a login with a known email but a
/// wrong password fall in the same case of `login`'s contract — neither
/// input satisfies `credentials_ok` — so both end in the
/// `IncorrectCredentials` outcome, observably identical to the client.
pub proof fn lemma_login_failures_uniform(
    repo: Repo,
    e1: Seq<char>,
    p1: Seq<char>,
    e2: Seq<char>,
    p2: Seq<char>,
)
    requires
        repo.wf(),
        !repo.contains_email(e1),
        repo.contains_email(e2),
        !hash_matches(p2, repo.account_by_email(e2).password@),
    ensures
        !credentials_ok(repo, e1, p1),
        !credentials_ok(repo, e2, p2),
{
    assert forall|i: int|
        !(0 <= i < repo.accounts().len() && (#[trigger] repo.accounts()[i]).email@ == e1
            && hash_matches(p1, repo.accounts()[i].password@)) by {
        if 0 <= i < repo.accounts().len() && repo.accounts()[i].email@ == e1 {
            assert(repo.contains_email(e1));
        }
    }
    let k = choose|k: int|
        0 <= k < repo.accounts().len() && (#[trigger] repo.accounts()[k]).email@ == e2;
    assert forall|i: int|
        !(0 <= i < repo.accounts().len() && (#[trigger] repo.accounts()[i]).email@ == e2
            && hash_matches(p2, repo.accounts()[i].password@)) by {
        if 0 <= i < repo.accounts().len() && repo.accounts()[i].email@ == e2 {
            if i < k {
                assert(repo.accounts()[i].email@ != repo.accounts()[k].email@);
            }
            if k < i {
                assert(repo.accounts()[k].email@ != repo.accounts()[i].email@);
            }
            assert(i == k);
        }
    }
}

/// How a request leaves gating: admitted with the resolved account, or
/// one of three rejections, a uniform failure shape distinguishable only by
/// message.
pub enum GateOutcome {
    /// The resolved account, attached for downstream handlers.
    Admitted(User),
    /// No token came with the request ("missing_token").
    MissingToken,
    /// The token failed to decode or verify, or is expired
    /// ("invalid_or_expired_token").
    InvalidOrExpiredToken,
    /// The token verified but its subject resolves to no stored account —
    /// the only revocation stateless tokens allow ("user_not_found").
    UserNotFound,
}

impl GateOutcome {
    /// The uniform rejection message; `None` exactly when admitted.
    pub fn rejection_message(&self) -> (r: Option<String>)
        ensures
            r is None <==> self is Admitted,
            self is MissingToken ==> (r matches Some(m) && m@ == "missing_token"@),
            self is InvalidOrExpiredToken ==> (r matches Some(m) && m@
                == "invalid_or_expired_token"@),
            self is UserNotFound ==> (r matches Some(m) && m@ == "user_not_found"@),
    {
        match self {
            GateOutcome::Admitted(_) => None,
            GateOutcome::MissingToken => Some(String::from_str("missing_token")),
            GateOutcome::InvalidOrExpiredToken => Some(
                String::from_str("invalid_or_expired_token"),
            ),
            GateOutcome::UserNotFound => Some(String::from_str("user_not_found")),
        }
    }
}

/// The session gate: extracts the presented token, verifies it against the
/// secret at time `now`, resolves its subject to a stored account, and
/// admits the request or rejects it.
///
/// For a token this library issued under the same secret, admission holds
/// exactly while the token is unexpired and its subject still resolves; an
/// expired one is rejected as invalid, and a verified subject without an
/// account — deleted since issuance — is rejected as unknown.
pub fn session_gate(repo: &Repo, token: Option<&String>, now: u64, secret: &Vec<u8>) -> (r:
    GateOutcome)
    requires
        repo.wf(),
    ensures
        (r is MissingToken <==> token is None),
        (token matches Some(t) ==> forall|s: Seq<char>, i: u64, e: u64|
            t@ == #[trigger] token_of(s, i, e, secret@) && i <= e && now >= e
                ==> r is InvalidOrExpiredToken),
        (token matches Some(t) ==> forall|s: Seq<char>, i: u64, e: u64|
            t@ == #[trigger] token_of(s, i, e, secret@) && i <= e && now < e ==> if (exists|v: u64|
                dec_str(v as nat) == s && #[trigger] repo.contains_id(v)) {
                r matches GateOutcome::Admitted(u) && dec_str(u.id as nat) == s && user_eqv(
                    u,
                    repo.account_by_id(u.id),
                )
            } else {
                r is UserNotFound
            }),
        (r matches GateOutcome::Admitted(u) ==> (token matches Some(t) && validly_signed(
            t@,
            secret@,
        ) && repo.contains_id(u.id) && user_eqv(u, repo.account_by_id(u.id)))),
{
    let t = match token {
        None => {
            return GateOutcome::MissingToken;
        },
        Some(t) => t,
    };
    let subject = match verify(t, now, secret) {
        Ok(s) => s,
        Err(_) => {
            return GateOutcome::InvalidOrExpiredToken;
        },
    };
    let id = match dec_to_u64(subject.as_str()) {
        Some(id) => id,
        None => {
            proof {
                assert forall|s: Seq<char>, i: u64, e: u64|
                    t@ == #[trigger] token_of(s, i, e, secret@) && i <= e && now < e implies !(
                exists|v: u64| dec_str(v as nat) == s && #[trigger] repo.contains_id(v)) by {
                    assert(subject@ == s);
                }
            }
            return GateOutcome::UserNotFound;
        },
    };
    match repo.find_by_id(id) {
        Some(u) => {
            proof {
                assert forall|s: Seq<char>, i: u64, e: u64|
                    t@ == #[trigger] token_of(s, i, e, secret@) && i <= e && now < e implies (
                dec_str(u.id as nat) == s && user_eqv(u, repo.account_by_id(u.id))) by {
                    assert(subject@ == s);
                    assert(subject@ == dec_str(id as nat));
                }
            }
            GateOutcome::Admitted(u)
        },
        None => {
            proof {
                assert forall|s: Seq<char>, i: u64, e: u64|
                    t@ == #[trigger] token_of(s, i, e, secret@) && i <= e && now < e implies !(
                exists|v: u64| dec_str(v as nat) == s && #[trigger] repo.contains_id(v)) by {
                    assert(subject@ == s);
                    assert(subject@ == dec_str(id as nat));
                    assert forall|v: u64| dec_str(v as nat) == s implies !repo.contains_id(v) by {
                        lemma_dec_str_injective(v as nat, id as nat);
                    }
                }
            }
            GateOutcome::UserNotFound
        },
    }
}

} // verus!
