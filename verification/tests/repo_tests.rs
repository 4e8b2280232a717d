use auth_core::model::NewUser;
use auth_core::repo::{Repo, RepoError};

fn new_user(name: &str, email: &str, password: &str) -> NewUser {
    NewUser { name: name.to_string(), email: email.to_string(), password: password.to_string() }
}

#[test]
fn insert_assigns_fresh_ids_and_defaults() {
    let mut repo = Repo::new();
    let a = repo.insert(new_user("Ann", "ann@x.com", "hash-a"), 100).expect("insert failed");
    let b = repo.insert(new_user("Bob", "bob@x.com", "hash-b"), 200).expect("insert failed");
    assert_eq!(a.id, 0);
    assert_eq!(b.id, 1);
    assert_eq!(a.role, "user");
    assert!(!a.verified);
    assert_eq!(a.created_at, 100);
    assert_eq!(a.updated_at, 100);
    assert_eq!(a.email, "ann@x.com");
    assert_eq!(a.password, "hash-a");
}

#[test]
fn duplicate_email_violates_uniqueness() {
    let mut repo = Repo::new();
    repo.insert(new_user("Ann", "ann@x.com", "hash-a"), 100).expect("insert failed");
    let second = repo.insert(new_user("Ann again", "ann@x.com", "hash-b"), 200);
    assert!(matches!(second, Err(RepoError::UniquenessViolation)));
}

#[test]
fn lookups_find_exactly_what_was_stored() {
    let mut repo = Repo::new();
    let a = repo.insert(new_user("Ann", "ann@x.com", "hash-a"), 100).expect("insert failed");
    repo.insert(new_user("Bob", "bob@x.com", "hash-b"), 200).expect("insert failed");

    let by_email = repo.find_by_email(&"ann@x.com".to_string()).expect("missing account");
    assert_eq!(by_email.id, a.id);
    assert_eq!(by_email.name, "Ann");

    let by_id = repo.find_by_id(1).expect("missing account");
    assert_eq!(by_id.email, "bob@x.com");

    assert!(repo.find_by_email(&"carol@x.com".to_string()).is_none());
    assert!(repo.find_by_id(17).is_none());
    // lookup is by exact (normalized) email: a differently-cased query misses
    assert!(repo.find_by_email(&"Ann@x.com".to_string()).is_none());
}
