use auth_core::hasher::{get_password_hash, verify_password};

#[test]
fn hash_then_verify_round_trip() {
    let password = String::from("secret1");
    let hash = get_password_hash(&password).expect("hashing failed");
    assert!(verify_password(&password, &hash));
}

#[test]
fn verify_rejects_wrong_password() {
    let password = String::from("secret1");
    let other = String::from("secret2");
    let hash = get_password_hash(&password).expect("hashing failed");
    assert!(!verify_password(&other, &hash));
}

#[test]
fn hashing_twice_salts_differently_but_both_verify() {
    let password = String::from("secret1");
    let h1 = get_password_hash(&password).expect("hashing failed");
    let h2 = get_password_hash(&password).expect("hashing failed");
    assert_ne!(h1, h2);
    assert!(verify_password(&password, &h1));
    assert!(verify_password(&password, &h2));
}

#[test]
fn verify_treats_corrupt_stored_hash_as_mismatch() {
    let password = String::from("secret1");
    let corrupt = String::from("not-an-encoded-hash");
    assert!(!verify_password(&password, &corrupt));
    assert!(!verify_password(&password, &String::new()));
}

#[test]
fn stored_hash_is_a_phc_string_not_the_password() {
    let password = String::from("secret1");
    let hash = get_password_hash(&password).expect("hashing failed");
    assert!(hash.starts_with('$'));
    assert_ne!(hash, password);
}
