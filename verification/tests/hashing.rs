use account_service::hashing::{hash_password, verify_password};

#[test]
fn a_password_verifies_against_its_own_hash() {
    let hash = hash_password("correct_horse1").unwrap();
    assert_eq!(verify_password("correct_horse1", hash.as_str()), Ok(true));
}

#[test]
fn a_different_password_does_not_verify() {
    let hash = hash_password("correct_horse1").unwrap();
    assert_eq!(verify_password("correct_horse2", hash.as_str()), Ok(false));
    assert_eq!(verify_password("", hash.as_str()), Ok(false));
}

#[test]
fn hashes_are_salted_yet_both_verify() {
    let first = hash_password("correct_horse1").unwrap();
    let second = hash_password("correct_horse1").unwrap();
    assert_ne!(first, second);
    assert_eq!(verify_password("correct_horse1", first.as_str()), Ok(true));
    assert_eq!(verify_password("correct_horse1", second.as_str()), Ok(true));
}

#[test]
fn a_malformed_stored_hash_is_an_error_not_a_rejection() {
    assert!(verify_password("anything_here", "not-a-bcrypt-hash").is_err());
}
