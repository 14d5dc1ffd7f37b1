use account_service::credential_store::{ConflictError, CredentialStore};
use account_service::hashing::verify_password;
use account_service::primitives::{Currencies, Genders, Preferences, User};
use account_service::requests_interfaces::SignUp;
use account_service::users::{create_account, validate_sign_up, RegisterError};

fn payload() -> SignUp {
    SignUp {
        name: String::from("Alice Example"),
        username: String::from("Alice_01"),
        email: String::from("Alice@example.com"),
        password: String::from("sup3r_secret"),
        password_confirmation: String::from("sup3r_secret"),
        currency: Currencies::COP,
        gender: Genders::MALE,
    }
}

fn plain_user(username: &str, email: &str) -> User {
    User {
        id: 0,
        username: String::from(username),
        email: String::from(email),
        password: String::from("opaque-hash"),
        backup_security_codes: Vec::new(),
        currency: Currencies::USD,
        gender: Genders::OTHER,
        preferences: Preferences::fresh(),
        created_at: 0,
    }
}

#[test]
fn a_valid_payload_passes_validation() {
    assert_eq!(validate_sign_up(&payload()), None);
}

#[test]
fn each_field_rule_is_reported_in_order() {
    let mut p = payload();
    p.username = String::from("a");
    assert_eq!(validate_sign_up(&p), Some(RegisterError::UsernameLength));

    let mut p = payload();
    p.email = String::from("a@b");
    assert_eq!(validate_sign_up(&p), Some(RegisterError::EmailLength));

    let mut p = payload();
    p.password = String::from("short");
    p.password_confirmation = String::from("short");
    assert_eq!(validate_sign_up(&p), Some(RegisterError::PasswordLength));

    let mut p = payload();
    p.username = String::from("bad name!");
    assert_eq!(validate_sign_up(&p), Some(RegisterError::UsernameChars));

    let mut p = payload();
    p.email = String::from("no-at-sign.example.com");
    assert_eq!(validate_sign_up(&p), Some(RegisterError::EmailFormat));

    let mut p = payload();
    p.email = String::from("alice@nodotdomain");
    assert_eq!(validate_sign_up(&p), Some(RegisterError::EmailFormat));

    let mut p = payload();
    p.password = String::from("has a space pwd");
    p.password_confirmation = String::from("has a space pwd");
    assert_eq!(validate_sign_up(&p), Some(RegisterError::PasswordChars));

    let mut p = payload();
    p.password = String::from("a_far_too_long_password");
    p.password_confirmation = String::from("a_far_too_long_password");
    assert_eq!(validate_sign_up(&p), Some(RegisterError::PasswordChars));

    let mut p = payload();
    p.password_confirmation = String::from("sup3r_secre7");
    assert_eq!(validate_sign_up(&p), Some(RegisterError::PasswordMismatch));

    let mut p = payload();
    p.username = String::from("Secret_pw1");
    p.password = String::from("SECRET_PW1");
    p.password_confirmation = String::from("SECRET_PW1");
    assert_eq!(validate_sign_up(&p), Some(RegisterError::UsernameIsPassword));
}

#[test]
fn registration_lowercases_hashes_and_assigns_ids() {
    let mut store = CredentialStore::new();
    let user = create_account(&mut store, &payload(), 42).unwrap();
    assert_eq!(user.id, 1);
    assert_eq!(user.username, "alice_01");
    assert_eq!(user.email, "alice@example.com");
    assert_eq!(user.created_at, 42);
    assert!(user.backup_security_codes.is_empty());
    assert_eq!(user.preferences.language, "en");
    assert!(!user.preferences.dark_mode);
    assert!(user.preferences.notifications);
    assert_ne!(user.password, "sup3r_secret");
    assert_eq!(
        verify_password("sup3r_secret", user.password.as_str()),
        Ok(true)
    );

    let mut other = payload();
    other.username = String::from("Bob_02");
    other.email = String::from("bob@example.com");
    let second = create_account(&mut store, &other, 43).unwrap();
    assert_eq!(second.id, 2);
    assert_eq!(store.len(), 2);
}

#[test]
fn a_second_registration_with_the_same_username_loses() {
    let mut store = CredentialStore::new();
    create_account(&mut store, &payload(), 0).unwrap();
    let mut again = payload();
    again.email = String::from("other@example.com");
    assert_eq!(
        create_account(&mut store, &again, 1).err(),
        Some(RegisterError::Taken)
    );
}

#[test]
fn a_second_registration_with_the_same_email_loses() {
    let mut store = CredentialStore::new();
    create_account(&mut store, &payload(), 0).unwrap();
    let mut again = payload();
    again.username = String::from("Bob_02");
    assert_eq!(
        create_account(&mut store, &again, 1).err(),
        Some(RegisterError::Taken)
    );
}

#[test]
fn the_store_itself_admits_exactly_one_of_two_equal_identifiers() {
    // Whichever insert lands first wins; the other meets the conflict,
    // in both orders.
    let mut store = CredentialStore::new();
    assert!(store.insert(plain_user("carol", "carol@example.com")).is_ok());
    assert_eq!(
        store.insert(plain_user("carol", "other@example.com")).err(),
        Some(ConflictError)
    );
    assert_eq!(
        store.insert(plain_user("other", "carol@example.com")).err(),
        Some(ConflictError)
    );

    let mut store = CredentialStore::new();
    assert!(store.insert(plain_user("carol", "other@example.com")).is_ok());
    assert_eq!(
        store.insert(plain_user("carol", "carol@example.com")).err(),
        Some(ConflictError)
    );
}

#[test]
fn lookups_are_case_insensitive_and_exact() {
    let mut store = CredentialStore::new();
    create_account(&mut store, &payload(), 0).unwrap();
    assert!(store.identifier_exists("ALICE_01"));
    assert!(store.identifier_exists("Alice@Example.COM"));
    assert!(!store.identifier_exists("alice_0"));
    let found = store.find_by_identifier("alice_01").unwrap();
    assert_eq!(found.id, 1);
    assert!(store.find_by_id(1).is_some());
    assert!(store.find_by_id(2).is_none());
}

#[test]
fn unrecognized_enum_values_fall_back_to_their_defaults() {
    assert_eq!(Genders::from_str("MALE"), Ok(Genders::MALE));
    assert_eq!(Genders::from_str("FEMALE"), Ok(Genders::FEMALE));
    assert_eq!(Genders::from_str("OTHER"), Ok(Genders::OTHER));
    assert_eq!(Genders::from_str("unheard-of"), Ok(Genders::OTHER));
    assert_eq!(Currencies::from_str("COP"), Ok(Currencies::COP));
    assert_eq!(Currencies::from_str("USD"), Ok(Currencies::USD));
    assert_eq!(Currencies::from_str("EUR"), Ok(Currencies::EUR));
    assert_eq!(Currencies::from_str("unheard-of"), Ok(Currencies::USD));
}
