use account_service::middleware::{auth_middleware, MiddlewareOutcome, RequestContext};
use account_service::primitives::{Preferences, User};
use account_service::primitives::{Currencies, Genders};
use account_service::requests_interfaces::{SignIn, SignUp};
use account_service::service::{AuthError, AuthService};
use account_service::token::verify;
use account_service::users::create_account;

fn service() -> AuthService {
    AuthService::new(b"test-signing-key".to_vec(), 5)
}

fn signup() -> SignUp {
    SignUp {
        name: String::from("Alice Example"),
        username: String::from("Alice_01"),
        email: String::from("Alice@example.com"),
        password: String::from("sup3r_secret"),
        password_confirmation: String::from("sup3r_secret"),
        currency: Currencies::EUR,
        gender: Genders::FEMALE,
    }
}

#[test]
fn sign_in_issues_a_working_session() {
    let mut svc = service();
    create_account(&mut svc.users, &signup(), 0).unwrap();
    let credentials = SignIn {
        username_or_email: String::from("ALICE_01"),
        password: String::from("sup3r_secret"),
    };
    let out = svc.request_credentials(&credentials, 0).unwrap();
    assert_eq!(out.user.username, "alice_01");
    assert_eq!(out.user.email, "alice@example.com");
    assert_eq!(out.user.id, 1);
    let session = svc.get_session(out.token.as_str(), 0).unwrap();
    assert_eq!(session.id, 1);
    assert_eq!(session.username, "alice_01");
}

#[test]
fn sign_in_works_by_email_too() {
    let mut svc = service();
    create_account(&mut svc.users, &signup(), 0).unwrap();
    let credentials = SignIn {
        username_or_email: String::from("alice@EXAMPLE.com"),
        password: String::from("sup3r_secret"),
    };
    assert!(svc.request_credentials(&credentials, 0).is_ok());
}

#[test]
fn unknown_identifier_and_wrong_password_fail_byte_identically() {
    let mut svc = service();
    create_account(&mut svc.users, &signup(), 0).unwrap();
    let unknown = SignIn {
        username_or_email: String::from("nobody_here"),
        password: String::from("whatever_pw"),
    };
    let wrong = SignIn {
        username_or_email: String::from("alice_01"),
        password: String::from("wrong_password"),
    };
    let e1 = svc.request_credentials(&unknown, 0).err().unwrap();
    let e2 = svc.request_credentials(&wrong, 0).err().unwrap();
    assert_eq!(e1, AuthError::InvalidCredentials);
    assert_eq!(e2, AuthError::InvalidCredentials);
    let r1 = e1.response();
    let r2 = e2.response();
    assert_eq!(r1.message, r2.message);
    assert_eq!(r1.data, r2.data);
    assert_eq!(r1.exited_code, r2.exited_code);
    assert_eq!(e1.status(), e2.status());
    assert_eq!(e1.status(), 400);
}

#[test]
fn get_session_returns_the_signed_in_user_among_many() {
    let mut svc = service();
    create_account(&mut svc.users, &signup(), 0).unwrap();
    let mut second = signup();
    second.username = String::from("Bob_02");
    second.email = String::from("bob@example.com");
    second.password = String::from("bobs_password");
    second.password_confirmation = String::from("bobs_password");
    create_account(&mut svc.users, &second, 0).unwrap();

    let credentials = SignIn {
        username_or_email: String::from("bob_02"),
        password: String::from("bobs_password"),
    };
    let out = svc.request_credentials(&credentials, 0).unwrap();
    let session = svc.get_session(out.token.as_str(), 0).unwrap();
    assert_eq!(session.id, 2);
    assert_eq!(session.username, "bob_02");
}

#[test]
fn revoked_session_is_unauthorized_though_the_token_verifies() {
    let mut svc = service();
    create_account(&mut svc.users, &signup(), 0).unwrap();
    let credentials = SignIn {
        username_or_email: String::from("alice_01"),
        password: String::from("sup3r_secret"),
    };
    let out = svc.request_credentials(&credentials, 0).unwrap();
    svc.sessions.delete(out.token.as_str());
    assert!(verify(out.token.as_str(), &svc.key, 1).is_ok());
    assert_eq!(
        svc.get_session(out.token.as_str(), 1).err(),
        Some(AuthError::Unauthorized)
    );
}

#[test]
fn a_session_lives_for_its_ttl_and_no_longer() {
    let mut svc = service();
    create_account(&mut svc.users, &signup(), 0).unwrap();
    let credentials = SignIn {
        username_or_email: String::from("alice_01"),
        password: String::from("sup3r_secret"),
    };
    let out = svc.request_credentials(&credentials, 0).unwrap();
    assert!(svc.get_session(out.token.as_str(), 0).is_ok());
    assert_eq!(
        svc.get_session(out.token.as_str(), 6).err(),
        Some(AuthError::Unauthorized)
    );
}

#[test]
fn a_corrupt_stored_hash_surfaces_as_internal_never_as_invalid_credentials() {
    let mut svc = service();
    svc.users
        .insert(User {
            id: 0,
            username: String::from("damaged"),
            email: String::from("damaged@example.com"),
            password: String::from("not-a-bcrypt-hash"),
            backup_security_codes: Vec::new(),
            currency: Currencies::USD,
            gender: Genders::OTHER,
            preferences: Preferences::fresh(),
            created_at: 0,
        })
        .unwrap();
    let credentials = SignIn {
        username_or_email: String::from("damaged"),
        password: String::from("whatever_pw"),
    };
    assert_eq!(
        svc.request_credentials(&credentials, 0).err(),
        Some(AuthError::Internal)
    );
    assert_eq!(AuthError::Internal.status(), 500);
}

#[test]
fn a_garbage_token_is_unauthorized() {
    let svc = service();
    assert_eq!(
        svc.get_session("not-a-token", 0).err(),
        Some(AuthError::Unauthorized)
    );
}

#[test]
fn unknown_endpoints_and_bad_payloads_render_fixed_envelopes() {
    let (status, r) = account_service::service::fallback("/api/nothing");
    assert_eq!(status, 404);
    assert_eq!(r.message, "invalid endpoint: /api/nothing");
    assert_eq!(r.data, "{}");
    assert_eq!(r.exited_code, 1);

    let (status, r) = account_service::service::invalid_payload("missing field");
    assert_eq!(status, 400);
    assert_eq!(r.message, "invalid payload: missing field");
    assert_eq!(r.data, "{}");
    assert_eq!(r.exited_code, 1);
}

#[test]
fn the_middleware_passes_a_live_bearer_and_rejects_everything_else() {
    let mut svc = service();
    create_account(&mut svc.users, &signup(), 0).unwrap();
    let credentials = SignIn {
        username_or_email: String::from("alice_01"),
        password: String::from("sup3r_secret"),
    };
    let out = svc.request_credentials(&credentials, 0).unwrap();

    let no_header = RequestContext { authorization: None };
    assert_eq!(
        auth_middleware(&svc.sessions, &svc.key, &no_header, 0),
        MiddlewareOutcome::Reject
    );

    let wrong_scheme = RequestContext {
        authorization: Some(format!("Token {}", out.token)),
    };
    assert_eq!(
        auth_middleware(&svc.sessions, &svc.key, &wrong_scheme, 0),
        MiddlewareOutcome::Reject
    );

    let good = RequestContext {
        authorization: Some(format!("Bearer {}", out.token)),
    };
    assert_eq!(
        auth_middleware(&svc.sessions, &svc.key, &good, 0),
        MiddlewareOutcome::Pass(1)
    );
    assert_eq!(
        auth_middleware(&svc.sessions, &svc.key, &good, 6),
        MiddlewareOutcome::Reject
    );

    svc.sessions.delete(out.token.as_str());
    assert_eq!(
        auth_middleware(&svc.sessions, &svc.key, &good, 0),
        MiddlewareOutcome::Reject
    );
}
