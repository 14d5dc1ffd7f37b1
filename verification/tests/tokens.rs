use account_service::token::{issue, verify, Claims, TokenError};

fn key() -> Vec<u8> {
    b"test-signing-key".to_vec()
}

#[test]
fn issue_then_verify_returns_the_claims() {
    let k = key();
    let token = issue(7, 100, 5, &k);
    let claims = verify(token.as_str(), &k, 100).unwrap();
    assert_eq!(
        claims,
        Claims { subject: 7, issued_at: 100, expires_at: 105 }
    );
}

#[test]
fn verify_succeeds_until_expiry_and_fails_from_it() {
    let k = key();
    let token = issue(3, 0, 5, &k);
    assert!(verify(token.as_str(), &k, 0).is_ok());
    assert!(verify(token.as_str(), &k, 4).is_ok());
    assert_eq!(verify(token.as_str(), &k, 5), Err(TokenError::Expired));
    assert_eq!(verify(token.as_str(), &k, 6), Err(TokenError::Expired));
}

#[test]
fn token_for_one_subject_never_verifies_to_another() {
    let k = key();
    let token = issue(41, 10, 60, &k);
    let claims = verify(token.as_str(), &k, 11).unwrap();
    assert_eq!(claims.subject, 41);
    assert_ne!(claims.subject, 42);
}

#[test]
fn tampered_subject_is_a_signature_mismatch() {
    let k = key();
    let token = issue(41, 10, 60, &k);
    // The subject lives in the first twenty digits; flip one of them.
    let mut chars: Vec<char> = token.chars().collect();
    chars[19] = if chars[19] == '1' { '2' } else { '1' };
    let forged: String = chars.into_iter().collect();
    assert_eq!(
        verify(forged.as_str(), &k, 11),
        Err(TokenError::SignatureMismatch)
    );
}

#[test]
fn tampered_tag_is_a_signature_mismatch() {
    let k = key();
    let token = issue(41, 10, 60, &k);
    let mut chars: Vec<char> = token.chars().collect();
    let last = chars.len() - 1;
    chars[last] = if chars[last] == 'a' { 'b' } else { 'a' };
    let forged: String = chars.into_iter().collect();
    assert_eq!(
        verify(forged.as_str(), &k, 11),
        Err(TokenError::SignatureMismatch)
    );
}

#[test]
fn a_token_verifies_only_under_its_own_key() {
    let k = key();
    let other = b"another-signing-key".to_vec();
    let token = issue(41, 10, 60, &k);
    assert_eq!(
        verify(token.as_str(), &other, 11),
        Err(TokenError::SignatureMismatch)
    );
}

#[test]
fn structurally_broken_tokens_are_malformed() {
    let k = key();
    assert_eq!(verify("", &k, 0), Err(TokenError::Malformed));
    assert_eq!(verify("nonsense", &k, 0), Err(TokenError::Malformed));
    let letters: String = std::iter::repeat('x').take(124).collect();
    assert_eq!(verify(letters.as_str(), &k, 0), Err(TokenError::Malformed));
}

#[test]
fn two_issues_for_the_same_claims_agree() {
    let k = key();
    let a = issue(9, 50, 30, &k);
    let b = issue(9, 50, 30, &k);
    assert_eq!(a, b);
}
