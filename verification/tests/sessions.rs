use account_service::session_store::SessionStore;
use account_service::token::verify;

#[test]
fn put_then_get_returns_the_user_until_expiry() {
    let mut store = SessionStore::new();
    store.put("tok-1", 11, 0, 5);
    assert_eq!(store.get("tok-1", 0), Some(11));
    assert_eq!(store.get("tok-1", 4), Some(11));
    assert_eq!(store.get("tok-1", 5), None);
    assert_eq!(store.get("tok-1", 100), None);
}

#[test]
fn get_of_an_unknown_token_is_none() {
    let store = SessionStore::new();
    assert_eq!(store.get("tok-1", 0), None);
}

#[test]
fn delete_revokes_one_token_and_spares_the_rest() {
    let mut store = SessionStore::new();
    store.put("tok-1", 11, 0, 50);
    store.put("tok-2", 22, 0, 50);
    assert_eq!(store.len(), 2);
    store.delete("tok-1");
    assert_eq!(store.len(), 1);
    assert_eq!(store.get("tok-1", 1), None);
    assert_eq!(store.get("tok-2", 1), Some(22));
}

#[test]
fn put_replaces_an_earlier_record_for_the_same_token() {
    let mut store = SessionStore::new();
    store.put("tok-1", 11, 0, 5);
    store.put("tok-1", 33, 10, 5);
    assert_eq!(store.get("tok-1", 12), Some(33));
    assert_eq!(store.get("tok-1", 15), None);
}

#[test]
fn a_deleted_session_stays_dead_while_the_token_still_verifies() {
    let key = b"test-signing-key".to_vec();
    let token = account_service::token::issue(11, 0, 50, &key);
    let mut store = SessionStore::new();
    store.put(token.as_str(), 11, 0, 50);
    store.delete(token.as_str());
    assert!(verify(token.as_str(), &key, 1).is_ok());
    assert_eq!(store.get(token.as_str(), 1), None);
}
