use abacus_auth::authenticator::{authenticate, bearer_token, resolve, AuthOutcome};
use abacus_auth::store::{get_user_by_session_token_hash, AuthError, Store};
use abacus_auth::store::create_inactive_user_by_google_claims;
use abacus_auth::user::GoogleClaims;

/// SHA-256 of "abc", in lower-case hexadecimal.
const ABC_KEY: &str = "ba7816bf8f01cfea414140de5dae2223b00361a396177a9cb410ff61f20015ad";

fn store_with_session(key: &str) -> (Store, u64) {
    let mut store = Store::new();
    let claims = GoogleClaims::new("sub:1".to_string(), Some("One".to_string()), None);
    let user = create_inactive_user_by_google_claims(&mut store, &claims).unwrap();
    store
        .open_session(key.to_string(), user.id(), "2020-01-01T00:00:00.000Z".to_string())
        .unwrap();
    (store, user.id())
}

#[test]
fn unknown_hash_is_no_such_session() {
    let (mut store, _) = store_with_session("k1");
    let r = get_user_by_session_token_hash(&mut store, "k2", "2021-01-01T00:00:00.000Z");
    assert_eq!(r.err(), Some(AuthError::NoSuchSession));
    assert_eq!(
        store.last_access_of("k1"),
        Some("2020-01-01T00:00:00.000Z".to_string())
    );
}

#[test]
fn known_hash_finds_user_and_refreshes() {
    let (mut store, id) = store_with_session("k1");
    let u = get_user_by_session_token_hash(&mut store, "k1", "2021-01-01T00:00:00.000Z").unwrap();
    assert_eq!(u.id(), id);
    assert_eq!(
        store.last_access_of("k1"),
        Some("2021-01-01T00:00:00.000Z".to_string())
    );
}

#[test]
fn resolve_hashes_the_token() {
    let (mut store, id) = store_with_session(ABC_KEY);
    assert_eq!(resolve(&mut store, "abc", "t1").unwrap().id(), id);
    assert_eq!(store.last_access_of(ABC_KEY), Some("t1".to_string()));
}

#[test]
fn resolve_does_not_match_the_raw_token() {
    let (mut store, _) = store_with_session("abc");
    assert_eq!(resolve(&mut store, "abc", "t1").err(), Some(AuthError::NoSuchSession));
}

#[test]
fn never_issued_token_is_no_such_session() {
    let (mut store, _) = store_with_session(ABC_KEY);
    assert_eq!(resolve(&mut store, "XYZ", "t1").err(), Some(AuthError::NoSuchSession));
    assert_eq!(
        store.last_access_of(ABC_KEY),
        Some("2020-01-01T00:00:00.000Z".to_string())
    );
}

#[test]
fn repeated_resolutions_keep_the_user_and_the_last_time() {
    let (mut store, id) = store_with_session(ABC_KEY);
    for t in ["t1", "t2", "t3"] {
        assert_eq!(resolve(&mut store, "abc", t).unwrap().id(), id);
    }
    assert_eq!(store.last_access_of(ABC_KEY), Some("t3".to_string()));
}

#[test]
fn bearer_prefix_is_stripped() {
    assert_eq!(bearer_token("Bearer XYZ"), Some("XYZ".to_string()));
    assert_eq!(bearer_token("Bearer "), Some(String::new()));
    assert_eq!(bearer_token("bearer XYZ"), None);
    assert_eq!(bearer_token("Basic abc"), None);
    assert_eq!(bearer_token("Bearer"), None);
}

#[test]
fn no_header_is_anonymous() {
    let (mut store, _) = store_with_session(ABC_KEY);
    assert!(matches!(authenticate(&mut store, None, "t1"), AuthOutcome::Anonymous));
}

#[test]
fn bad_headers_are_rejected() {
    let (mut store, _) = store_with_session(ABC_KEY);
    assert!(matches!(authenticate(&mut store, Some("Bearer XYZ"), "t1"), AuthOutcome::Rejected));
    assert!(matches!(authenticate(&mut store, Some("Bearer "), "t1"), AuthOutcome::Rejected));
    assert!(matches!(authenticate(&mut store, Some("Token abc"), "t1"), AuthOutcome::Rejected));
}

#[test]
fn valid_bearer_authenticates() {
    let (mut store, id) = store_with_session(ABC_KEY);
    match authenticate(&mut store, Some("Bearer abc"), "t9") {
        AuthOutcome::Authenticated(u) => assert_eq!(u.id(), id),
        _ => panic!("expected an authenticated user"),
    }
    assert_eq!(store.last_access_of(ABC_KEY), Some("t9".to_string()));
}
