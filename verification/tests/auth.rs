use domain::auth::{AuthService, SESSION_TTL_NANOS};
use domain::error::Error;

#[test]
fn login_with_the_wrong_token_is_refused() {
    let mut auth = AuthService::new("secret");
    assert!(matches!(auth.login("guess"), Err(Error::Unauthorized)));
    assert!(matches!(auth.login(""), Err(Error::Unauthorized)));
    assert!(matches!(auth.login("secret "), Err(Error::Unauthorized)));
}

#[test]
fn login_then_validate_then_logout() {
    let mut auth = AuthService::new("secret");
    let session = auth.login("secret").unwrap();
    let token = session.token().to_string();
    assert_eq!(token.len(), 44);
    assert!(auth.validate(&token).is_ok());
    assert!(auth.validate(&token).is_ok());

    auth.logout(&token).unwrap();
    assert!(matches!(auth.validate(&token), Err(Error::Unauthorized)));
    // Logging out twice is harmless.
    auth.logout(&token).unwrap();
}

#[test]
fn sessions_are_independent() {
    let mut auth = AuthService::new("secret");
    let a = auth.login("secret").unwrap().token().to_string();
    let b = auth.login("secret").unwrap().token().to_string();
    assert_ne!(a, b);
    auth.logout(&a).unwrap();
    assert!(auth.validate(&b).is_ok());
    assert!(matches!(auth.validate(&a), Err(Error::Unauthorized)));
}

#[test]
fn malformed_tokens_are_bad_tokens() {
    let mut auth = AuthService::new("secret");
    assert!(matches!(auth.validate("not base64!"), Err(Error::BadToken)));
    // Valid base64, but of 3 bytes rather than 32.
    assert!(matches!(auth.validate("AAAA"), Err(Error::BadToken)));
    assert!(matches!(auth.logout("***"), Err(Error::BadToken)));
}

#[test]
fn unknown_well_formed_tokens_are_unauthorized() {
    let mut auth = AuthService::new("secret");
    let token = format!("{}=", "A".repeat(43));
    assert!(matches!(auth.validate(&token), Err(Error::Unauthorized)));
}

#[test]
fn sessions_expire_after_seven_days() {
    assert_eq!(SESSION_TTL_NANOS, 7 * 24 * 60 * 60 * 1_000_000_000);
    let mut auth = AuthService::new("secret");
    let session = auth.start_session(vec![7u8; 32], 1_000);
    let token = session.token().to_string();
    assert!(auth.validate_at(&token, 1_000).is_ok());
    assert!(auth.validate_at(&token, 1_000 + SESSION_TTL_NANOS - 1).is_ok());
    assert!(matches!(auth.validate_at(&token, 1_000 + SESSION_TTL_NANOS), Err(Error::Unauthorized)));
    // The expired session was dropped: even an earlier clock no longer finds it.
    assert!(matches!(auth.validate_at(&token, 1_000), Err(Error::Unauthorized)));
}

#[test]
fn a_new_login_under_the_same_key_extends_it() {
    let mut auth = AuthService::new("secret");
    let first = auth.start_session(vec![1u8; 32], 0).token().to_string();
    let second = auth.start_session(vec![1u8; 32], 10).token().to_string();
    assert_eq!(first, second);
    assert!(auth.validate_at(&first, SESSION_TTL_NANOS + 5).is_ok());
}

#[test]
fn session_token_is_url_safe_base64_of_the_key() {
    let mut auth = AuthService::new("secret");
    let token = auth.start_session(vec![0xfb; 32], 0).token().to_string();
    assert_eq!(token, "-_v7-_v7-_v7-_v7-_v7-_v7-_v7-_v7-_v7-_v7-_s=");
}
