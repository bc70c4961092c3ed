use identity_wallet::session::SessionManager;
use identity_wallet::SESSION_TTL_SECS;

const NOW: u64 = 1_700_000_000;

#[test]
fn token_is_wide_and_validates_before_expiry() {
    let mut m = SessionManager::new();
    let token = m.create_session(&"alice".to_string(), NOW).expect("fresh token");
    assert_eq!(token.chars().count(), 32);
    let s = m.validate_token(&token, NOW).expect("fresh token validates");
    assert_eq!(s.user_id, "alice");
    assert_eq!(s.created_at, NOW);
    assert_eq!(s.expires_at, NOW + SESSION_TTL_SECS);
}

#[test]
fn token_validates_strictly_before_window_end() {
    let mut m = SessionManager::new();
    let token = m.create_session(&"alice".to_string(), NOW).expect("fresh token");
    assert!(m.validate_token(&token, NOW + SESSION_TTL_SECS - 1).is_some());
    assert!(m.validate_token(&token, NOW + SESSION_TTL_SECS).is_none());
    assert!(m.validate_token(&token, NOW + SESSION_TTL_SECS + 1).is_none());
}

#[test]
fn expired_token_is_still_known_but_invalid() {
    let mut m = SessionManager::new();
    let token = m.create_session(&"alice".to_string(), NOW).expect("fresh token");
    assert!(m.contains_token(&token));
    assert!(m.validate_token(&token, NOW + SESSION_TTL_SECS).is_none());
    assert!(m.contains_token(&token));
}

#[test]
fn invalidate_then_validate_returns_none() {
    let mut m = SessionManager::new();
    let token = m.create_session(&"alice".to_string(), NOW).expect("fresh token");
    m.invalidate(&token);
    assert!(m.validate_token(&token, NOW).is_none());
    assert!(!m.contains_token(&token));
    m.invalidate(&token);
    assert!(m.validate_token(&token, NOW).is_none());
}

#[test]
fn unknown_token_never_validates() {
    let mut m = SessionManager::new();
    let _ = m.create_session(&"alice".to_string(), NOW).expect("fresh token");
    assert!(m.validate_token(&"not-a-token".to_string(), NOW).is_none());
}

#[test]
fn sweep_drops_expired_sessions_only() {
    let mut m = SessionManager::new();
    let old_token = m.create_session(&"alice".to_string(), NOW).expect("fresh token");
    let new_token = m.create_session(&"bob".to_string(), NOW + 3600).expect("fresh token");
    m.sweep_expired(NOW + SESSION_TTL_SECS);
    assert!(!m.contains_token(&old_token));
    assert!(m.contains_token(&new_token));
    assert!(m.validate_token(&new_token, NOW + SESSION_TTL_SECS).is_some());
}

#[test]
fn concurrent_logins_give_independent_sessions() {
    let mut m = SessionManager::new();
    let t1 = m.create_session(&"alice".to_string(), NOW).expect("fresh token");
    let t2 = m.create_session(&"alice".to_string(), NOW + 5).expect("fresh token");
    assert_ne!(t1, t2);
    assert!(m.validate_token(&t1, NOW + 10).is_some());
    assert!(m.validate_token(&t2, NOW + 10).is_some());
    m.invalidate(&t1);
    assert!(m.validate_token(&t1, NOW + 10).is_none());
    assert!(m.validate_token(&t2, NOW + 10).is_some());
}
