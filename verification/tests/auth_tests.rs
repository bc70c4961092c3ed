use identity_wallet::auth::{
    auth_middleware, bearer_token, AuthRequestHandler, LoginRequest, RegisterRequest,
};
use identity_wallet::dispatch::{AppState, AuthStatus};
use identity_wallet::server::HTTPServer;
use identity_wallet::SESSION_TTL_SECS;

const KEY: u64 = 7;
const NOW: u64 = 1_700_000_000;

fn login_req(user: &str) -> LoginRequest {
    LoginRequest { username: user.to_string(), password: "ignored-here".to_string() }
}

#[test]
fn successful_login_issues_a_day_long_session() {
    let mut state = AppState::new(KEY);
    let r = AuthRequestHandler::handle_login(&mut state, &login_req("alice"), true, NOW);
    assert!(r.success);
    assert_eq!(r.expires_in, 86400);
    assert_eq!(r.expires_in, SESSION_TTL_SECS);
    let token = r.token.expect("a token is issued");
    assert_eq!(token.chars().count(), 32);
    let session = state.sessions.validate_token(&token, NOW).expect("token validates");
    assert_eq!(session.user_id, "alice");
    assert_eq!(session.expires_at, NOW + SESSION_TTL_SECS);
    let info = r.user_info.expect("user info is reported");
    assert_eq!(info.username, "alice");
    assert_eq!(info.role, "Admin");
    assert_eq!(info.permissions, vec!["read", "write", "admin"]);
}

#[test]
fn lead_developer_role_is_reported_for_punctitok() {
    let mut state = AppState::new(KEY);
    let r = AuthRequestHandler::handle_login(&mut state, &login_req("punctITok"), true, NOW);
    assert_eq!(r.user_info.expect("user info").role, "Lead Developer");
}

#[test]
fn failed_login_issues_nothing() {
    let mut state = AppState::new(KEY);
    let r = AuthRequestHandler::handle_login(&mut state, &login_req("alice"), false, NOW);
    assert!(!r.success);
    assert!(r.token.is_none());
    assert_eq!(r.expires_in, 0);
    assert!(r.user_info.is_none());
}

#[test]
fn register_is_refused_on_duplicate_email_or_empty_username() {
    let mut state = AppState::new(KEY);
    let reg = RegisterRequest {
        username: "alice".to_string(),
        email: "alice@example.com".to_string(),
        phone: "123".to_string(),
    };
    assert!(AuthRequestHandler::handle_register(&mut state, &reg).success);
    assert!(state.users.check_email(&"alice@example.com".to_string()));
    let dup = RegisterRequest {
        username: "another".to_string(),
        email: "alice@example.com".to_string(),
        phone: "456".to_string(),
    };
    assert!(!AuthRequestHandler::handle_register(&mut state, &dup).success);
    let empty = RegisterRequest {
        username: "".to_string(),
        email: "new@example.com".to_string(),
        phone: "789".to_string(),
    };
    assert!(!AuthRequestHandler::handle_register(&mut state, &empty).success);
}

#[test]
fn bearer_tokens_are_extracted_from_well_formed_headers() {
    assert_eq!(bearer_token("Bearer abc123"), Some("abc123".to_string()));
    assert_eq!(bearer_token("Bearer "), Some("".to_string()));
    assert_eq!(bearer_token("Token abc123"), None);
    assert_eq!(bearer_token("bearer abc123"), None);
    assert_eq!(bearer_token(""), None);
}

#[test]
fn middleware_maps_headers_to_auth_status() {
    let mut state = AppState::new(KEY);
    let r = AuthRequestHandler::handle_login(&mut state, &login_req("alice"), true, NOW);
    let token = r.token.expect("token");
    let good = format!("Bearer {token}");
    assert_eq!(auth_middleware(&state.sessions, Some(&good), NOW), AuthStatus::Authenticated);
    assert_eq!(
        auth_middleware(&state.sessions, Some(&good), NOW + SESSION_TTL_SECS),
        AuthStatus::Expired,
    );
    assert_eq!(auth_middleware(&state.sessions, None, NOW), AuthStatus::Anonymous);
    let junk = "Bearer junk".to_string();
    assert_eq!(auth_middleware(&state.sessions, Some(&junk), NOW), AuthStatus::Invalid);
    let malformed = token.clone();
    assert_eq!(auth_middleware(&state.sessions, Some(&malformed), NOW), AuthStatus::Anonymous);
}

#[test]
fn login_time_is_the_rfc3339_rendering() {
    let mut state = AppState::new(KEY);
    let r = AuthRequestHandler::handle_login(&mut state, &login_req("alice"), true, 0);
    let info = r.user_info.expect("user info");
    assert_eq!(info.login_time, "1970-01-01T00:00:00+00:00");
    let expected = chrono::DateTime::<chrono::Utc>::from_timestamp(NOW as i64, 0)
        .expect("in range")
        .to_rfc3339();
    let mut state = AppState::new(KEY);
    let r = AuthRequestHandler::handle_login(&mut state, &login_req("alice"), true, NOW);
    assert_eq!(r.user_info.expect("user info").login_time, expected);
}

#[test]
fn health_and_data_probes_answer_fixed_values() {
    let h = HTTPServer::health_check(0);
    assert_eq!(h.status, "ok");
    assert_eq!(h.message, "Server is running");
    assert_eq!(h.timestamp, "1970-01-01T00:00:00+00:00");
    let d = HTTPServer::get_data(0);
    assert_eq!(d.id, 1);
    assert!(d.secure);
    assert_eq!(d.message, "Hello from HTTPS server!");
    let server = HTTPServer::new();
    assert!(!server.session_manager.contains_token(&"anything".to_string()));
}
