use identity_wallet::auth::{AuthRequestHandler, RegisterRequest};
use identity_wallet::dispatch::{AppState, AuthStatus, DataRequestHandler};
use identity_wallet::protocol::{ErrorKind, MessageRequest, Payload};

const KEY: u64 = 7;
const NOW: u64 = 1_700_000_000;

fn request(message_type: &str, user: &str, content: Option<&[u8]>) -> MessageRequest {
    MessageRequest {
        message_type: message_type.to_string(),
        user_id: user.to_string(),
        content: content.map(|c| c.to_vec()),
    }
}

fn state_with_alice() -> AppState {
    let mut state = AppState::new(KEY);
    let reg = RegisterRequest {
        username: "alice".to_string(),
        email: "alice@example.com".to_string(),
        phone: "123".to_string(),
    };
    assert!(AuthRequestHandler::handle_register(&mut state, &reg).success);
    state
}

fn error_kind(p: &Payload) -> ErrorKind {
    match p {
        Payload::Error { kind, .. } => *kind,
        other => panic!("expected an error payload, got {other:?}"),
    }
}

#[test]
fn unknown_type_is_echoed_and_reaches_no_store() {
    let mut state = state_with_alice();
    let req = request("bogus_type", "alice", Some(b"{}"));
    let env = DataRequestHandler::handle_message(&mut state, &req, AuthStatus::Authenticated, NOW);
    assert!(!env.success);
    assert_eq!(env.message_type, "bogus_type");
    assert_eq!(error_kind(&env.data), ErrorKind::UnknownCommand);
    // the store was never reached: alice still has no record
    let wallet = request("GetWalletCards", "alice", None);
    let env = DataRequestHandler::handle_message(&mut state, &wallet, AuthStatus::Authenticated, NOW);
    assert_eq!(env.data, Payload::HasRecord(false));
}

#[test]
fn gated_command_without_session_never_reaches_the_store() {
    let mut state = state_with_alice();
    let req = request("InsertIdentityCard", "alice", Some(b"{\"name\":\"A\"}"));
    let env = DataRequestHandler::handle_message(&mut state, &req, AuthStatus::Anonymous, NOW);
    assert!(!env.success);
    assert_eq!(error_kind(&env.data), ErrorKind::AuthenticationRequired);
    let wallet = request("GetWalletCards", "alice", None);
    let env = DataRequestHandler::handle_message(&mut state, &wallet, AuthStatus::Authenticated, NOW);
    assert_eq!(env.data, Payload::HasRecord(false));
}

#[test]
fn gated_command_with_expired_session_is_rejected() {
    let mut state = state_with_alice();
    let req = request("GetIdentityCard", "alice", None);
    let env = DataRequestHandler::handle_message(&mut state, &req, AuthStatus::Expired, NOW);
    assert!(!env.success);
    assert_eq!(error_kind(&env.data), ErrorKind::ExpiredSession);
}

#[test]
fn status_check_is_reachable_without_a_session() {
    let mut state = state_with_alice();
    let req = request("status_check", "nobody", None);
    let env = DataRequestHandler::handle_message(&mut state, &req, AuthStatus::Anonymous, NOW);
    assert!(env.success);
    assert_eq!(
        env.data,
        Payload::Status { server_status: "online".to_string(), requested_by: "nobody".to_string() },
    );
}

#[test]
fn insert_then_get_roundtrips_the_content() {
    let mut state = state_with_alice();
    let content = b"{\"name\":\"A\"}";
    let ins = request("InsertIdentityCard", "alice", Some(content));
    let env = DataRequestHandler::handle_message(&mut state, &ins, AuthStatus::Authenticated, NOW);
    assert!(env.success, "insert failed: {:?}", env.data);
    assert_eq!(env.data, Payload::Message("Document successful".to_string()));

    let get = request("GetIdentityCard", "alice", None);
    let env = DataRequestHandler::handle_message(&mut state, &get, AuthStatus::Authenticated, NOW);
    assert!(env.success);
    assert_eq!(env.data, Payload::Record(content.to_vec()));

    let wallet = request("GetWalletCards", "alice", None);
    let env = DataRequestHandler::handle_message(&mut state, &wallet, AuthStatus::Authenticated, NOW);
    assert_eq!(env.data, Payload::HasRecord(true));
}

#[test]
fn update_replaces_the_record() {
    let mut state = state_with_alice();
    let first = request("InsertIdentityCard", "alice", Some(b"{\"name\":\"A\"}"));
    DataRequestHandler::handle_message(&mut state, &first, AuthStatus::Authenticated, NOW);
    let upd = request("UpdateIdentityCard", "alice", Some(b"{\"name\":\"B\"}"));
    let env = DataRequestHandler::handle_message(&mut state, &upd, AuthStatus::Authenticated, NOW);
    assert!(env.success);
    assert_eq!(env.data, Payload::Message("Identity card updated successfully".to_string()));
    let get = request("GetIdentityCard", "alice", None);
    let env = DataRequestHandler::handle_message(&mut state, &get, AuthStatus::Authenticated, NOW);
    assert_eq!(env.data, Payload::Record(b"{\"name\":\"B\"}".to_vec()));
}

#[test]
fn insert_without_content_is_refused() {
    let mut state = state_with_alice();
    let req = request("InsertIdentityCard", "alice", None);
    let env = DataRequestHandler::handle_message(&mut state, &req, AuthStatus::Authenticated, NOW);
    assert!(!env.success);
    assert_eq!(error_kind(&env.data), ErrorKind::MissingContent);
}

#[test]
fn unknown_owner_fails_cleanly() {
    let mut state = state_with_alice();
    let req = request("InsertIdentityCard", "mallory", Some(b"{}"));
    let env = DataRequestHandler::handle_message(&mut state, &req, AuthStatus::Authenticated, NOW);
    assert!(!env.success);
    assert_eq!(error_kind(&env.data), ErrorKind::UnknownOwner);
    let req = request("GetIdentityCard", "mallory", None);
    let env = DataRequestHandler::handle_message(&mut state, &req, AuthStatus::Authenticated, NOW);
    assert_eq!(error_kind(&env.data), ErrorKind::UnknownOwner);
}

#[test]
fn owner_without_record_is_distinct_from_unknown() {
    let mut state = state_with_alice();
    let req = request("GetIdentityCard", "alice", None);
    let env = DataRequestHandler::handle_message(&mut state, &req, AuthStatus::Authenticated, NOW);
    assert!(!env.success);
    assert_eq!(error_kind(&env.data), ErrorKind::NoRecord);
}

#[test]
fn owner_resolves_by_email_and_phone_too() {
    let mut state = state_with_alice();
    let ins = request("InsertIdentityCard", "alice", Some(b"{\"name\":\"A\"}"));
    DataRequestHandler::handle_message(&mut state, &ins, AuthStatus::Authenticated, NOW);
    for alias in ["alice@example.com", "123"] {
        let get = request("GetIdentityCard", alias, None);
        let env =
            DataRequestHandler::handle_message(&mut state, &get, AuthStatus::Authenticated, NOW);
        assert_eq!(env.data, Payload::Record(b"{\"name\":\"A\"}".to_vec()), "alias {alias}");
    }
}

#[test]
fn greeting_texts_are_chosen_by_user() {
    let mut state = state_with_alice();
    for (user, text) in [
        ("punctITok", "Salut punctITok! Bine ai revenit! \u{1F468}\u{200D}\u{1F4BB}"),
        ("admin", "Bun\u{103} ziua, Administrator! \u{1F451}"),
        ("someone", "Bun\u{103} ziua! Bine a\u{21B}i venit! \u{1F44B}"),
    ] {
        let req = request("greeting", user, None);
        let env =
            DataRequestHandler::handle_message(&mut state, &req, AuthStatus::Authenticated, NOW);
        assert!(env.success);
        assert_eq!(
            env.data,
            Payload::Greeting { greeting: text.to_string(), user: user.to_string() },
        );
    }
}

#[test]
fn identity_verification_trusts_admins_only() {
    let mut state = state_with_alice();
    for (user, verified, level) in
        [("punctITok", true, "high"), ("admin42", true, "high"), ("bob", false, "medium")]
    {
        let req = request("identity_verify", user, None);
        let env =
            DataRequestHandler::handle_message(&mut state, &req, AuthStatus::Authenticated, NOW);
        assert_eq!(
            env.data,
            Payload::IdentityCheck {
                user: user.to_string(),
                verified,
                trust_level: level.to_string(),
            },
        );
    }
}

#[test]
fn notification_echoes_the_content() {
    let mut state = state_with_alice();
    let req = request("notification", "alice", Some(b"ping"));
    let env = DataRequestHandler::handle_message(&mut state, &req, AuthStatus::Authenticated, NOW);
    assert_eq!(
        env.data,
        Payload::Notification { content: b"ping".to_vec(), delivered_to: "alice".to_string() },
    );
    let req = request("notification", "alice", None);
    let env = DataRequestHandler::handle_message(&mut state, &req, AuthStatus::Authenticated, NOW);
    assert_eq!(
        env.data,
        Payload::Notification {
            content: "Notificare general\u{103}".as_bytes().to_vec(),
            delivered_to: "alice".to_string(),
        },
    );
}

#[test]
fn user_data_reports_roles() {
    let mut state = state_with_alice();
    let req = request("user_data", "punctITok", None);
    let env = DataRequestHandler::handle_message(&mut state, &req, AuthStatus::Authenticated, NOW);
    assert_eq!(
        env.data,
        Payload::UserData { user: "punctITok".to_string(), role: "Developer".to_string() },
    );
}
