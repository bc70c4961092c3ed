use identity_wallet::ai::AiRequests;
use identity_wallet::auth::{AuthRequestHandler, LoginRequest, RegisterRequest};
use identity_wallet::connection::Connection;
use identity_wallet::dispatch::AppState;
use identity_wallet::protocol::{ErrorKind, MessageRequest, Payload, ProtocolHandler};
use identity_wallet::config::ServerConfig;
use identity_wallet::server::handle_api_message;

const KEY: u64 = 0x00c0_ffee;
const NOW: u64 = 1_700_000_000;

fn request(message_type: &str, user: &str, content: Option<Vec<u8>>) -> MessageRequest {
    MessageRequest {
        message_type: message_type.to_string(),
        user_id: user.to_string(),
        content,
    }
}

fn name_a_json() -> Vec<u8> {
    let mut m = serde_json::Map::new();
    m.insert("name".to_string(), serde_json::Value::String("A".to_string()));
    serde_json::to_vec(&serde_json::Value::Object(m)).expect("serializes")
}

#[test]
fn login_insert_get_and_reject_without_token() {
    let mut state = AppState::new(KEY);
    let reg = RegisterRequest {
        username: "alice".to_string(),
        email: "alice@example.com".to_string(),
        phone: "123".to_string(),
    };
    assert!(AuthRequestHandler::handle_register(&mut state, &reg).success);

    // login with valid credentials: the external check passed
    let login = LoginRequest { username: "alice".to_string(), password: "pw".to_string() };
    let r = AuthRequestHandler::handle_login(&mut state, &login, true, NOW);
    assert!(r.success);
    assert_eq!(r.expires_in, 86400);
    let token = r.token.expect("token issued");
    let header = format!("Bearer {token}");

    // insert the identity card with that token
    let content = name_a_json();
    let ins = request("InsertIdentityCard", "alice", Some(content.clone()));
    let env = handle_api_message(&mut state, Some(&header), &ins, NOW);
    assert!(env.success, "insert failed: {:?}", env.data);
    assert_eq!(env.message_type, "InsertIdentityCard");

    // get it back: the data is deep-equal to {"name":"A"}
    let get = request("GetIdentityCard", "alice", None);
    let env = handle_api_message(&mut state, Some(&header), &get, NOW);
    assert!(env.success);
    let bytes = match &env.data {
        Payload::Record(b) => b.clone(),
        other => panic!("expected a record, got {other:?}"),
    };
    let got: serde_json::Value = serde_json::from_slice(&bytes).expect("valid json");
    let want: serde_json::Value = serde_json::from_slice(&name_a_json()).expect("valid json");
    assert_eq!(got, want);
    let expected_ts = chrono::DateTime::<chrono::Utc>::from_timestamp(NOW as i64, 0)
        .expect("in range")
        .to_rfc3339();
    assert_eq!(env.timestamp, expected_ts);

    // the same command with no token is rejected without touching the store
    let env = handle_api_message(&mut state, None, &get, NOW);
    assert!(!env.success);
    assert_eq!(env.message_type, "GetIdentityCard");
    match &env.data {
        Payload::Error { kind, .. } => assert_eq!(*kind, ErrorKind::AuthenticationRequired),
        other => panic!("expected an error, got {other:?}"),
    }
}

#[test]
fn unknown_token_is_rejected_as_invalid() {
    let mut state = AppState::new(KEY);
    let header = "Bearer 0123456789abcdef".to_string();
    let get = request("GetIdentityCard", "alice", None);
    let env = handle_api_message(&mut state, Some(&header), &get, NOW);
    assert!(!env.success);
    match &env.data {
        Payload::Error { kind, .. } => assert_eq!(*kind, ErrorKind::InvalidToken),
        other => panic!("expected an error, got {other:?}"),
    }
}

#[test]
fn expired_token_is_rejected_end_to_end() {
    let mut state = AppState::new(KEY);
    let reg = RegisterRequest {
        username: "alice".to_string(),
        email: "alice@example.com".to_string(),
        phone: "123".to_string(),
    };
    AuthRequestHandler::handle_register(&mut state, &reg);
    let login = LoginRequest { username: "alice".to_string(), password: "pw".to_string() };
    let token = AuthRequestHandler::handle_login(&mut state, &login, true, NOW).token.unwrap();
    let header = format!("Bearer {token}");
    let get = request("GetIdentityCard", "alice", None);
    let env = handle_api_message(&mut state, Some(&header), &get, NOW + 86400);
    assert!(!env.success);
    match &env.data {
        Payload::Error { kind, .. } => assert_eq!(*kind, ErrorKind::ExpiredSession),
        other => panic!("expected an error, got {other:?}"),
    }
}

#[test]
fn raw_connection_gates_commands_until_login() {
    let mut state = AppState::new(KEY);
    let reg = RegisterRequest {
        username: "alice".to_string(),
        email: "alice@example.com".to_string(),
        phone: "123".to_string(),
    };
    AuthRequestHandler::handle_register(&mut state, &reg);

    let mut conn = Connection::new(b"END".to_vec());
    let frames = conn.on_data(b"firstENDsec").expect("no overflow");
    assert_eq!(frames, vec![b"first".to_vec()]);

    let ins = request("InsertIdentityCard", "alice", Some(b"{\"name\":\"A\"}".to_vec()));
    let env = conn.process_command(&mut state, &ins, NOW);
    assert!(!env.success);
    match &env.data {
        Payload::Error { kind, .. } => assert_eq!(*kind, ErrorKind::AuthenticationRequired),
        other => panic!("expected an error, got {other:?}"),
    }

    conn.set_authenticated(true);
    let env = conn.process_command(&mut state, &ins, NOW);
    assert!(env.success);
}

#[test]
fn protocol_handler_holds_reply_text() {
    let mut p = ProtocolHandler::new();
    assert!(p.get_text().is_none());
    p.set_text("must loggin".to_string());
    assert_eq!(p.get_text(), Some("must loggin".to_string()));
}

#[test]
fn server_config_collects_its_parts() {
    let mut c = ServerConfig::new();
    c.set_ip("127.0.0.1".to_string());
    c.set_port(1234);
    c.set_terminator("END".to_string());
    let (ip, port, term) = c.address_parts();
    assert_eq!(ip, Some("127.0.0.1".to_string()));
    assert_eq!(port, Some(1234));
    assert_eq!(term, Some("END".to_string()));
}

#[test]
fn chat_replies_are_wrapped_with_echo_and_timestamp() {
    let req = request("ChatBot", "alice", None);
    let env = AiRequests::wrap_chat_reply(&req, true, b"{\"answer\":42}".to_vec(), 0);
    assert!(env.success);
    assert_eq!(env.message_type, "ChatBot");
    assert_eq!(env.data, Payload::Record(b"{\"answer\":42}".to_vec()));
    assert_eq!(env.timestamp, "1970-01-01T00:00:00+00:00");
}
