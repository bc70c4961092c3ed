//! The command dispatcher: routes each parsed command to exactly one handler
//! under the session gating policy, and wraps the result in the response
//! envelope with the request's type echoed and a fresh timestamp. A gated
//! command without a live session, and an unknown command, are answered
//! without reaching any handler or the store.

use vstd::prelude::*;
use vstd::string::*;
use crate::cipher;
use crate::protocol::{
    str_eq,
    str_starts_with,
    ErrorKind,
    MessageRequest,
    MessageType,
    Payload,
    ResponseEnvelope,
    payload_is_error,
    parse_message_type,
    requires_session,
    spec_message_type,
    spec_requires_session,
};
use crate::session::SessionManager;
use crate::store::{copy_bytes, EncryptedStore};
use crate::time::{rfc3339_of, rfc3339_utc, RFC3339_MAX_SECS};
use crate::users::{spec_resolve, UserDirectory, UserEntry};

verus! {

/// How the caller of a dispatch was authenticated, as the orchestrators
/// resolved it: no token at all, a token the session table does not know, a
/// session past its expiry, or a live one.
#[derive(Clone, Copy, Debug, PartialEq, Eq, Structural)]
pub enum AuthStatus {
    Anonymous,
    Invalid,
    Expired,
    Authenticated,
}

/// The shared per-process state every handler works against.
pub struct AppState {
    pub users: UserDirectory,
    pub sessions: SessionManager,
    pub store: EncryptedStore,
}

impl AppState {
    pub open spec fn wf(&self) -> bool {
        self.sessions.wf() && self.store.wf()
    }

    pub fn new(encryption_key: u64) -> (r: Self)
        ensures
            r.wf(),
            r.users.entries() =~= Seq::<UserEntry>::empty(),
            r.sessions.table() =~= Map::<Seq<char>, crate::session::SessionView>::empty(),
            r.store.blobs() =~= Map::<Seq<char>, Seq<u8>>::empty(),
            r.store.key() == encryption_key,
    {
        AppState {
            users: UserDirectory::new(),
            sessions: SessionManager::new(),
            store: EncryptedStore::new(encryption_key),
        }
    }
}

/// The greeting text chosen for a user.
pub open spec fn greeting_reply(user: Seq<char>) -> Seq<char> {
    if user == "punctITok"@ {
        "Salut punctITok! Bine ai revenit! 👨‍💻"@
    } else if user == "admin"@ {
        "Bună ziua, Administrator! 👑"@
    } else {
        "Bună ziua! Bine ați venit! 👋"@
    }
}

/// The role reported for a user by the profile-data handler.
pub open spec fn role_of(user: Seq<char>) -> Seq<char> {
    if user == "punctITok"@ {
        "Developer"@
    } else {
        "User"@
    }
}

/// The identity-verification handler's decision.
pub open spec fn verified_user(user: Seq<char>) -> bool {
    user == "punctITok"@ || (user.len() >= 5 && user.take(5) == "admin"@)
}

pub open spec fn greeting_payload(user: Seq<char>, p: Payload) -> bool {
    match p {
        Payload::Greeting { greeting, user: u } => greeting@ == greeting_reply(user) && u@ == user,
        _ => false,
    }
}

pub open spec fn user_data_payload(user: Seq<char>, p: Payload) -> bool {
    match p {
        Payload::UserData { user: u, role } => u@ == user && role@ == role_of(user),
        _ => false,
    }
}

pub open spec fn status_payload(user: Seq<char>, p: Payload) -> bool {
    match p {
        Payload::Status { server_status, requested_by } => server_status@ == "online"@
            && requested_by@ == user,
        _ => false,
    }
}

pub open spec fn notification_payload(req: MessageRequest, p: Payload) -> bool {
    match p {
        Payload::Notification { content, delivered_to } => delivered_to@ == req.user_id@
            && content@ == (match req.content {
            Some(c) => c@,
            None => ("Notificare generală").spec_bytes(),
        }),
        _ => false,
    }
}

pub open spec fn identity_check_payload(user: Seq<char>, p: Payload) -> bool {
    match p {
        Payload::IdentityCheck { user: u, verified, trust_level } => u@ == user && verified
            == verified_user(user) && trust_level@ == (if verified_user(user) {
            "high"@
        } else {
            "medium"@
        }),
        _ => false,
    }
}

/// What an insert or update of the identity record leaves behind: a missing
/// payload or an unresolvable owner changes nothing and is an error; else the
/// content is sealed under the store key and replaces the owner's blob.
pub open spec fn upsert_result(
    pre: AppState,
    post: AppState,
    req: MessageRequest,
    success: bool,
    data: Payload,
    confirmation: Seq<char>,
) -> bool {
    match req.content {
        None => post.store == pre.store && !success && payload_is_error(
            data,
            ErrorKind::MissingContent,
        ),
        Some(c) => match spec_resolve(pre.users.entries(), req.user_id@) {
            None => post.store == pre.store && !success && payload_is_error(
                data,
                ErrorKind::UnknownOwner,
            ),
            Some(owner) => {
                &&& post.store.key() == pre.store.key()
                &&& post.store.blobs() == pre.store.blobs().insert(
                    owner,
                    cipher::seal_spec(pre.store.key(), c@),
                )
                &&& success
                &&& match data {
                    Payload::Message(m) => m@ == confirmation,
                    _ => false,
                }
            },
        },
    }
}

/// What a read of the identity record returns: unknown owner, no record yet
/// and a failed integrity check are distinct errors; otherwise the content
/// recovered from the stored blob.
pub open spec fn get_result(pre: AppState, req: MessageRequest, success: bool, data: Payload) -> bool {
    match spec_resolve(pre.users.entries(), req.user_id@) {
        None => !success && payload_is_error(data, ErrorKind::UnknownOwner),
        Some(owner) => {
            if !pre.store.blobs().contains_key(owner) {
                !success && payload_is_error(data, ErrorKind::NoRecord)
            } else {
                match cipher::open_spec(pre.store.key(), pre.store.blobs()[owner]) {
                    None => !success && payload_is_error(data, ErrorKind::DecryptionFailure),
                    Some(plain) => success && match data {
                        Payload::Record(v) => v@ == plain,
                        _ => false,
                    },
                }
            }
        },
    }
}

/// What the wallet summary returns: whether the resolved owner has a record.
pub open spec fn wallet_result(pre: AppState, req: MessageRequest, success: bool, data: Payload) -> bool {
    match spec_resolve(pre.users.entries(), req.user_id@) {
        None => !success && payload_is_error(data, ErrorKind::UnknownOwner),
        Some(owner) => success && data == Payload::HasRecord(
            pre.store.blobs().contains_key(owner),
        ),
    }
}

/// Builds an error payload of the given kind.
fn err_payload(kind: ErrorKind, message: &str) -> (r: Payload)
    ensures
        payload_is_error(r, kind),
{
    Payload::Error { kind, message: message.to_owned() }
}

pub fn handle_greeting(request: &MessageRequest) -> (r: (bool, Payload))
    ensures
        r.0,
        greeting_payload(request.user_id@, r.1),
{
    let greeting: &str = if str_eq(request.user_id.as_str(), "punctITok") {
        "Salut punctITok! Bine ai revenit! 👨‍💻"
    } else if str_eq(request.user_id.as_str(), "admin") {
        "Bună ziua, Administrator! 👑"
    } else {
        "Bună ziua! Bine ați venit! 👋"
    };
    (true, Payload::Greeting { greeting: greeting.to_owned(), user: request.user_id.clone() })
}

pub fn handle_user_data(request: &MessageRequest) -> (r: (bool, Payload))
    ensures
        r.0,
        user_data_payload(request.user_id@, r.1),
{
    let role: &str = if str_eq(request.user_id.as_str(), "punctITok") {
        "Developer"
    } else {
        "User"
    };
    (true, Payload::UserData { user: request.user_id.clone(), role: role.to_owned() })
}

pub fn handle_status_check(request: &MessageRequest) -> (r: (bool, Payload))
    ensures
        r.0,
        status_payload(request.user_id@, r.1),
{
    (
        true,
        Payload::Status {
            server_status: "online".to_owned(),
            requested_by: request.user_id.clone(),
        },
    )
}

pub fn handle_notification(request: &MessageRequest) -> (r: (bool, Payload))
    ensures
        r.0,
        notification_payload(*request, r.1),
{
    let content: Vec<u8> = match &request.content {
        Some(c) => copy_bytes(c),
        None => "Notificare generală".as_bytes_vec(),
    };
    (true, Payload::Notification { content, delivered_to: request.user_id.clone() })
}

pub fn handle_identity_verification(request: &MessageRequest) -> (r: (bool, Payload))
    ensures
        r.0,
        identity_check_payload(request.user_id@, r.1),
{
    let verified = str_eq(request.user_id.as_str(), "punctITok") || str_starts_with(
        request.user_id.as_str(),
        "admin",
    );
    proof {
        reveal_strlit("admin");
    }
    let trust_level: &str = if verified {
        "high"
    } else {
        "medium"
    };
    (
        true,
        Payload::IdentityCheck {
            user: request.user_id.clone(),
            verified,
            trust_level: trust_level.to_owned(),
        },
    )
}

pub fn handle_unknown_request(request: &MessageRequest) -> (r: (bool, Payload))
    ensures
        !r.0,
        payload_is_error(r.1, ErrorKind::UnknownCommand),
{
    (false, err_payload(ErrorKind::UnknownCommand, "unknown request"))
}

/// The handlers for the encrypted identity-card record.
pub struct IdentityCard {}

impl IdentityCard {
    /// Seals the request content and stores it for the resolved owner.
    pub fn insert(request: &MessageRequest, state: &mut AppState) -> (r: (bool, Payload))
        requires
            old(state).wf(),
        ensures
            final(state).wf(),
            final(state).users == old(state).users,
            final(state).sessions == old(state).sessions,
            upsert_result(*old(state), *final(state), *request, r.0, r.1, "Document successful"@),
    {
        let content = match &request.content {
            Some(c) => c,
            None => {
                return (false, err_payload(ErrorKind::MissingContent, "Must be a json"));
            },
        };
        let owner = match state.users.resolve(&request.user_id) {
            Some(o) => o,
            None => {
                return (false, err_payload(ErrorKind::UnknownOwner, "unknown user"));
            },
        };
        state.store.upsert(&owner, content);
        (true, Payload::Message("Document successful".to_owned()))
    }

    /// Replaces the stored record; same upsert semantics as `insert`.
    pub fn update(request: &MessageRequest, state: &mut AppState) -> (r: (bool, Payload))
        requires
            old(state).wf(),
        ensures
            final(state).wf(),
            final(state).users == old(state).users,
            final(state).sessions == old(state).sessions,
            upsert_result(
                *old(state),
                *final(state),
                *request,
                r.0,
                r.1,
                "Identity card updated successfully"@,
            ),
    {
        let content = match &request.content {
            Some(c) => c,
            None => {
                return (false, err_payload(ErrorKind::MissingContent, "Must be a json"));
            },
        };
        let owner = match state.users.resolve(&request.user_id) {
            Some(o) => o,
            None => {
                return (false, err_payload(ErrorKind::UnknownOwner, "unknown user"));
            },
        };
        state.store.upsert(&owner, content);
        (true, Payload::Message("Identity card updated successfully".to_owned()))
    }

    /// Fetches and opens the stored record for the resolved owner.
    pub fn get(request: &MessageRequest, state: &AppState) -> (r: (bool, Payload))
        requires
            state.wf(),
        ensures
            get_result(*state, *request, r.0, r.1),
    {
        let owner = match state.users.resolve(&request.user_id) {
            Some(o) => o,
            None => {
                return (false, err_payload(ErrorKind::UnknownOwner, "unknown user"));
            },
        };
        match state.store.get(&owner) {
            Ok(content) => (true, Payload::Record(content)),
            Err(ErrorKind::NoRecord) => (false, err_payload(ErrorKind::NoRecord, "no record")),
            Err(_) => (false, err_payload(ErrorKind::DecryptionFailure, "Decryption error")),
        }
    }
}

/// The wallet summary handler.
pub struct PersonalDataManager {}

impl PersonalDataManager {
    /// Reports whether the resolved owner currently has a stored record.
    pub fn get_wallet_data(request: &MessageRequest, state: &AppState) -> (r: (bool, Payload))
        requires
            state.wf(),
        ensures
            wallet_result(*state, *request, r.0, r.1),
    {
        let owner = match state.users.resolve(&request.user_id) {
            Some(o) => o,
            None => {
                return (false, err_payload(ErrorKind::UnknownOwner, "unknown user"));
            },
        };
        (true, Payload::HasRecord(state.store.contains(&owner)))
    }
}

/// Everything a dispatch promises: shared state other than the record store
/// untouched, the type echoed, a fresh timestamp, rejection without store
/// access for unknown or unauthorized commands, and the per-handler result
/// for every routed command.
pub open spec fn dispatch_post(
    pre: AppState,
    post: AppState,
    req: MessageRequest,
    auth: AuthStatus,
    now: u64,
    r: ResponseEnvelope,
) -> bool {
    let t = spec_message_type(req.message_type@);
    &&& post.users == pre.users
    &&& post.sessions == pre.sessions
    &&& post.store.key() == pre.store.key()
    &&& r.message_type@ == req.message_type@
    &&& r.timestamp@ == rfc3339_of(now)
    &&& (t == MessageType::Unknown ==> post.store == pre.store && !r.success && payload_is_error(
        r.data,
        ErrorKind::UnknownCommand,
    ))
    &&& (spec_requires_session(t) && auth == AuthStatus::Anonymous ==> post.store == pre.store
        && !r.success && payload_is_error(r.data, ErrorKind::AuthenticationRequired))
    &&& (spec_requires_session(t) && auth == AuthStatus::Invalid ==> post.store == pre.store
        && !r.success && payload_is_error(r.data, ErrorKind::InvalidToken))
    &&& (spec_requires_session(t) && auth == AuthStatus::Expired ==> post.store == pre.store
        && !r.success && payload_is_error(r.data, ErrorKind::ExpiredSession))
    &&& (t == MessageType::StatusCheck ==> post.store == pre.store && r.success && status_payload(
        req.user_id@,
        r.data,
    ))
    &&& (auth == AuthStatus::Authenticated ==> {
        &&& (t == MessageType::Greeting ==> post.store == pre.store && r.success
            && greeting_payload(req.user_id@, r.data))
        &&& (t == MessageType::UserData ==> post.store == pre.store && r.success
            && user_data_payload(req.user_id@, r.data))
        &&& (t == MessageType::Notification ==> post.store == pre.store && r.success
            && notification_payload(req, r.data))
        &&& (t == MessageType::IdentityVerify ==> post.store == pre.store && r.success
            && identity_check_payload(req.user_id@, r.data))
        &&& (t == MessageType::InsertIdentityCard ==> upsert_result(
            pre,
            post,
            req,
            r.success,
            r.data,
            "Document successful"@,
        ))
        &&& (t == MessageType::UpdateIdentityCard ==> upsert_result(
            pre,
            post,
            req,
            r.success,
            r.data,
            "Identity card updated successfully"@,
        ))
        &&& (t == MessageType::GetIdentityCard ==> post.store == pre.store && get_result(
            pre,
            req,
            r.success,
            r.data,
        ))
        &&& (t == MessageType::GetWalletCards ==> post.store == pre.store && wallet_result(
            pre,
            req,
            r.success,
            r.data,
        ))
    })
}

/// The message-type dispatcher for typed commands.
pub struct DataRequestHandler {}

impl DataRequestHandler {
    /// The reply for an unrecognized message type.
    pub fn unknown() -> (r: (bool, Payload))
        ensures
            !r.0,
            payload_is_error(r.1, ErrorKind::UnknownCommand),
    {
        (false, err_payload(ErrorKind::UnknownCommand, "unknown request"))
    }

    /// Routes one command: validates the type tag once, enforces the gating
    /// policy, invokes exactly one handler, and wraps the result in the
    /// envelope with the echoed type and a fresh timestamp. A gated command
    /// without a live session, and an unknown type, never reach a handler or
    /// the store.
    pub fn handle_message(
        state: &mut AppState,
        request: &MessageRequest,
        auth: AuthStatus,
        now: u64,
    ) -> (r: ResponseEnvelope)
        requires
            old(state).wf(),
            now <= RFC3339_MAX_SECS,
        ensures
            final(state).wf(),
            dispatch_post(*old(state), *final(state), *request, auth, now, r),
    {
        let t = parse_message_type(&request.message_type);
        let gated = requires_session(t);
        let (success, data) = if t == MessageType::Unknown {
            DataRequestHandler::unknown()
        } else if gated && auth == AuthStatus::Anonymous {
            (false, err_payload(ErrorKind::AuthenticationRequired, "authentication required"))
        } else if gated && auth == AuthStatus::Invalid {
            (false, err_payload(ErrorKind::InvalidToken, "invalid token"))
        } else if gated && auth == AuthStatus::Expired {
            (false, err_payload(ErrorKind::ExpiredSession, "session expired"))
        } else {
            match t {
                MessageType::Greeting => handle_greeting(request),
                MessageType::UserData => handle_user_data(request),
                MessageType::StatusCheck => handle_status_check(request),
                MessageType::Notification => handle_notification(request),
                MessageType::IdentityVerify => handle_identity_verification(request),
                MessageType::InsertIdentityCard => IdentityCard::insert(request, state),
                MessageType::GetIdentityCard => IdentityCard::get(request, state),
                MessageType::UpdateIdentityCard => IdentityCard::update(request, state),
                MessageType::GetWalletCards => PersonalDataManager::get_wallet_data(request, state),
                MessageType::Unknown => DataRequestHandler::unknown(),
            }
        };
        ResponseEnvelope {
            success,
            message_type: request.message_type.clone(),
            data,
            timestamp: rfc3339_utc(now),
        }
    }
}

} // verus!
