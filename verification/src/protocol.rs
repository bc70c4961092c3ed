//! The command/response protocol surface: the error taxonomy, the closed set
//! of message types, request and response envelopes, and the small text
//! protocol holder used by the raw-stream transport.

use vstd::prelude::*;

verus! {

/// Every failure a command can be answered with.
#[derive(Clone, Copy, Debug, PartialEq, Eq, Structural)]
pub enum ErrorKind {
    /// The connection buffer grew past its cap without a terminator.
    FramingOverflow,
    /// A gated command arrived without any session.
    AuthenticationRequired,
    /// The presented token is not in the session table.
    InvalidToken,
    /// The presented token's session is past its expiry.
    ExpiredSession,
    /// The asserted identity resolves to no known user.
    UnknownOwner,
    /// The owner is known but has no stored record yet.
    NoRecord,
    /// The stored blob failed its integrity check on decryption.
    DecryptionFailure,
    /// The persistence layer failed.
    PersistenceError,
    /// The message type is not one of the known commands.
    UnknownCommand,
    /// The command needs a content payload and carried none.
    MissingContent,
}

/// Structured response data; the transport serializes it at the edge.
#[derive(Debug, PartialEq, Eq)]
pub enum Payload {
    /// A plain confirmation or informational text.
    Message(String),
    /// A failure, with its kind and a human-readable message.
    Error { kind: ErrorKind, message: String },
    /// Decrypted identity content, as its canonical serialized bytes.
    Record(Vec<u8>),
    /// Whether the owner currently has a stored identity record.
    HasRecord(bool),
    /// The greeting handler's reply.
    Greeting { greeting: String, user: String },
    /// The profile-data handler's reply.
    UserData { user: String, role: String },
    /// The status handler's reply.
    Status { server_status: String, requested_by: String },
    /// The notification handler's reply.
    Notification { content: Vec<u8>, delivered_to: String },
    /// The identity-verification handler's reply.
    IdentityCheck { user: String, verified: bool, trust_level: String },
}

/// The payload is an error of kind `k`.
pub open spec fn payload_is_error(p: Payload, k: ErrorKind) -> bool {
    match p {
        Payload::Error { kind, .. } => kind == k,
        _ => false,
    }
}

/// One inbound command: a type tag, a caller-asserted identity, and an
/// optional content payload in canonical serialized form.
#[derive(Debug)]
pub struct MessageRequest {
    pub message_type: String,
    pub user_id: String,
    pub content: Option<Vec<u8>>,
}

/// The uniform response wrapper: the request's type echoed back, a success
/// flag, structured data, and an RFC 3339 timestamp.
#[derive(Debug)]
pub struct ResponseEnvelope {
    pub success: bool,
    pub message_type: String,
    pub data: Payload,
    pub timestamp: String,
}

/// The closed set of commands the dispatcher routes; anything else is
/// `Unknown` and is answered without reaching any handler.
#[derive(Clone, Copy, Debug, PartialEq, Eq, Structural)]
pub enum MessageType {
    Greeting,
    UserData,
    StatusCheck,
    Notification,
    IdentityVerify,
    InsertIdentityCard,
    GetIdentityCard,
    UpdateIdentityCard,
    GetWalletCards,
    Unknown,
}

/// Which tag a raw message-type string denotes.
pub open spec fn spec_message_type(s: Seq<char>) -> MessageType {
    if s == "greeting"@ {
        MessageType::Greeting
    } else if s == "user_data"@ {
        MessageType::UserData
    } else if s == "status_check"@ {
        MessageType::StatusCheck
    } else if s == "notification"@ {
        MessageType::Notification
    } else if s == "identity_verify"@ {
        MessageType::IdentityVerify
    } else if s == "InsertIdentityCard"@ {
        MessageType::InsertIdentityCard
    } else if s == "GetIdentityCard"@ {
        MessageType::GetIdentityCard
    } else if s == "UpdateIdentityCard"@ {
        MessageType::UpdateIdentityCard
    } else if s == "GetWalletCards"@ {
        MessageType::GetWalletCards
    } else {
        MessageType::Unknown
    }
}

/// Message types that may be dispatched without a valid session. Only the
/// status probe is on the allow-list; unknown types never reach a handler.
pub open spec fn spec_requires_session(t: MessageType) -> bool {
    match t {
        MessageType::StatusCheck => false,
        MessageType::Unknown => false,
        _ => true,
    }
}

/// Compares two string slices by value.
pub fn str_eq(a: &str, b: &str) -> (r: bool)
    ensures
        r == (a@ == b@),
{
    let na = a.unicode_len();
    let nb = b.unicode_len();
    if na != nb {
        return false;
    }
    let mut i: usize = 0;
    while i < na
        invariant
            i <= na,
            na == a@.len(),
            na == b@.len(),
            forall|k: int| 0 <= k < i ==> a@[k] == b@[k],
        decreases na - i,
    {
        if a.get_char(i) != b.get_char(i) {
            return false;
        }
        i = i + 1;
    }
    assert(a@ =~= b@);
    true
}

/// Whether `a` starts with the prefix `p`, by characters.
pub fn str_starts_with(a: &str, p: &str) -> (r: bool)
    ensures
        r == (a@.len() >= p@.len() && a@.take(p@.len() as int) == p@),
{
    let na = a.unicode_len();
    let np = p.unicode_len();
    if na < np {
        return false;
    }
    let mut i: usize = 0;
    while i < np
        invariant
            i <= np,
            np == p@.len(),
            na == a@.len(),
            na >= np,
            forall|k: int| 0 <= k < i ==> a@[k] == p@[k],
        decreases np - i,
    {
        if a.get_char(i) != p.get_char(i) {
            assert(a@.take(np as int)[i as int] != p@[i as int]);
            return false;
        }
        i = i + 1;
    }
    assert(a@.take(np as int) =~= p@);
    true
}

/// Validates an inbound message-type string into the closed tag set, once,
/// at the boundary.
pub fn parse_message_type(s: &String) -> (t: MessageType)
    ensures
        t == spec_message_type(s@),
{
    if str_eq(s.as_str(), "greeting") {
        MessageType::Greeting
    } else if str_eq(s.as_str(), "user_data") {
        MessageType::UserData
    } else if str_eq(s.as_str(), "status_check") {
        MessageType::StatusCheck
    } else if str_eq(s.as_str(), "notification") {
        MessageType::Notification
    } else if str_eq(s.as_str(), "identity_verify") {
        MessageType::IdentityVerify
    } else if str_eq(s.as_str(), "InsertIdentityCard") {
        MessageType::InsertIdentityCard
    } else if str_eq(s.as_str(), "GetIdentityCard") {
        MessageType::GetIdentityCard
    } else if str_eq(s.as_str(), "UpdateIdentityCard") {
        MessageType::UpdateIdentityCard
    } else if str_eq(s.as_str(), "GetWalletCards") {
        MessageType::GetWalletCards
    } else {
        MessageType::Unknown
    }
}

/// Whether a message type is gated behind a valid session.
pub fn requires_session(t: MessageType) -> (r: bool)
    ensures
        r == spec_requires_session(t),
{
    match t {
        MessageType::StatusCheck => false,
        MessageType::Unknown => false,
        _ => true,
    }
}

/// Holds the text of the next raw-protocol reply to send.
pub struct ProtocolHandler {
    text: Option<String>,
}

impl ProtocolHandler {
    pub closed spec fn text_view(&self) -> Option<Seq<char>> {
        match self.text {
            Some(ref s) => Some(s@),
            None => None,
        }
    }

    pub fn new() -> (r: Self)
        ensures
            r.text_view() == None::<Seq<char>>,
    {
        ProtocolHandler { text: None }
    }

    pub fn set_text(&mut self, text: String)
        ensures
            final(self).text_view() == Some(text@),
    {
        self.text = Some(text);
    }

    pub fn get_text(&self) -> (r: Option<String>)
        ensures
            match r {
                Some(s) => self.text_view() == Some(s@),
                None => self.text_view() == None::<Seq<char>>,
            },
    {
        match &self.text {
            Some(s) => Some(s.clone()),
            None => None,
        }
    }
}

} // verus!
