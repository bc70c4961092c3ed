//! Authentication requests: login issues a session token once the external
//! credential check has passed, registration records a new user, and the
//! bearer-token middleware resolves a request's authentication status.
//! Credential verification itself is an outside collaborator; this core only
//! consumes its boolean verdict.

use vstd::prelude::*;
use crate::dispatch::{AppState, AuthStatus};
use crate::protocol::str_eq;
use crate::protocol::str_starts_with;
use crate::session::{SessionManager, SessionView};
use crate::time::{rfc3339_of, rfc3339_utc, RFC3339_MAX_SECS};
use crate::users::{spec_email_taken, UserEntry};

verus! {

pub struct LoginRequest {
    pub username: String,
    pub password: String,
}

pub struct RegisterRequest {
    pub username: String,
    pub email: String,
    pub phone: String,
}

pub struct UserInfo {
    pub username: String,
    pub role: String,
    pub permissions: Vec<String>,
    pub login_time: String,
}

pub struct LoginResponse {
    pub success: bool,
    pub token: Option<String>,
    pub expires_in: u64,
    pub user_info: Option<UserInfo>,
    pub message: String,
}

pub struct RegisterResponse {
    pub success: bool,
    pub message: String,
}

/// The role reported in the login response.
pub open spec fn login_role(user: Seq<char>) -> Seq<char> {
    if user == "punctITok"@ {
        "Lead Developer"@
    } else {
        "Admin"@
    }
}

/// The token text inside a bearer authorization header, if it is one.
pub open spec fn spec_bearer(h: Seq<char>) -> Option<Seq<char>> {
    if h.len() >= 7 && h.take(7) == "Bearer "@ {
        Some(h.skip(7))
    } else {
        None
    }
}

/// How a request with the given authorization header is authenticated
/// against the session table at time `now`.
pub open spec fn spec_auth_status(
    m: Map<Seq<char>, SessionView>,
    header: Option<Seq<char>>,
    now: u64,
) -> AuthStatus {
    match header {
        None => AuthStatus::Anonymous,
        Some(h) => match spec_bearer(h) {
            None => AuthStatus::Anonymous,
            Some(t) => {
                if !m.contains_key(t) {
                    AuthStatus::Invalid
                } else if now >= m[t].expires_at {
                    AuthStatus::Expired
                } else {
                    AuthStatus::Authenticated
                }
            },
        },
    }
}

/// Extracts the token from a `Bearer` authorization header.
pub fn bearer_token(header: &str) -> (r: Option<String>)
    ensures
        match r {
            Some(tok) => spec_bearer(header@) == Some(tok@),
            None => spec_bearer(header@) == None::<Seq<char>>,
        },
{
    proof {
        reveal_strlit("Bearer ");
    }
    if str_starts_with(header, "Bearer ") {
        let n = header.unicode_len();
        let tok = header.substring_char(7, n).to_owned();
        Some(tok)
    } else {
        None
    }
}

/// Resolves a request's authentication status: extracts the bearer token and
/// holds it against the session table at time `now`. A missing or malformed
/// header is anonymous, an unknown token is invalid, and a known token is
/// expired or live by its window.
pub fn auth_middleware(sessions: &SessionManager, header: Option<&String>, now: u64) -> (r:
    AuthStatus)
    requires
        sessions.wf(),
    ensures
        r == spec_auth_status(
            sessions.table(),
            match header {
                Some(h) => Some(h@),
                None => None,
            },
            now,
        ),
{
    match header {
        None => AuthStatus::Anonymous,
        Some(h) => {
            match bearer_token(h.as_str()) {
                None => AuthStatus::Anonymous,
                Some(tok) => {
                    match sessions.validate_token(&tok, now) {
                        Some(_session) => AuthStatus::Authenticated,
                        None => {
                            if sessions.contains_token(&tok) {
                                AuthStatus::Expired
                            } else {
                                AuthStatus::Invalid
                            }
                        },
                    }
                },
            }
        },
    }
}

/// The login and registration handlers.
pub struct AuthRequestHandler {}

impl AuthRequestHandler {
    /// Issues a session for the user once the external credential check has
    /// passed, reporting the fresh token and its lifetime: exactly one
    /// session is added and every existing session is kept. A failed check
    /// changes nothing and reports no token; so does the vanishingly rare
    /// case that no fresh random token could be drawn, which can only
    /// happen against a non-empty table — on a fresh state a successful
    /// credential check always yields a token.
    pub fn handle_login(
        state: &mut AppState,
        login_req: &LoginRequest,
        credentials_ok: bool,
        now: u64,
    ) -> (r: LoginResponse)
        requires
            old(state).wf(),
            now <= RFC3339_MAX_SECS,
        ensures
            final(state).wf(),
            final(state).users == old(state).users,
            final(state).store == old(state).store,
            r.success ==> credentials_ok,
            !credentials_ok ==> final(state).sessions == old(state).sessions && !r.success
                && r.token is None && r.expires_in == 0 && r.user_info is None && r.message@
                == "Invalid credentials"@,
            credentials_ok ==> match r.token {
                Some(tok) => {
                    &&& r.success
                    &&& r.expires_in == crate::SESSION_TTL_SECS
                    &&& !old(state).sessions.table().contains_key(tok@)
                    &&& final(state).sessions.table() =~= old(state).sessions.table().insert(
                        tok@,
                        SessionView {
                            token: tok@,
                            user_id: login_req.username@,
                            created_at: now,
                            expires_at: (now + crate::SESSION_TTL_SECS) as u64,
                        },
                    )
                    &&& match r.user_info {
                        Some(ui) => ui.username@ == login_req.username@ && ui.role@ == login_role(
                            login_req.username@,
                        ) && ui.login_time@ == rfc3339_of(now) && ui.permissions.deep_view()
                            =~= seq!["read"@, "write"@, "admin"@],
                        None => false,
                    }
                    &&& r.message@ == "Login successful"@
                },
                None => {
                    &&& !r.success
                    &&& final(state).sessions == old(state).sessions
                    &&& r.expires_in == 0
                    &&& r.user_info is None
                    &&& r.message@ == "no session could be issued"@
                    &&& exists|t: Seq<char>| old(state).sessions.table().contains_key(t)
                },
            },
            credentials_ok && old(state).sessions.table() =~= Map::<
                Seq<char>,
                SessionView,
            >::empty() ==> r.token is Some,
    {
        if credentials_ok {
            match state.sessions.create_session(&login_req.username, now) {
                Some(token) => {
                    let role: &str = if str_eq(login_req.username.as_str(), "punctITok") {
                        "Lead Developer"
                    } else {
                        "Admin"
                    };
                    let mut permissions: Vec<String> = Vec::new();
                    permissions.push("read".to_owned());
                    permissions.push("write".to_owned());
                    permissions.push("admin".to_owned());
                    assert(permissions.deep_view() =~= seq!["read"@, "write"@, "admin"@]);
                    let user_info = UserInfo {
                        username: login_req.username.clone(),
                        role: role.to_owned(),
                        permissions,
                        login_time: rfc3339_utc(now),
                    };
                    LoginResponse {
                        success: true,
                        token: Some(token),
                        expires_in: crate::SESSION_TTL_SECS,
                        user_info: Some(user_info),
                        message: "Login successful".to_owned(),
                    }
                },
                None => LoginResponse {
                    success: false,
                    token: None,
                    expires_in: 0,
                    user_info: None,
                    message: "no session could be issued".to_owned(),
                },
            }
        } else {
            LoginResponse {
                success: false,
                token: None,
                expires_in: 0,
                user_info: None,
                message: "Invalid credentials".to_owned(),
            }
        }
    }

    /// Registers a user under a non-empty username and a not-yet-taken email
    /// identity; anything else is refused and changes nothing.
    pub fn handle_register(state: &mut AppState, register_req: &RegisterRequest) -> (r:
        RegisterResponse)
        requires
            old(state).wf(),
        ensures
            final(state).wf(),
            final(state).sessions == old(state).sessions,
            final(state).store == old(state).store,
            r.success == (register_req.username@.len() > 0 && !spec_email_taken(
                old(state).users.entries(),
                register_req.email@,
            )),
            r.success ==> r.message@ == "account created"@,
            register_req.username@.len() == 0 ==> r.message@ == "username must not be empty"@,
            register_req.username@.len() > 0 && spec_email_taken(
                old(state).users.entries(),
                register_req.email@,
            ) ==> r.message@ == "email already registered"@,
            r.success ==> final(state).users.entries() =~= old(state).users.entries().push(
                UserEntry {
                    email: register_req.email,
                    username: register_req.username,
                    phone: register_req.phone,
                },
            ),
            !r.success ==> final(state).users == old(state).users,
    {
        if register_req.username.as_str().is_empty() {
            return RegisterResponse {
                success: false,
                message: "username must not be empty".to_owned(),
            };
        }
        let entry = UserEntry {
            email: register_req.email.clone(),
            username: register_req.username.clone(),
            phone: register_req.phone.clone(),
        };
        let added = state.users.add_user(entry);
        if added {
            RegisterResponse { success: true, message: "account created".to_owned() }
        } else {
            RegisterResponse { success: false, message: "email already registered".to_owned() }
        }
    }
}

} // verus!
