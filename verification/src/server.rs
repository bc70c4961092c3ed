//! The request/response orchestrator for the HTTP-style transport: each
//! inbound request carries its authentication in a bearer token, which is
//! resolved against the session table and handed to the dispatcher. The
//! transport itself (sockets, TLS, routing) lives outside this crate.

use vstd::prelude::*;
use crate::auth::{auth_middleware, spec_auth_status};
use crate::dispatch::{dispatch_post, AppState, DataRequestHandler};
use crate::protocol::{MessageRequest, ResponseEnvelope};
use crate::session::{SessionManager, SessionView};
use crate::time::{rfc3339_of, rfc3339_utc, RFC3339_MAX_SECS};

verus! {

/// The health probe's reply.
pub struct HealthStatus {
    pub status: String,
    pub message: String,
    pub timestamp: String,
}

/// The general-data probe's reply.
pub struct DataSummary {
    pub id: u64,
    pub message: String,
    pub secure: bool,
    pub timestamp: String,
}

/// The HTTP-facing service: owns the session manager; the network listener
/// around it is outside collaborator code.
pub struct HTTPServer {
    pub session_manager: SessionManager,
}

impl HTTPServer {
    pub open spec fn wf(&self) -> bool {
        self.session_manager.wf()
    }

    pub fn new() -> (r: Self)
        ensures
            r.wf(),
            r.session_manager.table() =~= Map::<Seq<char>, SessionView>::empty(),
    {
        HTTPServer { session_manager: SessionManager::new() }
    }

    /// The health probe: always reports the service as up.
    pub fn health_check(now: u64) -> (r: HealthStatus)
        requires
            now <= RFC3339_MAX_SECS,
        ensures
            r.status@ == "ok"@,
            r.message@ == "Server is running"@,
            r.timestamp@ == rfc3339_of(now),
    {
        HealthStatus {
            status: "ok".to_owned(),
            message: "Server is running".to_owned(),
            timestamp: rfc3339_utc(now),
        }
    }

    /// The general-data probe behind the authenticated routes.
    pub fn get_data(now: u64) -> (r: DataSummary)
        requires
            now <= RFC3339_MAX_SECS,
        ensures
            r.id == 1,
            r.message@ == "Hello from HTTPS server!"@,
            r.secure,
            r.timestamp@ == rfc3339_of(now),
    {
        DataSummary {
            id: 1,
            message: "Hello from HTTPS server!".to_owned(),
            secure: true,
            timestamp: rfc3339_utc(now),
        }
    }
}

/// Handles one typed command arriving over the request/response transport:
/// resolves the bearer token against the session table, then dispatches
/// under the resulting authentication status.
pub fn handle_api_message(
    state: &mut AppState,
    auth_header: Option<&String>,
    request: &MessageRequest,
    now: u64,
) -> (r: ResponseEnvelope)
    requires
        old(state).wf(),
        now <= RFC3339_MAX_SECS,
    ensures
        final(state).wf(),
        dispatch_post(
            *old(state),
            *final(state),
            *request,
            spec_auth_status(
                old(state).sessions.table(),
                match auth_header {
                    Some(h) => Some(h@),
                    None => None,
                },
                now,
            ),
            now,
            r,
        ),
{
    let auth = auth_middleware(&state.sessions, auth_header, now);
    DataRequestHandler::handle_message(state, request, auth, now)
}

} // verus!
