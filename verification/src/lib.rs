//! A session-gated command protocol for an identity-wallet service:
//! stream framing, session lifecycle, an encrypted record store, and a
//! typed command dispatcher.

pub mod ai;
pub mod auth;
pub mod cipher;
pub mod config;
pub mod connection;
pub mod dispatch;
pub mod framing;
pub mod protocol;
pub mod server;
pub mod session;
pub mod store;
pub mod time;
pub mod users;

use vstd::prelude::*;

verus! {

/// Number of seconds a freshly created session remains valid.
pub const SESSION_TTL_SECS: u64 = 86400;

} // verus!

