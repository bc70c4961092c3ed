//! The per-connection orchestrator for the raw-stream transport: feeds each
//! read into the frame reassembler under a buffer cap, tracks the local
//! authenticated flag, and hands every completed command to the dispatcher
//! in arrival order.

use vstd::prelude::*;
use crate::dispatch::{dispatch_post, AppState, AuthStatus, DataRequestHandler};
use crate::framing::{extract, FrameReassembler};
use crate::protocol::{ErrorKind, MessageRequest, ResponseEnvelope};
use crate::time::RFC3339_MAX_SECS;

verus! {

/// Cap on bytes buffered without a terminator; past it the connection is
/// torn down rather than letting a silent peer grow the buffer forever.
pub const MAX_PENDING_BYTES: usize = 65536;

/// State owned by one raw-stream connection.
pub struct Connection {
    reassembler: FrameReassembler,
    authenticated: bool,
}

impl Connection {
    pub closed spec fn wf(&self) -> bool {
        self.reassembler.wf()
    }

    pub closed spec fn term(&self) -> Seq<u8> {
        self.reassembler.term()
    }

    /// Bytes received but not yet completed into a frame.
    pub closed spec fn pending(&self) -> Seq<u8> {
        self.reassembler.pending()
    }

    /// Set only after a successful login command on this connection.
    pub closed spec fn is_authenticated(&self) -> bool {
        self.authenticated
    }

    pub fn new(terminator: Vec<u8>) -> (r: Self)
        requires
            terminator@.len() > 0,
        ensures
            r.wf(),
            r.term() == terminator@,
            r.pending() =~= Seq::<u8>::empty(),
            !r.is_authenticated(),
    {
        Connection { reassembler: FrameReassembler::new(terminator), authenticated: false }
    }

    /// Feeds one read into the reassembler: emits the completed commands, or
    /// reports a connection-fatal overflow when the unterminated remainder
    /// exceeds the cap. An empty frame (two adjacent terminators) counts as
    /// a complete command; the orchestrator treats it as a no-op and drops
    /// it rather than dispatching it.
    pub fn on_data(&mut self, chunk: &[u8]) -> (r: Result<Vec<Vec<u8>>, ErrorKind>)
        requires
            old(self).wf(),
        ensures
            final(self).wf(),
            final(self).term() == old(self).term(),
            final(self).is_authenticated() == old(self).is_authenticated(),
            final(self).pending() == extract(old(self).pending() + chunk@, old(self).term()).1,
            match r {
                Ok(frames) => frames.deep_view() =~~= extract(
                    old(self).pending() + chunk@,
                    old(self).term(),
                ).0 && final(self).pending().len() <= MAX_PENDING_BYTES,
                Err(k) => k == ErrorKind::FramingOverflow && final(self).pending().len()
                    > MAX_PENDING_BYTES,
            },
    {
        let frames = self.reassembler.feed(chunk);
        if self.reassembler.pending_len() > MAX_PENDING_BYTES {
            Err(ErrorKind::FramingOverflow)
        } else {
            Ok(frames)
        }
    }

    /// Records the outcome of a login command on this connection.
    pub fn set_authenticated(&mut self, ok: bool)
        ensures
            final(self).wf() == old(self).wf(),
            final(self).term() == old(self).term(),
            final(self).pending() == old(self).pending(),
            final(self).is_authenticated() == ok,
    {
        self.authenticated = ok;
    }

    /// Dispatches one completed command under this connection's local
    /// authenticated flag.
    pub fn process_command(&self, state: &mut AppState, request: &MessageRequest, now: u64) -> (r:
        ResponseEnvelope)
        requires
            old(state).wf(),
            now <= RFC3339_MAX_SECS,
        ensures
            final(state).wf(),
            dispatch_post(
                *old(state),
                *final(state),
                *request,
                if self.is_authenticated() {
                    AuthStatus::Authenticated
                } else {
                    AuthStatus::Anonymous
                },
                now,
                r,
            ),
    {
        let auth = if self.authenticated {
            AuthStatus::Authenticated
        } else {
            AuthStatus::Anonymous
        };
        DataRequestHandler::handle_message(state, request, auth, now)
    }
}

} // verus!
