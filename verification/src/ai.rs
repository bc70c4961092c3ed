//! Envelope handling for requests forwarded to the chat microservice. The
//! HTTP call itself is transport work outside this crate; what is verified
//! here is the envelope the reply is wrapped in: the echoed type and the
//! fresh timestamp, whatever the service answered.

use vstd::prelude::*;
use crate::protocol::{MessageRequest, Payload, ResponseEnvelope};
use crate::time::{rfc3339_of, rfc3339_utc, RFC3339_MAX_SECS};

verus! {

/// The forwarding handler for chat requests.
pub struct AiRequests {}

impl AiRequests {
    /// Wraps whatever the chat service answered into the response envelope,
    /// echoing the request's type and stamping the reply.
    pub fn wrap_chat_reply(
        request: &MessageRequest,
        success: bool,
        reply: Vec<u8>,
        now: u64,
    ) -> (r: ResponseEnvelope)
        requires
            now <= RFC3339_MAX_SECS,
        ensures
            r.success == success,
            r.message_type@ == request.message_type@,
            r.timestamp@ == rfc3339_of(now),
            r.data == Payload::Record(reply),
    {
        ResponseEnvelope {
            success,
            message_type: request.message_type.clone(),
            data: Payload::Record(reply),
            timestamp: rfc3339_utc(now),
        }
    }
}

} // verus!
