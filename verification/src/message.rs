//! The request/response envelope: a call carries a caller-assigned id and an
//! opaque payload; a response carries a status and a streaming body.

use vstd::prelude::*;

use crate::body::Body;
use crate::protocol::ProtocolId;
use crate::protocol::copy_bytes;

verus! {

/// The status code of a call that completed normally.
pub const STATUS_OK: u64 = 0;

/// The status code reporting that no registered protocol matched.
pub const STATUS_PROTOCOL_SERVICE_NOT_FOUND: u64 = 1;

/// The status code reporting that a matched factory failed to construct a
/// handler.
pub const STATUS_FACTORY_FAILED: u64 = 2;

/// One logical call on one substream: a caller-assigned correlation id —
/// never interpreted by this layer — and an opaque payload.
#[derive(Debug)]
pub struct Request {
    /// The caller's correlation id.
    pub call_id: u64,
    /// The opaque payload bytes.
    pub payload: Vec<u8>,
}

impl Request {
    /// A request carrying `payload` under the caller's id.
    pub fn new(call_id: u64, payload: Vec<u8>) -> (r: Request)
        ensures
            r.call_id == call_id,
            r.payload@ == payload@,
    {
        Request { call_id, payload }
    }

    /// Consumes the request and yields its payload.
    pub fn into_message(self) -> (r: Vec<u8>)
        ensures
            r@ == self.payload@,
    {
        self.payload
    }
}

/// The per-call outcome delivered to the remote caller: a code and, for
/// failures, diagnostic detail bytes.
#[derive(Debug)]
pub struct RpcStatus {
    /// The outcome code; `STATUS_OK` for success.
    pub code: u64,
    /// Diagnostic details, empty on success.
    pub details: Vec<u8>,
}

impl RpcStatus {
    /// The success status.
    pub fn ok() -> (r: RpcStatus)
        ensures
            r.code == STATUS_OK,
            r.details@ == Seq::<u8>::empty(),
    {
        RpcStatus { code: STATUS_OK, details: Vec::new() }
    }

    /// The status reporting an unmatched protocol, carrying the queried
    /// identifier verbatim for diagnostics.
    pub fn protocol_service_not_found(protocol: &ProtocolId) -> (r: RpcStatus)
        ensures
            r.code == STATUS_PROTOCOL_SERVICE_NOT_FOUND,
            r.details@ == protocol@,
    {
        RpcStatus {
            code: STATUS_PROTOCOL_SERVICE_NOT_FOUND,
            details: copy_bytes(protocol.as_bytes()),
        }
    }

    /// The status reporting a handler-construction failure.
    pub fn factory_failed(protocol: &ProtocolId) -> (r: RpcStatus)
        ensures
            r.code == STATUS_FACTORY_FAILED,
            r.details@ == protocol@,
    {
        RpcStatus { code: STATUS_FACTORY_FAILED, details: copy_bytes(protocol.as_bytes()) }
    }

    /// Whether this status reports success.
    pub fn is_ok(&self) -> (r: bool)
        ensures
            r == (self.code == STATUS_OK),
    {
        self.code == STATUS_OK
    }
}

/// What a handler returns for one call: a status and a streaming body.
#[derive(Debug)]
pub struct Response {
    /// The per-call outcome.
    pub status: RpcStatus,
    /// The payload chunks, streamed back one frame at a time.
    pub body: Body,
}

impl Response {
    /// A successful response streaming exactly one payload chunk.
    pub fn from_message(msg: Vec<u8>) -> (r: Response)
        ensures
            r.status.code == STATUS_OK,
            r.body.remaining().len() == 1,
            r.body.remaining()[0] == msg@,
    {
        Response { status: RpcStatus::ok(), body: Body::from_message(msg) }
    }

    /// A failure response with an empty body.
    pub fn from_status(status: RpcStatus) -> (r: Response)
        ensures
            r.status == status,
            r.body.remaining().len() == 0,
    {
        Response { status, body: Body::empty() }
    }

    /// Consumes the response and yields its streaming body.
    pub fn into_message(self) -> (r: Body)
        ensures
            r == self.body,
    {
        self.body
    }
}

} // verus!
