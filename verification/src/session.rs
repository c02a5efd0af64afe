//! The envelope-and-correlation layer: which bodies are requests, which
//! response body answers which request, and the worker's single-computation
//! session with its abort discipline.
//!
//! The worker runs one batch (or one opaque call) at a time. While a batch
//! execution is pending, an abort must still be deliverable: handling it
//! discards the pending computation, and a batch completed after an abort
//! yields no response at all, so the aborted request can never receive a
//! successful result.

use vstd::prelude::*;

use crate::types::{Body, BodyM, Message, MessageM, MessageType};

verus! {

/// A correlation identifier pairs a response with the request that caused
/// it, independent of arrival order.
pub open spec fn ids_correlate(request_id: u64, response_id: u64) -> bool {
    request_id == response_id
}

/// The bodies with which the host addresses the worker.
pub open spec fn is_worker_request(b: BodyM) -> bool {
    ||| b is WorkerPingRequest
    ||| b is WorkerShutdownRequest
    ||| b is WorkerAbortRequest
    ||| b is WorkerCapabilityTEERakReportRequest
    ||| b is WorkerCapabilityTEERakAvrRequest
    ||| b is WorkerRPCCallRequest
    ||| b is WorkerRuntimeCallBatchRequest
}

/// The bodies with which the worker addresses the host.
pub open spec fn is_host_request(b: BodyM) -> bool {
    ||| b is HostRPCCallRequest
    ||| b is HostStorageGetRequest
    ||| b is HostStorageGetBatchRequest
    ||| b is HostLocalStorageGetRequest
    ||| b is HostLocalStorageSetRequest
}

/// The closed catalog of request/response pairs: which success body answers
/// which request. A generic `Error` body may stand in place of any expected
/// response; a shutdown request expects no response at all.
pub open spec fn responds_to(req: BodyM, resp: BodyM) -> bool {
    resp is Error || match req {
        BodyM::WorkerPingRequest => resp is Empty,
        BodyM::WorkerAbortRequest => resp is WorkerAbortResponse,
        BodyM::WorkerCapabilityTEERakReportRequest { .. } => resp
            is WorkerCapabilityTEERakReportResponse,
        BodyM::WorkerCapabilityTEERakAvrRequest { .. } => resp is WorkerCapabilityTEERakAvrResponse,
        BodyM::WorkerRPCCallRequest { .. } => resp is WorkerRPCCallResponse,
        BodyM::WorkerRuntimeCallBatchRequest { .. } => resp is WorkerRuntimeCallBatchResponse,
        BodyM::HostRPCCallRequest { .. } => resp is HostRPCCallResponse,
        BodyM::HostStorageGetRequest { .. } => resp is HostStorageGetResponse,
        BodyM::HostStorageGetBatchRequest { .. } => resp is HostStorageGetBatchResponse,
        BodyM::HostLocalStorageGetRequest { .. } => resp is HostLocalStorageGetResponse,
        BodyM::HostLocalStorageSetRequest { .. } => resp is HostLocalStorageSetResponse,
        _ => false,
    }
}

/// The two id spaces are never conflated: no body is at once a
/// worker-interface and a host-interface request, so a direction tag beside
/// the id suffices to attribute every response.
pub proof fn lemma_request_directions_disjoint(b: BodyM)
    ensures
        !(is_worker_request(b) && is_host_request(b)),
{
}

/// A response answers a request when their ids correlate and its body is one
/// the catalog allows for that request; arrival order plays no part.
pub open spec fn answers(req: MessageM, resp: MessageM) -> bool {
    &&& req.message_type is Request
    &&& resp.message_type is Response
    &&& ids_correlate(req.id, resp.id)
    &&& responds_to(req.body, resp.body)
}

/// Decides whether `resp` answers `req` under the catalog: ids correlate,
/// the directions are right, and the response body is the request's success
/// body or an error in its place.
#[verifier::rlimit(100)]
pub fn response_matches(req: &Message, resp: &Message) -> (r: bool)
    ensures
        r == answers(req@, resp@),
{
    let type_ok = matches!(req.message_type, MessageType::Request) && matches!(
        resp.message_type,
        MessageType::Response,
    ) && req.id == resp.id;
    if !type_ok {
        return false;
    }
    match (&req.body, &resp.body) {
        (_, Body::Error { .. }) => true,
        (Body::WorkerPingRequest, Body::Empty) => true,
        (Body::WorkerAbortRequest, Body::WorkerAbortResponse) => true,
        (
            Body::WorkerCapabilityTEERakReportRequest { .. },
            Body::WorkerCapabilityTEERakReportResponse { .. },
        ) => true,
        (
            Body::WorkerCapabilityTEERakAvrRequest { .. },
            Body::WorkerCapabilityTEERakAvrResponse,
        ) => true,
        (Body::WorkerRPCCallRequest { .. }, Body::WorkerRPCCallResponse { .. }) => true,
        (
            Body::WorkerRuntimeCallBatchRequest { .. },
            Body::WorkerRuntimeCallBatchResponse { .. },
        ) => true,
        (Body::HostRPCCallRequest { .. }, Body::HostRPCCallResponse { .. }) => true,
        (Body::HostStorageGetRequest { .. }, Body::HostStorageGetResponse { .. }) => true,
        (Body::HostStorageGetBatchRequest { .. }, Body::HostStorageGetBatchResponse { .. }) => true,
        (Body::HostLocalStorageGetRequest { .. }, Body::HostLocalStorageGetResponse { .. }) => true,
        (Body::HostLocalStorageSetRequest { .. }, Body::HostLocalStorageSetResponse) => true,
        _ => false,
    }
}

/// Builds a request envelope around a body, with the caller's tracing blob
/// passed through unmodified.
pub fn make_request(id: u64, body: Body, span_context: Vec<u8>) -> (m: Message)
    ensures
        m@ == (MessageM {
            id,
            message_type: MessageType::Request,
            body: body@,
            span_context: span_context@,
        }),
        body@.wf() ==> m@.wf(),
{
    let n = span_context.len();
    proof {
        assert(n as nat == span_context@.len());
    }
    Message { id, message_type: MessageType::Request, body, span_context }
}

/// Builds the response envelope that answers the request with this id.
pub fn make_response(id: u64, body: Body, span_context: Vec<u8>) -> (m: Message)
    ensures
        m@ == (MessageM {
            id,
            message_type: MessageType::Response,
            body: body@,
            span_context: span_context@,
        }),
        body@.wf() ==> m@.wf(),
{
    let n = span_context.len();
    proof {
        assert(n as nat == span_context@.len());
    }
    Message { id, message_type: MessageType::Response, body, span_context }
}

/// The error message with which a busy worker refuses a second computation.
pub open spec fn busy_message() -> Seq<u8> {
    seq![0x62u8, 0x75u8, 0x73u8, 0x79u8]
}

fn busy_message_bytes() -> (r: Vec<u8>)
    ensures
        r@ == busy_message(),
{
    let mut v: Vec<u8> = Vec::new();
    v.push(0x62);
    v.push(0x75);
    v.push(0x73);
    v.push(0x79);
    proof {
        assert(v@ =~= busy_message());
    }
    v
}

/// The worker's session: at most one batch execution is in flight, and its
/// correlation id is remembered until the batch completes or an abort
/// discards it.
pub struct WorkerSession {
    /// The id of the pending batch-execution request, if one is in flight.
    pub pending_batch: Option<u64>,
}

impl WorkerSession {
    pub fn new() -> (s: Self)
        ensures
            s.pending_batch is None,
    {
        WorkerSession { pending_batch: None }
    }

    /// One protocol step of the worker on an incoming request. A ping is
    /// answered at once; a shutdown is fire-and-forget; an abort discards
    /// any pending batch and is acknowledged; a batch execution is accepted
    /// when the worker is idle (its response comes later, through
    /// `complete_batch`) and refused with an error when one is already in
    /// flight. Requests whose answer needs outside computation are left to
    /// the embedding and change nothing here.
    pub fn worker_step(&mut self, m: &Message) -> (r: Option<Message>)
        requires
            m@.message_type is Request,
        ensures
            match m@.body {
                BodyM::WorkerPingRequest => {
                    &&& r matches Some(resp) && resp@.wf()
                    &&& r matches Some(resp) && resp@.id == m@.id && resp@.message_type
                        is Response && resp@.body is Empty
                    &&& final(self).pending_batch == old(self).pending_batch
                },
                BodyM::WorkerShutdownRequest => {
                    &&& r is None
                    &&& final(self).pending_batch == old(self).pending_batch
                },
                BodyM::WorkerAbortRequest => {
                    &&& r matches Some(resp) && resp@.wf()
                    &&& r matches Some(resp) && resp@.id == m@.id && resp@.message_type
                        is Response && resp@.body is WorkerAbortResponse
                    &&& final(self).pending_batch is None
                },
                BodyM::WorkerRuntimeCallBatchRequest { .. } => {
                    &&& old(self).pending_batch is None ==> (r is None && final(self).pending_batch == Some(m@.id))
                    &&& old(self).pending_batch is Some ==> {
                        &&& r matches Some(resp) && resp@.wf()
                        &&& r matches Some(resp) && resp@.id == m@.id && resp@.message_type
                            is Response && resp@.body == (BodyM::Error {
                            message: busy_message(),
                        })
                        &&& final(self).pending_batch == old(self).pending_batch
                    }
                },
                _ => {
                    &&& r is None
                    &&& final(self).pending_batch == old(self).pending_batch
                },
            },
            r matches Some(resp) ==> answers(m@, resp@),
    {
        match &m.body {
            Body::WorkerPingRequest => Some(make_response(m.id, Body::Empty, Vec::new())),
            Body::WorkerShutdownRequest => None,
            Body::WorkerAbortRequest => {
                self.pending_batch = None;
                Some(make_response(m.id, Body::WorkerAbortResponse, Vec::new()))
            },
            Body::WorkerRuntimeCallBatchRequest { .. } => {
                match self.pending_batch {
                    None => {
                        self.pending_batch = Some(m.id);
                        None
                    },
                    Some(_) => Some(
                        make_response(
                            m.id,
                            Body::Error { message: busy_message_bytes() },
                            Vec::new(),
                        ),
                    ),
                }
            },
            _ => None,
        }
    }

    /// Completes the pending batch execution: the computed batch becomes the
    /// response to the request that started it. After an abort no request is
    /// pending, the result is discarded, and no response exists — the
    /// aborted request never receives a successful one.
    pub fn complete_batch(&mut self, batch: crate::types::ComputedBatch) -> (r: Option<Message>)
        ensures
            final(self).pending_batch is None,
            match old(self).pending_batch {
                Some(id) => {
                    &&& r matches Some(resp) && resp@.id == id && resp@.message_type
                        is Response && resp@.body == (BodyM::WorkerRuntimeCallBatchResponse {
                        batch: batch@,
                    })
                    &&& batch@.wf() ==> (r matches Some(resp) && resp@.wf())
                },
                None => r is None,
            },
    {
        let pending = self.pending_batch;
        self.pending_batch = None;
        match pending {
            Some(id) => Some(
                make_response(id, Body::WorkerRuntimeCallBatchResponse { batch }, Vec::new()),
            ),
            None => None,
        }
    }
}

} // verus!
