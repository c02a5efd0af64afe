//! Data model of the worker-host protocol: the message envelope, the closed
//! body catalog, tags, computed batches, and the primitive values they carry.
//!
//! Each executable type has a ghost model (`..M`) over `Seq` that the codec
//! and the contracts speak of; `view` maps a value to its model.

use vstd::prelude::*;

verus! {

// ---------------------------------------------------------------------------
// Ghost models
// ---------------------------------------------------------------------------

/// Model of a tag: a key/value annotation of one transaction of a batch
/// (`txn_index >= 0`) or of the block itself (`txn_index == -1`).
#[verifier::ext_equal]
pub struct TagM {
    pub txn_index: i32,
    pub key: Seq<u8>,
    pub value: Seq<u8>,
}

/// Model of a block header: the digest of its predecessor and the committed
/// state root.
#[verifier::ext_equal]
pub struct BlockM {
    pub previous_hash: Seq<u8>,
    pub state_root: Seq<u8>,
}

/// Model of a computed batch: everything the worker hands back after
/// executing one call batch.
#[verifier::ext_equal]
pub struct ComputedBatchM {
    pub outputs: Seq<Seq<u8>>,
    pub storage_inserts: Seq<(Seq<u8>, u64)>,
    pub new_state_root: Seq<u8>,
    pub tags: Seq<TagM>,
    pub rak_sig: Seq<u8>,
}

/// Model of a message body: the closed catalog of protocol operations.
#[verifier::ext_equal]
pub enum BodyM {
    Empty,
    Error { message: Seq<u8> },
    WorkerPingRequest,
    WorkerShutdownRequest,
    WorkerAbortRequest,
    WorkerAbortResponse,
    WorkerCapabilityTEERakReportRequest { target_info: Seq<u8> },
    WorkerCapabilityTEERakReportResponse { rak_pub: Seq<u8>, report: Seq<u8>, nonce: Seq<u8> },
    WorkerCapabilityTEERakAvrRequest { avr: Seq<u8> },
    WorkerCapabilityTEERakAvrResponse,
    WorkerRPCCallRequest { request: Seq<u8>, state_root: Seq<u8> },
    WorkerRPCCallResponse {
        response: Seq<u8>,
        storage_inserts: Seq<(Seq<u8>, u64)>,
        new_state_root: Seq<u8>,
    },
    WorkerRuntimeCallBatchRequest { calls: Seq<Seq<u8>>, block: BlockM },
    WorkerRuntimeCallBatchResponse { batch: ComputedBatchM },
    HostRPCCallRequest { endpoint: Seq<u8>, request: Seq<u8> },
    HostRPCCallResponse { response: Seq<u8> },
    HostStorageGetRequest { key: Seq<u8> },
    HostStorageGetResponse { value: Seq<u8> },
    HostStorageGetBatchRequest { keys: Seq<Seq<u8>> },
    HostStorageGetBatchResponse { values: Seq<Option<Seq<u8>>> },
    HostLocalStorageGetRequest { key: Seq<u8> },
    HostLocalStorageGetResponse { value: Seq<u8> },
    HostLocalStorageSetRequest { key: Seq<u8>, value: Seq<u8> },
    HostLocalStorageSetResponse,
}

/// Model of the message envelope.
#[verifier::ext_equal]
pub struct MessageM {
    pub id: u64,
    pub message_type: MessageType,
    pub body: BodyM,
    pub span_context: Seq<u8>,
}

// ---------------------------------------------------------------------------
// Well-formedness
// ---------------------------------------------------------------------------

/// A byte blob can be carried on the wire when its length fits the 64-bit
/// length prefix.
pub open spec fn blob_wf(b: Seq<u8>) -> bool {
    b.len() <= u64::MAX
}

/// A digest is a fixed 32-byte value.
pub open spec fn hash_wf(h: Seq<u8>) -> bool {
    h.len() == 32
}

/// A public key is a fixed 32-byte value.
pub open spec fn public_key_wf(k: Seq<u8>) -> bool {
    k.len() == 32
}

/// A signature is a fixed 64-byte value.
pub open spec fn signature_wf(s: Seq<u8>) -> bool {
    s.len() == 64
}

pub open spec fn blob_list_wf(l: Seq<Seq<u8>>) -> bool {
    &&& l.len() <= u64::MAX
    &&& forall|i: int| #![auto] 0 <= i < l.len() ==> blob_wf(l[i])
}

pub open spec fn insert_list_wf(l: Seq<(Seq<u8>, u64)>) -> bool {
    &&& l.len() <= u64::MAX
    &&& forall|i: int| #![auto] 0 <= i < l.len() ==> blob_wf(l[i].0)
}

pub open spec fn hash_list_wf(l: Seq<Seq<u8>>) -> bool {
    &&& l.len() <= u64::MAX
    &&& forall|i: int| #![auto] 0 <= i < l.len() ==> hash_wf(l[i])
}

pub open spec fn opt_blob_wf(o: Option<Seq<u8>>) -> bool {
    match o {
        Some(b) => blob_wf(b),
        None => true,
    }
}

pub open spec fn opt_blob_list_wf(l: Seq<Option<Seq<u8>>>) -> bool {
    &&& l.len() <= u64::MAX
    &&& forall|i: int| #![auto] 0 <= i < l.len() ==> opt_blob_wf(l[i])
}

impl TagM {
    pub open spec fn wf(self) -> bool {
        blob_wf(self.key) && blob_wf(self.value)
    }
}

pub open spec fn tag_list_wf(l: Seq<TagM>) -> bool {
    &&& l.len() <= u64::MAX
    &&& forall|i: int| #![auto] 0 <= i < l.len() ==> l[i].wf()
}

impl BlockM {
    pub open spec fn wf(self) -> bool {
        hash_wf(self.previous_hash) && hash_wf(self.state_root)
    }
}

impl ComputedBatchM {
    pub open spec fn wf(self) -> bool {
        &&& blob_list_wf(self.outputs)
        &&& insert_list_wf(self.storage_inserts)
        &&& hash_wf(self.new_state_root)
        &&& tag_list_wf(self.tags)
        &&& signature_wf(self.rak_sig)
    }
}

impl BodyM {
    pub open spec fn wf(self) -> bool {
        match self {
            BodyM::Empty => true,
            BodyM::Error { message } => blob_wf(message),
            BodyM::WorkerPingRequest => true,
            BodyM::WorkerShutdownRequest => true,
            BodyM::WorkerAbortRequest => true,
            BodyM::WorkerAbortResponse => true,
            BodyM::WorkerCapabilityTEERakReportRequest { target_info } => blob_wf(target_info),
            BodyM::WorkerCapabilityTEERakReportResponse { rak_pub, report, nonce } => {
                public_key_wf(rak_pub) && blob_wf(report) && blob_wf(nonce)
            },
            BodyM::WorkerCapabilityTEERakAvrRequest { avr } => blob_wf(avr),
            BodyM::WorkerCapabilityTEERakAvrResponse => true,
            BodyM::WorkerRPCCallRequest { request, state_root } => {
                blob_wf(request) && hash_wf(state_root)
            },
            BodyM::WorkerRPCCallResponse { response, storage_inserts, new_state_root } => {
                blob_wf(response) && insert_list_wf(storage_inserts) && hash_wf(new_state_root)
            },
            BodyM::WorkerRuntimeCallBatchRequest { calls, block } => {
                blob_list_wf(calls) && block.wf()
            },
            BodyM::WorkerRuntimeCallBatchResponse { batch } => batch.wf(),
            BodyM::HostRPCCallRequest { endpoint, request } => {
                blob_wf(endpoint) && blob_wf(request)
            },
            BodyM::HostRPCCallResponse { response } => blob_wf(response),
            BodyM::HostStorageGetRequest { key } => hash_wf(key),
            BodyM::HostStorageGetResponse { value } => blob_wf(value),
            BodyM::HostStorageGetBatchRequest { keys } => hash_list_wf(keys),
            BodyM::HostStorageGetBatchResponse { values } => opt_blob_list_wf(values),
            BodyM::HostLocalStorageGetRequest { key } => blob_wf(key),
            BodyM::HostLocalStorageGetResponse { value } => blob_wf(value),
            BodyM::HostLocalStorageSetRequest { key, value } => blob_wf(key) && blob_wf(value),
            BodyM::HostLocalStorageSetResponse => true,
        }
    }
}

impl MessageM {
    /// A well-formed envelope never carries the `Invalid` marker.
    pub open spec fn wf(self) -> bool {
        &&& !(self.message_type is Invalid)
        &&& self.body.wf()
        &&& blob_wf(self.span_context)
    }
}

// ---------------------------------------------------------------------------
// Executable types
// ---------------------------------------------------------------------------

/// A fixed-width content digest.
#[derive(Debug, Clone, PartialEq, Eq)]
pub struct Hash {
    pub bytes: Vec<u8>,
}

impl View for Hash {
    type V = Seq<u8>;

    open spec fn view(&self) -> Seq<u8> {
        self.bytes@
    }
}

impl DeepView for Hash {
    type V = Seq<u8>;

    open spec fn deep_view(&self) -> Seq<u8> {
        self.bytes@
    }
}

/// An asymmetric public key.
#[derive(Debug, Clone, PartialEq, Eq)]
pub struct PublicKey {
    pub bytes: Vec<u8>,
}

impl View for PublicKey {
    type V = Seq<u8>;

    open spec fn view(&self) -> Seq<u8> {
        self.bytes@
    }
}

/// An asymmetric signature.
#[derive(Debug, Clone, PartialEq, Eq)]
pub struct Signature {
    pub bytes: Vec<u8>,
}

impl View for Signature {
    type V = Seq<u8>;

    open spec fn view(&self) -> Seq<u8> {
        self.bytes@
    }
}

/// An attestation verification report: an opaque externally issued blob, never
/// reinterpreted by the protocol layer.
#[derive(Debug, Clone, PartialEq, Eq)]
pub struct Avr {
    pub data: Vec<u8>,
}

impl View for Avr {
    type V = Seq<u8>;

    open spec fn view(&self) -> Seq<u8> {
        self.data@
    }
}

/// A block header: a reference to its predecessor and the committed state
/// root.
#[derive(Debug, Clone, PartialEq, Eq)]
pub struct Block {
    pub previous_hash: Hash,
    pub state_root: Hash,
}

impl View for Block {
    type V = BlockM;

    open spec fn view(&self) -> BlockM {
        BlockM { previous_hash: self.previous_hash@, state_root: self.state_root@ }
    }
}

/// An ordered batch of opaque transaction calls.
#[derive(Debug, Clone, PartialEq, Eq)]
pub struct CallBatch {
    pub calls: Vec<Vec<u8>>,
}

impl View for CallBatch {
    type V = Seq<Seq<u8>>;

    open spec fn view(&self) -> Seq<Seq<u8>> {
        self.calls.deep_view()
    }
}

/// An ordered batch of opaque transaction outputs, one per input call.
#[derive(Debug, Clone, PartialEq, Eq)]
pub struct OutputBatch {
    pub outputs: Vec<Vec<u8>>,
}

impl View for OutputBatch {
    type V = Seq<Seq<u8>>;

    open spec fn view(&self) -> Seq<Seq<u8>> {
        self.outputs.deep_view()
    }
}

/// A key/value annotation of a transaction (`txn_index >= 0`) or of the block
/// (`txn_index == TAG_TXN_INDEX_BLOCK`), indexed for later lookup.
#[derive(Debug, Clone, PartialEq, Eq)]
pub struct Tag {
    pub txn_index: i32,
    pub key: Vec<u8>,
    pub value: Vec<u8>,
}

/// Value of a tag's transaction index when the tag refers to the block.
pub const TAG_TXN_INDEX_BLOCK: i32 = -1;

impl View for Tag {
    type V = TagM;

    open spec fn view(&self) -> TagM {
        TagM { txn_index: self.txn_index, key: self.key@, value: self.value@ }
    }
}

impl DeepView for Tag {
    type V = TagM;

    open spec fn deep_view(&self) -> TagM {
        self@
    }
}

/// The aggregate result of executing one call batch.
#[derive(Debug, Clone, PartialEq, Eq)]
pub struct ComputedBatch {
    pub outputs: OutputBatch,
    pub storage_inserts: Vec<(Vec<u8>, u64)>,
    pub new_state_root: Hash,
    pub tags: Vec<Tag>,
    pub rak_sig: Signature,
}

impl View for ComputedBatch {
    type V = ComputedBatchM;

    open spec fn view(&self) -> ComputedBatchM {
        ComputedBatchM {
            outputs: self.outputs@,
            storage_inserts: self.storage_inserts.deep_view(),
            new_state_root: self.new_state_root@,
            tags: self.tags.deep_view(),
            rak_sig: self.rak_sig@,
        }
    }
}

/// Whether a message is a request or a response. `Invalid` is an internal
/// decode-failure marker and never appears on the wire.
#[derive(Debug, Clone, Copy, PartialEq, Eq, Structural)]
pub enum MessageType {
    Invalid,
    Request,
    Response,
}

/// A protocol message body.
#[derive(Debug, Clone, PartialEq, Eq)]
pub enum Body {
    Empty,
    Error { message: Vec<u8> },
    WorkerPingRequest,
    WorkerShutdownRequest,
    WorkerAbortRequest,
    WorkerAbortResponse,
    WorkerCapabilityTEERakReportRequest { target_info: Vec<u8> },
    WorkerCapabilityTEERakReportResponse { rak_pub: PublicKey, report: Vec<u8>, nonce: Vec<u8> },
    WorkerCapabilityTEERakAvrRequest { avr: Avr },
    WorkerCapabilityTEERakAvrResponse,
    WorkerRPCCallRequest { request: Vec<u8>, state_root: Hash },
    WorkerRPCCallResponse {
        response: Vec<u8>,
        storage_inserts: Vec<(Vec<u8>, u64)>,
        new_state_root: Hash,
    },
    WorkerRuntimeCallBatchRequest { calls: CallBatch, block: Block },
    WorkerRuntimeCallBatchResponse { batch: ComputedBatch },
    HostRPCCallRequest { endpoint: Vec<u8>, request: Vec<u8> },
    HostRPCCallResponse { response: Vec<u8> },
    HostStorageGetRequest { key: Hash },
    HostStorageGetResponse { value: Vec<u8> },
    HostStorageGetBatchRequest { keys: Vec<Hash> },
    HostStorageGetBatchResponse { values: Vec<Option<Vec<u8>>> },
    HostLocalStorageGetRequest { key: Vec<u8> },
    HostLocalStorageGetResponse { value: Vec<u8> },
    HostLocalStorageSetRequest { key: Vec<u8>, value: Vec<u8> },
    HostLocalStorageSetResponse,
}

impl View for Body {
    type V = BodyM;

    open spec fn view(&self) -> BodyM {
        match self {
            Body::Empty => BodyM::Empty,
            Body::Error { message } => BodyM::Error { message: message@ },
            Body::WorkerPingRequest => BodyM::WorkerPingRequest,
            Body::WorkerShutdownRequest => BodyM::WorkerShutdownRequest,
            Body::WorkerAbortRequest => BodyM::WorkerAbortRequest,
            Body::WorkerAbortResponse => BodyM::WorkerAbortResponse,
            Body::WorkerCapabilityTEERakReportRequest { target_info } => {
                BodyM::WorkerCapabilityTEERakReportRequest { target_info: target_info@ }
            },
            Body::WorkerCapabilityTEERakReportResponse { rak_pub, report, nonce } => {
                BodyM::WorkerCapabilityTEERakReportResponse {
                    rak_pub: rak_pub@,
                    report: report@,
                    nonce: nonce@,
                }
            },
            Body::WorkerCapabilityTEERakAvrRequest { avr } => {
                BodyM::WorkerCapabilityTEERakAvrRequest { avr: avr@ }
            },
            Body::WorkerCapabilityTEERakAvrResponse => BodyM::WorkerCapabilityTEERakAvrResponse,
            Body::WorkerRPCCallRequest { request, state_root } => {
                BodyM::WorkerRPCCallRequest { request: request@, state_root: state_root@ }
            },
            Body::WorkerRPCCallResponse { response, storage_inserts, new_state_root } => {
                BodyM::WorkerRPCCallResponse {
                    response: response@,
                    storage_inserts: storage_inserts.deep_view(),
                    new_state_root: new_state_root@,
                }
            },
            Body::WorkerRuntimeCallBatchRequest { calls, block } => {
                BodyM::WorkerRuntimeCallBatchRequest { calls: calls@, block: block@ }
            },
            Body::WorkerRuntimeCallBatchResponse { batch } => {
                BodyM::WorkerRuntimeCallBatchResponse { batch: batch@ }
            },
            Body::HostRPCCallRequest { endpoint, request } => {
                BodyM::HostRPCCallRequest { endpoint: endpoint@, request: request@ }
            },
            Body::HostRPCCallResponse { response } => {
                BodyM::HostRPCCallResponse { response: response@ }
            },
            Body::HostStorageGetRequest { key } => BodyM::HostStorageGetRequest { key: key@ },
            Body::HostStorageGetResponse { value } => {
                BodyM::HostStorageGetResponse { value: value@ }
            },
            Body::HostStorageGetBatchRequest { keys } => {
                BodyM::HostStorageGetBatchRequest { keys: keys.deep_view() }
            },
            Body::HostStorageGetBatchResponse { values } => {
                BodyM::HostStorageGetBatchResponse { values: values.deep_view() }
            },
            Body::HostLocalStorageGetRequest { key } => {
                BodyM::HostLocalStorageGetRequest { key: key@ }
            },
            Body::HostLocalStorageGetResponse { value } => {
                BodyM::HostLocalStorageGetResponse { value: value@ }
            },
            Body::HostLocalStorageSetRequest { key, value } => {
                BodyM::HostLocalStorageSetRequest { key: key@, value: value@ }
            },
            Body::HostLocalStorageSetResponse => BodyM::HostLocalStorageSetResponse,
        }
    }
}

/// A protocol message: the envelope around one exchange.
#[derive(Debug, Clone, PartialEq, Eq)]
pub struct Message {
    /// Correlation identifier, unique among outstanding requests in one
    /// direction.
    pub id: u64,
    pub message_type: MessageType,
    pub body: Body,
    /// Opaque tracing blob, passed through unmodified.
    pub span_context: Vec<u8>,
}

impl View for Message {
    type V = MessageM;

    open spec fn view(&self) -> MessageM {
        MessageM {
            id: self.id,
            message_type: self.message_type,
            body: self.body@,
            span_context: self.span_context@,
        }
    }
}

} // verus!
