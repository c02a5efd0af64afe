//! Attestation-scheme and storage-handler tests: deterministic digests and
//! signatures, signature verification, batched storage lookup, and the two
//! end-to-end protocol scenarios.

use worker_protocol::attest::{
    attest_batch, derive_public_key, digest, encode_batch_sig_message, hash_call_batch, hash_tags,
    sign, verify_batch_attestation, verify_signature, BatchSigMessage,
};
use worker_protocol::session::{make_request, make_response, response_matches, WorkerSession};
use worker_protocol::storage::{handle_storage_get, handle_storage_get_batch, state_root_after};
use worker_protocol::types::{
    Block, Body, CallBatch, ComputedBatch, Message, MessageType, OutputBatch, Tag,
    TAG_TXN_INDEX_BLOCK,
};

fn hash(b: u8) -> worker_protocol::types::Hash {
    worker_protocol::types::Hash { bytes: vec![b; 32] }
}

fn block(p: u8, r: u8) -> Block {
    Block {
        previous_hash: hash(p),
        state_root: hash(r),
    }
}

fn key() -> Vec<u8> {
    (0..32u8).collect()
}

fn calls() -> CallBatch {
    CallBatch { calls: vec![vec![1, 1], vec![2]] }
}

fn outputs() -> OutputBatch {
    OutputBatch { outputs: vec![vec![10], vec![20, 20]] }
}

fn tags() -> Vec<Tag> {
    vec![
        Tag { txn_index: TAG_TXN_INDEX_BLOCK, key: vec![107], value: vec![1] },
        Tag { txn_index: 0, key: vec![116], value: vec![2] },
    ]
}

#[test]
fn digest_is_deterministic_and_32_bytes() {
    let d1 = digest(&vec![1, 2, 3]);
    let d2 = digest(&vec![1, 2, 3]);
    assert_eq!(d1.bytes.len(), 32);
    assert_eq!(d1, d2);
    assert_ne!(digest(&vec![1, 2, 3]), digest(&vec![1, 2, 4]));
}

#[test]
fn scheme_digests_are_deterministic() {
    let i1 = hash_call_batch(&calls());
    let i2 = hash_call_batch(&calls());
    assert_eq!(i1, i2);
    let t1 = hash_tags(&tags());
    let t2 = hash_tags(&tags());
    assert_eq!(t1, t2);
}

#[test]
fn attestation_is_deterministic_and_verifies() {
    let b = block(1, 2);
    let root = hash(9);
    let s1 = attest_batch(&key(), &b, &calls(), &outputs(), &tags(), &root);
    let s2 = attest_batch(&key(), &b, &calls(), &outputs(), &tags(), &root);
    // two independent executions produce bit-identical signatures
    assert_eq!(s1.bytes, s2.bytes);
    assert_eq!(s1.bytes.len(), 64);
    // and each verifies against the corresponding public key
    let pk = derive_public_key(&key());
    let cb = ComputedBatch {
        outputs: outputs(),
        storage_inserts: vec![],
        new_state_root: root,
        tags: tags(),
        rak_sig: s1,
    };
    assert!(verify_batch_attestation(&pk, &b, &calls(), &cb));
}

#[test]
fn attestation_rejects_a_tampered_batch() {
    let b = block(1, 2);
    let root = hash(9);
    let s = attest_batch(&key(), &b, &calls(), &outputs(), &tags(), &root);
    let pk = derive_public_key(&key());
    let mut cb = ComputedBatch {
        outputs: outputs(),
        storage_inserts: vec![],
        new_state_root: root,
        tags: tags(),
        rak_sig: s,
    };
    cb.outputs.outputs[0] = vec![99];
    assert!(!verify_batch_attestation(&pk, &b, &calls(), &cb));
    // a foreign key does not verify either
    let other = derive_public_key(&vec![7; 32]);
    let cb2 = ComputedBatch { outputs: outputs(), ..cb };
    assert!(!verify_batch_attestation(&other, &b, &calls(), &cb2));
}

#[test]
fn signing_input_carries_the_domain_tag() {
    let m = BatchSigMessage {
        previous_block: block(1, 2),
        input_hash: hash(3),
        output_hash: hash(4),
        tags_hash: hash(5),
        state_root: hash(6),
    };
    let enc = encode_batch_sig_message(&m);
    assert_eq!(&enc[0..8], &b"EkBatch-"[..]);
    assert_eq!(enc.len(), 8 + 64 + 4 * 32);
}

#[test]
fn plain_signature_round_trip() {
    let s = sign(&key(), &vec![1, 2, 3]);
    let pk = derive_public_key(&key());
    assert!(verify_signature(&pk, &vec![1, 2, 3], &s));
    assert!(!verify_signature(&pk, &vec![1, 2, 4], &s));
}

#[test]
fn storage_get_finds_by_digest() {
    let store = vec![(hash(1), vec![10]), (hash(2), vec![20])];
    assert_eq!(handle_storage_get(&store, &hash(2)), Some(vec![20]));
    assert_eq!(handle_storage_get(&store, &hash(3)), None);
}

#[test]
fn storage_get_batch_preserves_order_and_marks_missing() {
    let store = vec![(hash(1), vec![10]), (hash(2), vec![20])];
    let keys = vec![hash(2), hash(9), hash(1), hash(2)];
    let values = handle_storage_get_batch(&store, &keys);
    // response length equals request length; never a shortened list
    assert_eq!(values.len(), keys.len());
    // request order is preserved, with an explicit not-found entry in place
    assert_eq!(values[0], Some(vec![20]));
    assert_eq!(values[1], None);
    assert_eq!(values[2], Some(vec![10]));
    assert_eq!(values[3], Some(vec![20]));
}

#[test]
fn storage_get_batch_of_no_keys_is_empty() {
    let store = vec![(hash(1), vec![10])];
    let values = handle_storage_get_batch(&store, &Vec::new());
    assert_eq!(values.len(), 0);
}

#[test]
fn batch_execution_end_to_end() {
    // Request{id=7}: batch execution over block B with call batch C.
    let b = block(3, 4);
    let c = calls();
    let request = make_request(
        7,
        Body::WorkerRuntimeCallBatchRequest { calls: c.clone(), block: b.clone() },
        vec![],
    );
    let mut session = WorkerSession::new();
    // the worker accepts the batch; the response comes after computing
    assert!(session.worker_step(&request).is_none());

    // the runtime computes outputs and storage inserts for the batch
    let outs = outputs();
    let inserts: Vec<(Vec<u8>, u64)> = vec![(vec![100, 1], 1000), (vec![100, 2], 2000)];
    // the new root differs from B's committed root by exactly those deltas
    let new_root = state_root_after(&b.state_root, &inserts);
    let ts = tags();
    let rak_sig = attest_batch(&key(), &b, &c, &outs, &ts, &new_root);
    let computed = ComputedBatch {
        outputs: outs,
        storage_inserts: inserts.clone(),
        new_state_root: new_root,
        tags: ts,
        rak_sig,
    };

    let response = session.complete_batch(computed.clone()).expect("a pending batch completes");
    assert_eq!(response.id, 7);
    assert!(matches!(response.message_type, MessageType::Response));
    match &response.body {
        Body::WorkerRuntimeCallBatchResponse { batch } => {
            // the root is exactly the commitment of B's root plus the deltas
            assert_eq!(batch.new_state_root, state_root_after(&b.state_root, &inserts));
            assert_ne!(batch.new_state_root, b.state_root);
            // and the signature verifies against the worker's attested key
            let pk = derive_public_key(&key());
            assert!(verify_batch_attestation(&pk, &b, &c, batch));
        },
        other => panic!("expected a computed batch, got {:?}", other),
    }
}

#[test]
fn abort_while_batch_pending() {
    let b = block(3, 4);
    let request = make_request(
        7,
        Body::WorkerRuntimeCallBatchRequest { calls: calls(), block: b.clone() },
        vec![],
    );
    let mut session = WorkerSession::new();
    assert!(session.worker_step(&request).is_none());

    // an abort is deliverable while the batch is pending, and is acknowledged
    let abort = make_request(9, Body::WorkerAbortRequest, vec![]);
    let ack = session.worker_step(&abort).expect("abort is acknowledged");
    assert_eq!(ack.id, 9);
    assert!(matches!(ack.message_type, MessageType::Response));
    assert!(matches!(ack.body, Body::WorkerAbortResponse));

    // the aborted request never receives a successful batch response
    let late = ComputedBatch {
        outputs: outputs(),
        storage_inserts: vec![],
        new_state_root: hash(5),
        tags: vec![],
        rak_sig: worker_protocol::types::Signature { bytes: vec![0; 64] },
    };
    assert!(session.complete_batch(late).is_none());
}

#[test]
fn busy_worker_refuses_a_second_batch() {
    let b = block(1, 1);
    let mut session = WorkerSession::new();
    let first = make_request(
        1,
        Body::WorkerRuntimeCallBatchRequest { calls: calls(), block: b.clone() },
        vec![],
    );
    assert!(session.worker_step(&first).is_none());
    let second = make_request(
        2,
        Body::WorkerRuntimeCallBatchRequest { calls: calls(), block: b },
        vec![],
    );
    let refusal = session.worker_step(&second).expect("a busy worker answers with an error");
    assert_eq!(refusal.id, 2);
    assert!(matches!(refusal.body, Body::Error { .. }));
}

#[test]
fn correlation_is_by_id_and_catalog() {
    let ping = make_request(5, Body::WorkerPingRequest, vec![]);
    let pong = make_response(5, Body::Empty, vec![]);
    assert!(response_matches(&ping, &pong));
    // a response with another id is never attributed to this request
    let stray = make_response(6, Body::Empty, vec![]);
    assert!(!response_matches(&ping, &stray));
    // a wrong success body does not answer, but an error always may
    let wrong = make_response(5, Body::WorkerAbortResponse, vec![]);
    assert!(!response_matches(&ping, &wrong));
    let err = make_response(5, Body::Error { message: vec![101] }, vec![]);
    assert!(response_matches(&ping, &err));
}

#[test]
fn ping_is_answered_and_shutdown_is_not() {
    let mut session = WorkerSession::new();
    let ping = make_request(5, Body::WorkerPingRequest, vec![]);
    let pong = session.worker_step(&ping).expect("ping is answered");
    assert_eq!(pong.id, 5);
    assert!(matches!(pong.body, Body::Empty));
    let shutdown = make_request(6, Body::WorkerShutdownRequest, vec![]);
    assert!(session.worker_step(&shutdown).is_none());
}
