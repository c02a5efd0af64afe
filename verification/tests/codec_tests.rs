//! Wire-codec tests: round trips for every body variant, the tag's fixed
//! positional shape, the message-type byte, and decode failures.

use worker_protocol::codec::{
    dec_message_type, dec_tag, decode_message, enc_tag, enc_u64, encode_message,
};
use worker_protocol::types::{
    Avr, Block, Body, CallBatch, ComputedBatch, Message, MessageType, OutputBatch, PublicKey,
    Signature, Tag, TAG_TXN_INDEX_BLOCK,
};

fn hash(b: u8) -> worker_protocol::types::Hash {
    worker_protocol::types::Hash { bytes: vec![b; 32] }
}

fn sig(b: u8) -> Signature {
    Signature { bytes: vec![b; 64] }
}

fn block(p: u8, r: u8) -> Block {
    Block {
        previous_hash: hash(p),
        state_root: hash(r),
    }
}

fn batch() -> ComputedBatch {
    ComputedBatch {
        outputs: OutputBatch {
            outputs: vec![vec![1, 2, 3], vec![], vec![4]],
        },
        storage_inserts: vec![(vec![9, 9], 77), (vec![], 0)],
        new_state_root: hash(5),
        tags: vec![
            Tag {
                txn_index: TAG_TXN_INDEX_BLOCK,
                key: vec![107],
                value: vec![118],
            },
            Tag {
                txn_index: 2,
                key: vec![],
                value: vec![],
            },
        ],
        rak_sig: sig(6),
    }
}

fn round_trip(body: Body) {
    let m = Message {
        id: 42,
        message_type: MessageType::Request,
        body,
        span_context: vec![13, 14],
    };
    let enc = encode_message(&m);
    let (dec, used) = decode_message(&enc).expect("a well-formed message decodes");
    assert_eq!(dec, m);
    assert_eq!(used, enc.len());
}

#[test]
fn round_trip_empty_and_error() {
    round_trip(Body::Empty);
    round_trip(Body::Error { message: vec![111, 111, 112, 115] });
    round_trip(Body::Error { message: vec![] });
}

#[test]
fn round_trip_worker_control() {
    round_trip(Body::WorkerPingRequest);
    round_trip(Body::WorkerShutdownRequest);
    round_trip(Body::WorkerAbortRequest);
    round_trip(Body::WorkerAbortResponse);
}

#[test]
fn round_trip_attestation_handshake() {
    round_trip(Body::WorkerCapabilityTEERakReportRequest { target_info: vec![1, 2] });
    round_trip(Body::WorkerCapabilityTEERakReportRequest { target_info: vec![] });
    round_trip(Body::WorkerCapabilityTEERakReportResponse {
        rak_pub: PublicKey { bytes: vec![7; 32] },
        report: vec![8, 8],
        nonce: vec![110],
    });
    round_trip(Body::WorkerCapabilityTEERakAvrRequest { avr: Avr { data: vec![3, 3, 3] } });
    round_trip(Body::WorkerCapabilityTEERakAvrResponse);
}

#[test]
fn round_trip_rpc_and_batch() {
    round_trip(Body::WorkerRPCCallRequest { request: vec![1], state_root: hash(9) });
    round_trip(Body::WorkerRPCCallResponse {
        response: vec![2, 2],
        storage_inserts: vec![(vec![1], 5)],
        new_state_root: hash(8),
    });
    round_trip(Body::WorkerRuntimeCallBatchRequest {
        calls: CallBatch { calls: vec![vec![1], vec![2, 2]] },
        block: block(1, 2),
    });
    round_trip(Body::WorkerRuntimeCallBatchRequest {
        calls: CallBatch { calls: vec![] },
        block: block(0, 0),
    });
    round_trip(Body::WorkerRuntimeCallBatchResponse { batch: batch() });
}

#[test]
fn round_trip_empty_batch_lists() {
    round_trip(Body::WorkerRuntimeCallBatchResponse {
        batch: ComputedBatch {
            outputs: OutputBatch { outputs: vec![] },
            storage_inserts: vec![],
            new_state_root: hash(0),
            tags: vec![],
            rak_sig: sig(0),
        },
    });
}

#[test]
fn round_trip_host_interface() {
    round_trip(Body::HostRPCCallRequest { endpoint: vec![107, 109], request: vec![1] });
    round_trip(Body::HostRPCCallResponse { response: vec![] });
    round_trip(Body::HostStorageGetRequest { key: hash(4) });
    round_trip(Body::HostStorageGetResponse { value: vec![5, 5] });
    round_trip(Body::HostStorageGetBatchRequest { keys: vec![hash(1), hash(2)] });
    round_trip(Body::HostStorageGetBatchRequest { keys: vec![] });
    round_trip(Body::HostStorageGetBatchResponse {
        values: vec![Some(vec![1]), None, Some(vec![])],
    });
    round_trip(Body::HostLocalStorageGetRequest { key: vec![1] });
    round_trip(Body::HostLocalStorageGetResponse { value: vec![2] });
    round_trip(Body::HostLocalStorageSetRequest { key: vec![1], value: vec![2] });
    round_trip(Body::HostLocalStorageSetResponse);
}

#[test]
fn round_trip_response_envelope() {
    let m = Message {
        id: u64::MAX,
        message_type: MessageType::Response,
        body: Body::Empty,
        span_context: vec![],
    };
    let enc = encode_message(&m);
    let (dec, used) = decode_message(&enc).expect("decodes");
    assert_eq!(dec, m);
    assert_eq!(used, enc.len());
}

#[test]
fn tag_round_trip_block_level() {
    let t = Tag {
        txn_index: TAG_TXN_INDEX_BLOCK,
        key: vec![1, 2],
        value: vec![3],
    };
    let mut enc: Vec<u8> = Vec::new();
    enc_tag(&mut enc, &t);
    let (dec, used) = dec_tag(&enc, 0).expect("a tag decodes");
    assert_eq!(used, enc.len());
    assert_eq!(dec.txn_index, -1);
    assert_eq!(dec, t);
}

#[test]
fn tag_round_trip_txn_index() {
    let t = Tag {
        txn_index: 3,
        key: vec![],
        value: vec![],
    };
    let mut enc: Vec<u8> = Vec::new();
    enc_tag(&mut enc, &t);
    let (dec, _) = dec_tag(&enc, 0).expect("a tag decodes");
    assert_eq!(dec.txn_index, 3);
    assert_eq!(dec, t);
}

#[test]
fn tag_wire_form_is_three_elements() {
    let t = Tag {
        txn_index: 7,
        key: vec![1],
        value: vec![2],
    };
    let mut enc: Vec<u8> = Vec::new();
    enc_tag(&mut enc, &t);
    // the wire form opens with the element count 3
    assert_eq!(&enc[0..8], &[0, 0, 0, 0, 0, 0, 0, 3]);
    // any other count is a decode failure
    let mut four = enc.clone();
    four[7] = 4;
    assert!(dec_tag(&four, 0).is_none());
    let mut two = enc.clone();
    two[7] = 2;
    assert!(dec_tag(&two, 0).is_none());
}

#[test]
fn message_type_codec() {
    assert!(matches!(dec_message_type(&vec![1], 0), Some((MessageType::Request, 1))));
    assert!(matches!(dec_message_type(&vec![2], 0), Some((MessageType::Response, 1))));
    assert!(dec_message_type(&vec![0], 0).is_none());
    for b in 3..=255u8 {
        assert!(dec_message_type(&vec![b], 0).is_none());
    }
    assert!(dec_message_type(&vec![], 0).is_none());
}

#[test]
fn encoder_never_emits_message_type_zero() {
    for mt in [MessageType::Request, MessageType::Response] {
        let m = Message {
            id: 1,
            message_type: mt,
            body: Body::Empty,
            span_context: vec![],
        };
        let enc = encode_message(&m);
        // the type byte follows the 8-byte id
        assert_ne!(enc[8], 0);
    }
}

#[test]
fn decode_rejects_malformed_input() {
    // unknown body discriminant
    let m = Message {
        id: 3,
        message_type: MessageType::Request,
        body: Body::Empty,
        span_context: vec![],
    };
    let mut enc = encode_message(&m);
    enc[9] = 200;
    assert!(decode_message(&enc).is_none());
    // invalid message-type byte
    let mut enc2 = encode_message(&m);
    enc2[8] = 0;
    assert!(decode_message(&enc2).is_none());
    // truncated input
    let enc3 = encode_message(&m);
    for cut in 0..enc3.len() {
        assert!(decode_message(&enc3[..cut].to_vec()).is_none());
    }
    assert!(decode_message(&Vec::new()).is_none());
}

#[test]
fn integer_encodings_are_big_endian() {
    let mut out: Vec<u8> = Vec::new();
    enc_u64(&mut out, 0x0102030405060708);
    assert_eq!(out, vec![1, 2, 3, 4, 5, 6, 7, 8]);
}

#[test]
fn txn_index_wire_form_is_offset_binary() {
    let t = Tag {
        txn_index: TAG_TXN_INDEX_BLOCK,
        key: vec![],
        value: vec![],
    };
    let mut enc: Vec<u8> = Vec::new();
    enc_tag(&mut enc, &t);
    // -1 is written as 2^31 - 1 in offset form, after the element count
    assert_eq!(&enc[8..12], &[0x7f, 0xff, 0xff, 0xff]);
    let zero = Tag { txn_index: 0, key: vec![], value: vec![] };
    let mut enc0: Vec<u8> = Vec::new();
    enc_tag(&mut enc0, &zero);
    assert_eq!(&enc0[8..12], &[0x80, 0x00, 0x00, 0x00]);
}

#[test]
fn decode_leaves_trailing_bytes() {
    let m = Message {
        id: 9,
        message_type: MessageType::Request,
        body: Body::WorkerPingRequest,
        span_context: vec![],
    };
    let mut enc = encode_message(&m);
    let framed = enc.len();
    enc.extend_from_slice(&[1, 2, 3]);
    let (dec, used) = decode_message(&enc).expect("decodes independently");
    assert_eq!(dec, m);
    assert_eq!(used, framed);
}
