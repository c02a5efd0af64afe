//! Message protocol between an untrusted host and a sandboxed worker that
//! executes transaction batches inside a hardware-isolated environment.
//!
//! The crate models the protocol's message catalog, its binary codec, the
//! batch-attestation scheme, and the host-side storage handlers.

pub mod attest;
pub mod codec;
pub mod session;
pub mod storage;
pub mod types;
