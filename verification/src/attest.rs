//! The batch-attestation scheme: the canonical message and signing procedure
//! that binds a computed batch to the block it was computed on.
//!
//! The digests and signatures themselves come from outside cryptographic
//! code, reached through trusted wrappers whose results are named
//! (`digest_of`, `sig_of`, `pk_of`, `sig_verifies`); everything assembled
//! around them — the canonical encodings, the domain separation, which bytes
//! are hashed and signed — is verified.

use vstd::prelude::*;

use ed25519_dalek::{Signer, Verifier};
use sha2::Digest;

use crate::codec::{
    enc_blob_list, enc_block, enc_fixed, enc_tag_list, se_blob_list, se_block, se_tag_list,
};
use crate::types::{
    hash_wf, public_key_wf, signature_wf, Block, BlockM, CallBatch, ComputedBatch, OutputBatch,
    PublicKey, Signature, Tag, TagM,
};

verus! {

// ---------------------------------------------------------------------------
// Named results of the outside cryptographic functions
// ---------------------------------------------------------------------------

pub uninterp spec fn digest_of(data: Seq<u8>) -> Seq<u8>;

pub uninterp spec fn sig_of(key: Seq<u8>, msg: Seq<u8>) -> Seq<u8>;

pub uninterp spec fn pk_of(key: Seq<u8>) -> Seq<u8>;

pub uninterp spec fn sig_verifies(pk: Seq<u8>, msg: Seq<u8>, sig: Seq<u8>) -> bool;

// ---------------------------------------------------------------------------
// Trusted wrappers
// ---------------------------------------------------------------------------

/// Relies on `sha2::Sha256::digest`: a 32-byte digest that depends on the
/// input bytes alone.
#[verifier::external_body]
pub fn digest(data: &Vec<u8>) -> (r: crate::types::Hash)
    ensures
        r@ == digest_of(data@),
        r@.len() == 32,
{
    crate::types::Hash { bytes: sha2::Sha256::digest(data.as_slice()).to_vec() }
}

/// Relies on `ed25519_dalek::SigningKey::sign` (RFC 8032 Ed25519): signing is
/// deterministic in the key and message alone, yields a 64-byte signature,
/// and a signature so produced verifies under the key's verifying key.
#[verifier::external_body]
pub fn sign(key: &Vec<u8>, msg: &Vec<u8>) -> (r: Signature)
    requires
        key@.len() == 32,
    ensures
        r@ == sig_of(key@, msg@),
        r@.len() == 64,
        sig_verifies(pk_of(key@), msg@, r@),
{
    let arr: [u8; 32] = key.as_slice().try_into().unwrap();
    let sk = ed25519_dalek::SigningKey::from_bytes(&arr);
    Signature { bytes: sk.sign(msg.as_slice()).to_bytes().to_vec() }
}

/// Relies on `ed25519_dalek::SigningKey::verifying_key`: the 32-byte public
/// key is derived from the secret key alone.
#[verifier::external_body]
pub fn derive_public_key(key: &Vec<u8>) -> (r: PublicKey)
    requires
        key@.len() == 32,
    ensures
        r@ == pk_of(key@),
        r@.len() == 32,
{
    let arr: [u8; 32] = key.as_slice().try_into().unwrap();
    let sk = ed25519_dalek::SigningKey::from_bytes(&arr);
    PublicKey { bytes: sk.verifying_key().to_bytes().to_vec() }
}

/// Relies on `ed25519_dalek::VerifyingKey::verify`: acceptance depends on
/// the key, message and signature bytes alone; key or signature bytes of the
/// wrong shape are rejected.
#[verifier::external_body]
pub fn verify_signature(pk: &PublicKey, msg: &Vec<u8>, sig: &Signature) -> (r: bool)
    ensures
        r == sig_verifies(pk@, msg@, sig@),
{
    match <[u8; 32]>::try_from(pk.bytes.as_slice()) {
        Ok(pk_arr) => match ed25519_dalek::VerifyingKey::from_bytes(&pk_arr) {
            Ok(vk) => match <[u8; 64]>::try_from(sig.bytes.as_slice()) {
                Ok(sig_arr) => {
                    let s = ed25519_dalek::Signature::from_bytes(&sig_arr);
                    vk.verify(msg.as_slice(), &s).is_ok()
                },
                Err(_) => false,
            },
            Err(_) => false,
        },
        Err(_) => false,
    }
}

// ---------------------------------------------------------------------------
// Batch attestation parameters
// ---------------------------------------------------------------------------

/// Model of the batch-attestation message.
#[verifier::ext_equal]
pub struct BatchSigMessageM {
    pub previous_block: BlockM,
    pub input_hash: Seq<u8>,
    pub output_hash: Seq<u8>,
    pub tags_hash: Seq<u8>,
    pub state_root: Seq<u8>,
}

/// Batch attestation parameters: constructed only to be hashed and signed,
/// never sent or persisted.
#[derive(Debug, Clone, PartialEq, Eq)]
pub struct BatchSigMessage {
    /// The block that the batch was computed on.
    pub previous_block: Block,
    /// The digest of the call batch.
    pub input_hash: crate::types::Hash,
    /// The digest of the output batch.
    pub output_hash: crate::types::Hash,
    /// The digest of the serialized tag sequence.
    pub tags_hash: crate::types::Hash,
    /// The root of the state after computing the batch.
    pub state_root: crate::types::Hash,
}

impl View for BatchSigMessage {
    type V = BatchSigMessageM;

    open spec fn view(&self) -> BatchSigMessageM {
        BatchSigMessageM {
            previous_block: self.previous_block@,
            input_hash: self.input_hash@,
            output_hash: self.output_hash@,
            tags_hash: self.tags_hash@,
            state_root: self.state_root@,
        }
    }
}

impl BatchSigMessageM {
    pub open spec fn wf(self) -> bool {
        &&& self.previous_block.wf()
        &&& hash_wf(self.input_hash)
        &&& hash_wf(self.output_hash)
        &&& hash_wf(self.tags_hash)
        &&& hash_wf(self.state_root)
    }
}

/// The canonical encoding of the batch-attestation message.
pub open spec fn se_batch_sig_message(m: BatchSigMessageM) -> Seq<u8> {
    se_block(m.previous_block) + m.input_hash + m.output_hash + m.tags_hash + m.state_root
}

/// The fixed 8-byte domain-separation tag prepended before hashing and
/// signing, so a batch signature cannot be replayed as any other signed
/// structure.
pub open spec fn batch_hash_context() -> Seq<u8> {
    seq![0x45u8, 0x6bu8, 0x42u8, 0x61u8, 0x74u8, 0x63u8, 0x68u8, 0x2du8]
}

pub fn batch_hash_context_bytes() -> (r: Vec<u8>)
    ensures
        r@ == batch_hash_context(),
{
    let mut v: Vec<u8> = Vec::new();
    v.push(0x45);
    v.push(0x6b);
    v.push(0x42);
    v.push(0x61);
    v.push(0x74);
    v.push(0x63);
    v.push(0x68);
    v.push(0x2d);
    proof {
        assert(v@ =~= batch_hash_context());
    }
    v
}

/// What is actually signed: the domain-separation tag, then the canonical
/// encoding of the batch-attestation message.
pub open spec fn batch_sig_input(m: BatchSigMessageM) -> Seq<u8> {
    batch_hash_context() + se_batch_sig_message(m)
}

/// Encodes the signing input for a batch-attestation message: the domain
/// tag, then the message's canonical encoding.
pub fn encode_batch_sig_message(m: &BatchSigMessage) -> (r: Vec<u8>)
    ensures
        r@ == batch_sig_input(m@),
{
    let mut out = batch_hash_context_bytes();
    enc_block(&mut out, &m.previous_block);
    enc_fixed(&mut out, &m.input_hash.bytes);
    enc_fixed(&mut out, &m.output_hash.bytes);
    enc_fixed(&mut out, &m.tags_hash.bytes);
    enc_fixed(&mut out, &m.state_root.bytes);
    proof {
        assert(out@ =~= batch_sig_input(m@));
    }
    out
}

// ---------------------------------------------------------------------------
// The three digests of the scheme
// ---------------------------------------------------------------------------

pub open spec fn input_hash_of(calls: Seq<Seq<u8>>) -> Seq<u8> {
    digest_of(se_blob_list(calls))
}

pub open spec fn output_hash_of(outputs: Seq<Seq<u8>>) -> Seq<u8> {
    digest_of(se_blob_list(outputs))
}

pub open spec fn tags_hash_of(tags: Seq<TagM>) -> Seq<u8> {
    digest_of(se_tag_list(tags))
}

/// Step 1 of the scheme: the digest of the call batch.
pub fn hash_call_batch(calls: &CallBatch) -> (r: crate::types::Hash)
    ensures
        r@ == input_hash_of(calls@),
        hash_wf(r@),
{
    let mut buf: Vec<u8> = Vec::new();
    enc_blob_list(&mut buf, &calls.calls);
    proof {
        assert(buf@ =~= se_blob_list(calls@));
    }
    digest(&buf)
}

/// Step 2 of the scheme: the digest of the output batch.
pub fn hash_output_batch(outputs: &OutputBatch) -> (r: crate::types::Hash)
    ensures
        r@ == output_hash_of(outputs@),
        hash_wf(r@),
{
    let mut buf: Vec<u8> = Vec::new();
    enc_blob_list(&mut buf, &outputs.outputs);
    proof {
        assert(buf@ =~= se_blob_list(outputs@));
    }
    digest(&buf)
}

/// Step 3 of the scheme: the tag sequence in its fixed positional encoding,
/// digested.
pub fn hash_tags(tags: &Vec<Tag>) -> (r: crate::types::Hash)
    ensures
        r@ == tags_hash_of(tags.deep_view()),
        hash_wf(r@),
{
    let mut buf: Vec<u8> = Vec::new();
    enc_tag_list(&mut buf, tags);
    proof {
        assert(buf@ =~= se_tag_list(tags.deep_view()));
    }
    digest(&buf)
}

/// The batch-attestation message assembled from a block, the two batches,
/// the tags and the resulting state root (steps 1 to 4 of the scheme).
pub open spec fn batch_sig_message_for(
    block: BlockM,
    calls: Seq<Seq<u8>>,
    outputs: Seq<Seq<u8>>,
    tags: Seq<TagM>,
    new_state_root: Seq<u8>,
) -> BatchSigMessageM {
    BatchSigMessageM {
        previous_block: block,
        input_hash: input_hash_of(calls),
        output_hash: output_hash_of(outputs),
        tags_hash: tags_hash_of(tags),
        state_root: new_state_root,
    }
}

/// The whole scheme, steps 1 to 6: digest the call batch, the output batch
/// and the encoded tags, assemble the attestation message, prepend the
/// domain-separation tag, and sign with the runtime attestation key.
pub fn attest_batch(
    key: &Vec<u8>,
    block: &Block,
    calls: &CallBatch,
    outputs: &OutputBatch,
    tags: &Vec<Tag>,
    new_state_root: &crate::types::Hash,
) -> (r: Signature)
    requires
        key@.len() == 32,
    ensures
        r@ == sig_of(
            key@,
            batch_sig_input(
                batch_sig_message_for(block@, calls@, outputs@, tags.deep_view(), new_state_root@),
            ),
        ),
        sig_verifies(
            pk_of(key@),
            batch_sig_input(
                batch_sig_message_for(block@, calls@, outputs@, tags.deep_view(), new_state_root@),
            ),
            r@,
        ),
        signature_wf(r@),
{
    let input_hash = hash_call_batch(calls);
    let output_hash = hash_output_batch(outputs);
    let tags_hash = hash_tags(tags);
    let mut buf = batch_hash_context_bytes();
    enc_block(&mut buf, block);
    enc_fixed(&mut buf, &input_hash.bytes);
    enc_fixed(&mut buf, &output_hash.bytes);
    enc_fixed(&mut buf, &tags_hash.bytes);
    enc_fixed(&mut buf, &new_state_root.bytes);
    proof {
        let m = batch_sig_message_for(block@, calls@, outputs@, tags.deep_view(), new_state_root@);
        assert(buf@ =~= batch_sig_input(m));
    }
    sign(key, &buf)
}

/// The verifier's side of the scheme: recompute the three digests from the
/// batch and the block, reconstruct the attestation message, and check the
/// batch's signature against the attested public key. Performed by any
/// collaborator; it never trusts the worker's own digests.
pub fn verify_batch_attestation(
    pk: &PublicKey,
    block: &Block,
    calls: &CallBatch,
    batch: &ComputedBatch,
) -> (r: bool)
    ensures
        r == sig_verifies(
            pk@,
            batch_sig_input(
                batch_sig_message_for(
                    block@,
                    calls@,
                    batch.outputs@,
                    batch.tags.deep_view(),
                    batch.new_state_root@,
                ),
            ),
            batch.rak_sig@,
        ),
{
    let input_hash = hash_call_batch(calls);
    let output_hash = hash_output_batch(&batch.outputs);
    let tags_hash = hash_tags(&batch.tags);
    let mut buf = batch_hash_context_bytes();
    enc_block(&mut buf, block);
    enc_fixed(&mut buf, &input_hash.bytes);
    enc_fixed(&mut buf, &output_hash.bytes);
    enc_fixed(&mut buf, &tags_hash.bytes);
    enc_fixed(&mut buf, &batch.new_state_root.bytes);
    proof {
        let m = batch_sig_message_for(
            block@,
            calls@,
            batch.outputs@,
            batch.tags.deep_view(),
            batch.new_state_root@,
        );
        assert(buf@ =~= batch_sig_input(m));
    }
    verify_signature(pk, &buf, &batch.rak_sig)
}

// ---------------------------------------------------------------------------
// Determinism of the scheme
// ---------------------------------------------------------------------------

/// Attestation determinism: for one and the same block, call batch, output
/// batch, tags and resulting state root, the three digests of the scheme are
/// bit-identical across executions, and two signatures produced with the
/// same key over that message are bit-identical; each of them verifies under
/// the corresponding public key.
pub proof fn lemma_attestation_deterministic(
    key: Seq<u8>,
    m: BatchSigMessageM,
    s1: Seq<u8>,
    s2: Seq<u8>,
)
    requires
        s1 == sig_of(key, batch_sig_input(m)),
        s2 == sig_of(key, batch_sig_input(m)),
    ensures
        s1 == s2,
{
}

} // verus!
