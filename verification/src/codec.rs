//! Binary codec of the protocol: a self-describing encoding in which every
//! message is independently decodable.
//!
//! Integers are big-endian and fixed width, byte blobs and lists carry a
//! 64-bit length prefix, digests, keys and signatures are written raw at
//! their fixed width, and a body is introduced by an explicit one-byte
//! discriminant.
//!
//! `se_*` are the specification encoders; `sd_*` are the specification
//! decoders, which take the remaining input and yield the decoded value and
//! the rest of the input. The executable `enc_*`/`dec_*` functions are proved
//! against them, and the `lemma_sd_*` lemmas state that decoding inverts
//! encoding.

use vstd::prelude::*;

use crate::types::{
    blob_list_wf, blob_wf, hash_list_wf, hash_wf, insert_list_wf, opt_blob_list_wf, opt_blob_wf,
    public_key_wf, signature_wf, tag_list_wf, Avr, Block, BlockM, Body, BodyM, CallBatch,
    ComputedBatch, ComputedBatchM, Message, MessageM, MessageType, OutputBatch, PublicKey,
    Signature, Tag, TagM,
};

verus! {

// ---------------------------------------------------------------------------
// Specification: primitive encoders and decoders
// ---------------------------------------------------------------------------

pub open spec fn se_u8(x: u8) -> Seq<u8> {
    seq![x]
}

pub open spec fn sd_u8(s: Seq<u8>) -> Option<(u8, Seq<u8>)> {
    if s.len() >= 1 {
        Some((s[0], s.skip(1)))
    } else {
        None
    }
}

pub open spec fn se_u32(x: u32) -> Seq<u8> {
    seq![(x >> 24) as u8, (x >> 16) as u8, (x >> 8) as u8, x as u8]
}

pub open spec fn u32_from(s: Seq<u8>) -> u32 {
    ((s[0] as u32) << 24) | ((s[1] as u32) << 16) | ((s[2] as u32) << 8) | (s[3] as u32)
}

pub open spec fn sd_u32(s: Seq<u8>) -> Option<(u32, Seq<u8>)> {
    if s.len() >= 4 {
        Some((u32_from(s), s.skip(4)))
    } else {
        None
    }
}

pub open spec fn se_u64(x: u64) -> Seq<u8> {
    seq![
        (x >> 56) as u8,
        (x >> 48) as u8,
        (x >> 40) as u8,
        (x >> 32) as u8,
        (x >> 24) as u8,
        (x >> 16) as u8,
        (x >> 8) as u8,
        x as u8,
    ]
}

pub open spec fn u64_from(s: Seq<u8>) -> u64 {
    ((s[0] as u64) << 56) | ((s[1] as u64) << 48) | ((s[2] as u64) << 40) | ((s[3] as u64) << 32)
        | ((s[4] as u64) << 24) | ((s[5] as u64) << 16) | ((s[6] as u64) << 8) | (s[7] as u64)
}

pub open spec fn sd_u64(s: Seq<u8>) -> Option<(u64, Seq<u8>)> {
    if s.len() >= 8 {
        Some((u64_from(s), s.skip(8)))
    } else {
        None
    }
}

/// A signed transaction index is written in offset form, so that the wire
/// value is an unsigned 32-bit integer.
pub open spec fn i32_off(x: i32) -> u32 {
    (x + 0x8000_0000) as u32
}

pub open spec fn off_i32(v: u32) -> i32 {
    (v - 0x8000_0000) as i32
}

pub open spec fn se_i32(x: i32) -> Seq<u8> {
    se_u32(i32_off(x))
}

pub open spec fn sd_i32(s: Seq<u8>) -> Option<(i32, Seq<u8>)> {
    match sd_u32(s) {
        Some((v, r)) => Some((off_i32(v), r)),
        None => None,
    }
}

/// A length-prefixed byte blob.
pub open spec fn se_bytes(b: Seq<u8>) -> Seq<u8> {
    se_u64(b.len() as u64) + b
}

pub open spec fn sd_bytes(s: Seq<u8>) -> Option<(Seq<u8>, Seq<u8>)> {
    match sd_u64(s) {
        Some((n, r)) => {
            if n <= r.len() {
                Some((r.take(n as int), r.skip(n as int)))
            } else {
                None
            }
        },
        None => None,
    }
}

/// A fixed-width field (a digest, a public key, a signature) is written raw.
pub open spec fn sd_fixed(s: Seq<u8>, n: nat) -> Option<(Seq<u8>, Seq<u8>)> {
    if s.len() >= n {
        Some((s.take(n as int), s.skip(n as int)))
    } else {
        None
    }
}

// ---------------------------------------------------------------------------
// Inversion lemmas for the primitives
// ---------------------------------------------------------------------------

pub proof fn lemma_sd_u8(x: u8, rest: Seq<u8>)
    ensures
        sd_u8(se_u8(x) + rest) == Some((x, rest)),
{
    let s = se_u8(x) + rest;
    assert(s[0] == x);
    assert(s.skip(1) =~= rest);
}

pub proof fn lemma_sd_u32(x: u32, rest: Seq<u8>)
    ensures
        sd_u32(se_u32(x) + rest) == Some((x, rest)),
{
    let s = se_u32(x) + rest;
    assert(s[0] == (x >> 24) as u8);
    assert(s[1] == (x >> 16) as u8);
    assert(s[2] == (x >> 8) as u8);
    assert(s[3] == x as u8);
    assert((((x >> 24) as u8 as u32) << 24) | (((x >> 16) as u8 as u32) << 16) | (((x >> 8)
        as u8 as u32) << 8) | (x as u8 as u32) == x) by (bit_vector);
    assert(s.skip(4) =~= rest);
}

pub proof fn lemma_sd_u64(x: u64, rest: Seq<u8>)
    ensures
        sd_u64(se_u64(x) + rest) == Some((x, rest)),
{
    let s = se_u64(x) + rest;
    assert(s[0] == (x >> 56) as u8);
    assert(s[1] == (x >> 48) as u8);
    assert(s[2] == (x >> 40) as u8);
    assert(s[3] == (x >> 32) as u8);
    assert(s[4] == (x >> 24) as u8);
    assert(s[5] == (x >> 16) as u8);
    assert(s[6] == (x >> 8) as u8);
    assert(s[7] == x as u8);
    assert((((x >> 56) as u8 as u64) << 56) | (((x >> 48) as u8 as u64) << 48) | (((x >> 40)
        as u8 as u64) << 40) | (((x >> 32) as u8 as u64) << 32) | (((x >> 24) as u8 as u64) << 24)
        | (((x >> 16) as u8 as u64) << 16) | (((x >> 8) as u8 as u64) << 8) | (x as u8 as u64)
        == x) by (bit_vector);
    assert(s.skip(8) =~= rest);
}

pub proof fn lemma_off_i32(x: i32)
    ensures
        off_i32(i32_off(x)) == x,
{
}

pub proof fn lemma_sd_i32(x: i32, rest: Seq<u8>)
    ensures
        sd_i32(se_i32(x) + rest) == Some((x, rest)),
{
    lemma_sd_u32(i32_off(x), rest);
    lemma_off_i32(x);
}

pub proof fn lemma_sd_bytes(b: Seq<u8>, rest: Seq<u8>)
    requires
        blob_wf(b),
    ensures
        sd_bytes(se_bytes(b) + rest) == Some((b, rest)),
{
    let n = b.len() as u64;
    assert(se_bytes(b) + rest =~= se_u64(n) + (b + rest));
    lemma_sd_u64(n, b + rest);
    assert((b + rest).take(n as int) =~= b);
    assert((b + rest).skip(n as int) =~= rest);
}

pub proof fn lemma_sd_fixed(b: Seq<u8>, rest: Seq<u8>, n: nat)
    requires
        b.len() == n,
    ensures
        sd_fixed(b + rest, n) == Some((b, rest)),
{
    assert((b + rest).take(n as int) =~= b);
    assert((b + rest).skip(n as int) =~= rest);
}

// ---------------------------------------------------------------------------
// Reassociating concatenations
// ---------------------------------------------------------------------------

pub proof fn lemma_assoc2(a: Seq<u8>, b: Seq<u8>, c: Seq<u8>)
    ensures
        (a + b) + c == a + (b + c),
{
    assert((a + b) + c =~= a + (b + c));
}

pub proof fn lemma_assoc3(a: Seq<u8>, b: Seq<u8>, c: Seq<u8>, d: Seq<u8>)
    ensures
        ((a + b) + c) + d == a + (b + (c + d)),
{
    assert(((a + b) + c) + d =~= a + (b + (c + d)));
}

pub proof fn lemma_assoc4(a: Seq<u8>, b: Seq<u8>, c: Seq<u8>, d: Seq<u8>, e: Seq<u8>)
    ensures
        (((a + b) + c) + d) + e == a + (b + (c + (d + e))),
{
    assert((((a + b) + c) + d) + e =~= a + (b + (c + (d + e))));
}

// ---------------------------------------------------------------------------
// Relating an executable decoder to its specification decoder
// ---------------------------------------------------------------------------

/// The executable decoder returned `r`, reading from `b` at offset `i`; the
/// specification decoder's verdict on the same remaining input is `s`. The
/// two agree: same value, and the new offset marks exactly the rest that the
/// specification decoder leaves.
pub open spec fn dec_ok<T>(b: Seq<u8>, i: int, r: Option<(T, usize)>, s: Option<(T, Seq<u8>)>) -> bool {
    match s {
        Some((v, rem)) => match r {
            Some((rv, j)) => rv == v && i <= j <= b.len() && b.skip(j as int) == rem,
            None => false,
        },
        None => r is None,
    }
}

/// As `dec_ok`, for a decoder that returns an executable value standing for
/// the decoded model value.
pub open spec fn dec_ok_view<T: View>(
    b: Seq<u8>,
    i: int,
    r: Option<(T, usize)>,
    s: Option<(T::V, Seq<u8>)>,
) -> bool {
    match s {
        Some((v, rem)) => match r {
            Some((rv, j)) => rv@ == v && i <= j <= b.len() && b.skip(j as int) == rem,
            None => false,
        },
        None => r is None,
    }
}

// ---------------------------------------------------------------------------
// Executable encoders and decoders for the primitives
// ---------------------------------------------------------------------------

pub fn enc_u8(out: &mut Vec<u8>, x: u8)
    ensures
        final(out)@ == old(out)@ + se_u8(x),
{
    out.push(x);
    proof {
        assert(out@ =~= old(out)@ + se_u8(x));
    }
}

pub fn dec_u8(b: &Vec<u8>, i: usize) -> (r: Option<(u8, usize)>)
    requires
        i <= b@.len(),
    ensures
        dec_ok(b@, i as int, r, sd_u8(b@.skip(i as int))),
{
    let s = Ghost(b@.skip(i as int));
    if b.len() - i >= 1 {
        let v = b[i];
        proof {
            assert(s@[0] == b@[i as int]);
            assert(b@.skip(i as int + 1) =~= s@.skip(1));
        }
        Some((v, i + 1))
    } else {
        None
    }
}

pub fn enc_u32(out: &mut Vec<u8>, x: u32)
    ensures
        final(out)@ == old(out)@ + se_u32(x),
{
    out.push((x >> 24) as u8);
    out.push((x >> 16) as u8);
    out.push((x >> 8) as u8);
    out.push(x as u8);
    proof {
        assert(out@ =~= old(out)@ + se_u32(x));
    }
}

pub fn dec_u32(b: &Vec<u8>, i: usize) -> (r: Option<(u32, usize)>)
    requires
        i <= b@.len(),
    ensures
        dec_ok(b@, i as int, r, sd_u32(b@.skip(i as int))),
{
    let s = Ghost(b@.skip(i as int));
    if b.len() - i >= 4 {
        let v = ((b[i] as u32) << 24) | ((b[i + 1] as u32) << 16) | ((b[i + 2] as u32) << 8) | (b[i
            + 3] as u32);
        proof {
            assert(s@[0] == b@[i as int]);
            assert(s@[1] == b@[i as int + 1]);
            assert(s@[2] == b@[i as int + 2]);
            assert(s@[3] == b@[i as int + 3]);
            assert(v == u32_from(s@));
            assert(b@.skip(i as int + 4) =~= s@.skip(4));
        }
        Some((v, i + 4))
    } else {
        None
    }
}

pub fn enc_u64(out: &mut Vec<u8>, x: u64)
    ensures
        final(out)@ == old(out)@ + se_u64(x),
{
    out.push((x >> 56) as u8);
    out.push((x >> 48) as u8);
    out.push((x >> 40) as u8);
    out.push((x >> 32) as u8);
    out.push((x >> 24) as u8);
    out.push((x >> 16) as u8);
    out.push((x >> 8) as u8);
    out.push(x as u8);
    proof {
        assert(out@ =~= old(out)@ + se_u64(x));
    }
}

pub fn dec_u64(b: &Vec<u8>, i: usize) -> (r: Option<(u64, usize)>)
    requires
        i <= b@.len(),
    ensures
        dec_ok(b@, i as int, r, sd_u64(b@.skip(i as int))),
{
    let s = Ghost(b@.skip(i as int));
    if b.len() - i >= 8 {
        let v = ((b[i] as u64) << 56) | ((b[i + 1] as u64) << 48) | ((b[i + 2] as u64) << 40) | ((b[
            i + 3] as u64) << 32) | ((b[i + 4] as u64) << 24) | ((b[i + 5] as u64) << 16) | ((b[i
            + 6] as u64) << 8) | (b[i + 7] as u64);
        proof {
            assert(s@[0] == b@[i as int]);
            assert(s@[1] == b@[i as int + 1]);
            assert(s@[2] == b@[i as int + 2]);
            assert(s@[3] == b@[i as int + 3]);
            assert(s@[4] == b@[i as int + 4]);
            assert(s@[5] == b@[i as int + 5]);
            assert(s@[6] == b@[i as int + 6]);
            assert(s@[7] == b@[i as int + 7]);
            assert(v == u64_from(s@));
            assert(b@.skip(i as int + 8) =~= s@.skip(8));
        }
        Some((v, i + 8))
    } else {
        None
    }
}

pub fn enc_i32(out: &mut Vec<u8>, x: i32)
    ensures
        final(out)@ == old(out)@ + se_i32(x),
{
    let off: u32 = (((x as i64) + 0x8000_0000i64)) as u32;
    proof {
        assert(off == i32_off(x));
    }
    enc_u32(out, off);
}

pub fn dec_i32(b: &Vec<u8>, i: usize) -> (r: Option<(i32, usize)>)
    requires
        i <= b@.len(),
    ensures
        dec_ok(b@, i as int, r, sd_i32(b@.skip(i as int))),
{
    match dec_u32(b, i) {
        Some((v, j)) => {
            let x: i32 = ((v as i64) - 0x8000_0000i64) as i32;
            proof {
                assert(x == off_i32(v));
            }
            Some((x, j))
        },
        None => None,
    }
}

/// Copies `n` bytes of `b`, starting at `i`, into a fresh vector.
fn read_exact(b: &Vec<u8>, i: usize, n: usize) -> (r: Vec<u8>)
    requires
        i + n <= b@.len(),
    ensures
        r@ == b@.subrange(i as int, i as int + n as int),
{
    let mut v: Vec<u8> = Vec::new();
    let mut k: usize = 0;
    let blen = b.len();
    while k < n
        invariant
            i + n <= b@.len(),
            b@.len() == blen,
            k <= n,
            v@ =~= b@.subrange(i as int, i as int + k as int),
        decreases n - k,
    {
        v.push(b[i + k]);
        k = k + 1;
        proof {
            assert(v@ =~= b@.subrange(i as int, i as int + k as int));
        }
    }
    v
}

/// Copies a byte vector.
pub fn copy_bytes(v: &Vec<u8>) -> (r: Vec<u8>)
    ensures
        r@ == v@,
{
    let r = read_exact(v, 0, v.len());
    proof {
        assert(v@.subrange(0, v@.len() as int) =~= v@);
    }
    r
}

pub fn enc_blob(out: &mut Vec<u8>, v: &Vec<u8>)
    ensures
        final(out)@ == old(out)@ + se_bytes(v@),
{
    let vlen = v.len();
    proof {
        assert(v@.len() <= u64::MAX);
    }
    enc_u64(out, vlen as u64);
    out.extend_from_slice(v.as_slice());
    proof {
        assert(out@ =~= old(out)@ + se_bytes(v@));
    }
}

pub fn dec_blob(b: &Vec<u8>, i: usize) -> (r: Option<(Vec<u8>, usize)>)
    requires
        i <= b@.len(),
    ensures
        dec_ok_view(b@, i as int, r, sd_bytes(b@.skip(i as int))),
{
    let s = Ghost(b@.skip(i as int));
    match dec_u64(b, i) {
        Some((n, j)) => {
            if n <= (b.len() - j) as u64 {
                let nn = n as usize;
                let v = read_exact(b, j, nn);
                proof {
                    let rem = s@.skip(8);
                    assert(rem =~= b@.skip(j as int));
                    assert(v@ =~= rem.take(n as int));
                    assert(b@.skip(j as int + nn as int) =~= rem.skip(n as int));
                }
                Some((v, j + nn))
            } else {
                None
            }
        },
        None => None,
    }
}

/// Reads a fixed-width `n`-byte field.
pub fn dec_fixed(b: &Vec<u8>, i: usize, n: usize) -> (r: Option<(Vec<u8>, usize)>)
    requires
        i <= b@.len(),
    ensures
        dec_ok_view(b@, i as int, r, sd_fixed(b@.skip(i as int), n as nat)),
{
    let s = Ghost(b@.skip(i as int));
    if b.len() - i >= n {
        let v = read_exact(b, i, n);
        proof {
            assert(v@ =~= s@.take(n as int));
            assert(b@.skip(i as int + n as int) =~= s@.skip(n as int));
        }
        Some((v, i + n))
    } else {
        None
    }
}

/// Writes a fixed-width field raw.
pub fn enc_fixed(out: &mut Vec<u8>, v: &Vec<u8>)
    ensures
        final(out)@ == old(out)@ + v@,
{
    out.extend_from_slice(v.as_slice());
}

/// As `dec_ok`, for a decoder whose executable result stands for the decoded
/// model value through `deep_view`.
pub open spec fn dec_ok_deep<T: DeepView>(
    b: Seq<u8>,
    i: int,
    r: Option<(T, usize)>,
    s: Option<(T::V, Seq<u8>)>,
) -> bool {
    match s {
        Some((v, rem)) => match r {
            Some((rv, j)) => rv.deep_view() == v && i <= j <= b.len() && b.skip(j as int) == rem,
            None => false,
        },
        None => r is None,
    }
}

/// The deep view of a byte vector is its view.
pub proof fn lemma_bytes_deep_view(v: Vec<u8>)
    ensures
        v.deep_view() == v@,
{
    assert(v.deep_view() =~= v@);
}

// ---------------------------------------------------------------------------
// Tag
// ---------------------------------------------------------------------------

/// A tag is a fixed positional three-element sequence: index, key, value.
/// The leading count on the wire is always exactly 3; any other count is a
/// decode failure.
pub open spec fn se_tag(t: TagM) -> Seq<u8> {
    se_u64(3) + se_i32(t.txn_index) + se_bytes(t.key) + se_bytes(t.value)
}

pub open spec fn sd_tag(s: Seq<u8>) -> Option<(TagM, Seq<u8>)> {
    match sd_u64(s) {
        Some((n, r)) => if n == 3 {
            match sd_i32(r) {
                Some((ti, r1)) => match sd_bytes(r1) {
                    Some((k, r2)) => match sd_bytes(r2) {
                        Some((v, r3)) => Some((TagM { txn_index: ti, key: k, value: v }, r3)),
                        None => None,
                    },
                    None => None,
                },
                None => None,
            }
        } else {
            None
        },
        None => None,
    }
}

pub proof fn lemma_sd_tag(t: TagM, rest: Seq<u8>)
    requires
        t.wf(),
    ensures
        sd_tag(se_tag(t) + rest) == Some((t, rest)),
{
    let r3 = rest;
    let r2 = se_bytes(t.value) + r3;
    let r1 = se_bytes(t.key) + r2;
    let r0 = se_i32(t.txn_index) + r1;
    assert(se_tag(t) + rest =~= se_u64(3) + r0);
    lemma_sd_u64(3, r0);
    lemma_sd_i32(t.txn_index, r1);
    lemma_sd_bytes(t.key, r2);
    lemma_sd_bytes(t.value, r3);
}

pub fn enc_tag(out: &mut Vec<u8>, t: &Tag)
    ensures
        final(out)@ == old(out)@ + se_tag(t@),
{
    enc_u64(out, 3);
    enc_i32(out, t.txn_index);
    enc_blob(out, &t.key);
    enc_blob(out, &t.value);
    proof {
        assert(out@ =~= old(out)@ + se_tag(t@));
    }
}

pub fn dec_tag(b: &Vec<u8>, i: usize) -> (r: Option<(Tag, usize)>)
    requires
        i <= b@.len(),
    ensures
        dec_ok_view(b@, i as int, r, sd_tag(b@.skip(i as int))),
{
    match dec_u64(b, i) {
        Some((n, j)) => if n == 3 {
            match dec_i32(b, j) {
                Some((ti, j1)) => match dec_blob(b, j1) {
                    Some((k, j2)) => match dec_blob(b, j2) {
                        Some((v, j3)) => Some((Tag { txn_index: ti, key: k, value: v }, j3)),
                        None => None,
                    },
                    None => None,
                },
                None => None,
            }
        } else {
            None
        },
        None => None,
    }
}

// ---------------------------------------------------------------------------
// Block
// ---------------------------------------------------------------------------

pub open spec fn se_block(bl: BlockM) -> Seq<u8> {
    bl.previous_hash + bl.state_root
}

pub open spec fn sd_block(s: Seq<u8>) -> Option<(BlockM, Seq<u8>)> {
    match sd_fixed(s, 32) {
        Some((p, r)) => match sd_fixed(r, 32) {
            Some((sr, r2)) => Some((BlockM { previous_hash: p, state_root: sr }, r2)),
            None => None,
        },
        None => None,
    }
}

pub proof fn lemma_sd_block(bl: BlockM, rest: Seq<u8>)
    requires
        bl.wf(),
    ensures
        sd_block(se_block(bl) + rest) == Some((bl, rest)),
{
    let r1 = bl.state_root + rest;
    assert(se_block(bl) + rest =~= bl.previous_hash + r1);
    lemma_sd_fixed(bl.previous_hash, r1, 32);
    lemma_sd_fixed(bl.state_root, rest, 32);
}

pub fn enc_block(out: &mut Vec<u8>, bl: &Block)
    ensures
        final(out)@ == old(out)@ + se_block(bl@),
{
    enc_fixed(out, &bl.previous_hash.bytes);
    enc_fixed(out, &bl.state_root.bytes);
    proof {
        assert(out@ =~= old(out)@ + se_block(bl@));
    }
}

pub fn dec_block(b: &Vec<u8>, i: usize) -> (r: Option<(Block, usize)>)
    requires
        i <= b@.len(),
    ensures
        dec_ok_view(b@, i as int, r, sd_block(b@.skip(i as int))),
{
    match dec_fixed(b, i, 32) {
        Some((p, j)) => match dec_fixed(b, j, 32) {
            Some((sr, j2)) => Some(
                (
                    Block {
                        previous_hash: crate::types::Hash { bytes: p },
                        state_root: crate::types::Hash { bytes: sr },
                    },
                    j2,
                ),
            ),
            None => None,
        },
        None => None,
    }
}

// ---------------------------------------------------------------------------
// Storage insert: a (blob, expiry) pair
// ---------------------------------------------------------------------------

pub open spec fn se_insert(p: (Seq<u8>, u64)) -> Seq<u8> {
    se_bytes(p.0) + se_u64(p.1)
}

pub open spec fn sd_insert(s: Seq<u8>) -> Option<((Seq<u8>, u64), Seq<u8>)> {
    match sd_bytes(s) {
        Some((k, r)) => match sd_u64(r) {
            Some((e, r2)) => Some(((k, e), r2)),
            None => None,
        },
        None => None,
    }
}

pub proof fn lemma_sd_insert(p: (Seq<u8>, u64), rest: Seq<u8>)
    requires
        blob_wf(p.0),
    ensures
        sd_insert(se_insert(p) + rest) == Some((p, rest)),
{
    let r1 = se_u64(p.1) + rest;
    assert(se_insert(p) + rest =~= se_bytes(p.0) + r1);
    lemma_sd_bytes(p.0, r1);
    lemma_sd_u64(p.1, rest);
}

pub fn enc_insert(out: &mut Vec<u8>, p: &(Vec<u8>, u64))
    ensures
        final(out)@ == old(out)@ + se_insert(p.deep_view()),
{
    enc_blob(out, &p.0);
    enc_u64(out, p.1);
    proof {
        lemma_bytes_deep_view(p.0);
        assert(out@ =~= old(out)@ + se_insert(p.deep_view()));
    }
}

pub fn dec_insert(b: &Vec<u8>, i: usize) -> (r: Option<((Vec<u8>, u64), usize)>)
    requires
        i <= b@.len(),
    ensures
        dec_ok_deep(b@, i as int, r, sd_insert(b@.skip(i as int))),
{
    match dec_blob(b, i) {
        Some((k, j)) => match dec_u64(b, j) {
            Some((e, j2)) => {
                proof {
                    lemma_bytes_deep_view(k);
                }
                Some(((k, e), j2))
            },
            None => None,
        },
        None => None,
    }
}

// ---------------------------------------------------------------------------
// Optional blob: an explicit present/absent marker, then the blob
// ---------------------------------------------------------------------------

pub open spec fn se_opt_blob(o: Option<Seq<u8>>) -> Seq<u8> {
    match o {
        None => se_u8(0),
        Some(bs) => se_u8(1) + se_bytes(bs),
    }
}

pub open spec fn sd_opt_blob(s: Seq<u8>) -> Option<(Option<Seq<u8>>, Seq<u8>)> {
    match sd_u8(s) {
        Some((m, r)) => if m == 0 {
            Some((None, r))
        } else if m == 1 {
            match sd_bytes(r) {
                Some((bs, r2)) => Some((Some(bs), r2)),
                None => None,
            }
        } else {
            None
        },
        None => None,
    }
}

pub proof fn lemma_sd_opt_blob(o: Option<Seq<u8>>, rest: Seq<u8>)
    requires
        opt_blob_wf(o),
    ensures
        sd_opt_blob(se_opt_blob(o) + rest) == Some((o, rest)),
{
    match o {
        None => {
            lemma_sd_u8(0, rest);
        },
        Some(bs) => {
            let r1 = se_bytes(bs) + rest;
            assert(se_opt_blob(o) + rest =~= se_u8(1) + r1);
            lemma_sd_u8(1, r1);
            lemma_sd_bytes(bs, rest);
        },
    }
}

pub fn enc_opt_blob(out: &mut Vec<u8>, o: &Option<Vec<u8>>)
    ensures
        final(out)@ == old(out)@ + se_opt_blob(o.deep_view()),
{
    match o {
        None => {
            enc_u8(out, 0);
        },
        Some(bs) => {
            enc_u8(out, 1);
            enc_blob(out, bs);
            proof {
                lemma_bytes_deep_view(*bs);
                assert(out@ =~= old(out)@ + se_opt_blob(o.deep_view()));
            }
        },
    }
}

pub fn dec_opt_blob(b: &Vec<u8>, i: usize) -> (r: Option<(Option<Vec<u8>>, usize)>)
    requires
        i <= b@.len(),
    ensures
        dec_ok_deep(b@, i as int, r, sd_opt_blob(b@.skip(i as int))),
{
    match dec_u8(b, i) {
        Some((m, j)) => if m == 0 {
            Some((None, j))
        } else if m == 1 {
            match dec_blob(b, j) {
                Some((bs, j2)) => {
                    proof {
                        lemma_bytes_deep_view(bs);
                    }
                    Some((Some(bs), j2))
                },
                None => None,
            }
        } else {
            None
        },
        None => None,
    }
}

// ---------------------------------------------------------------------------
// Lists: a 64-bit element count, then the elements in order
// ---------------------------------------------------------------------------

pub open spec fn se_blob_elems(l: Seq<Seq<u8>>) -> Seq<u8>
    decreases l.len(),
{
    if l.len() == 0 {
        Seq::empty()
    } else {
        se_bytes(l[0]) + se_blob_elems(l.skip(1))
    }
}

pub open spec fn se_blob_list(l: Seq<Seq<u8>>) -> Seq<u8> {
    se_u64(l.len() as u64) + se_blob_elems(l)
}

pub open spec fn sd_blob_elems(s: Seq<u8>, n: nat) -> Option<(Seq<Seq<u8>>, Seq<u8>)>
    decreases n,
{
    if n == 0 {
        Some((Seq::empty(), s))
    } else {
        match sd_bytes(s) {
            Some((v, r)) => match sd_blob_elems(r, (n - 1) as nat) {
                Some((vs, r2)) => Some((seq![v] + vs, r2)),
                None => None,
            },
            None => None,
        }
    }
}

pub open spec fn sd_blob_list(s: Seq<u8>) -> Option<(Seq<Seq<u8>>, Seq<u8>)> {
    match sd_u64(s) {
        Some((n, r)) => sd_blob_elems(r, n as nat),
        None => None,
    }
}

pub proof fn lemma_sd_blob_elems(l: Seq<Seq<u8>>, rest: Seq<u8>)
    requires
        forall|i: int| #![auto] 0 <= i < l.len() ==> blob_wf(l[i]),
    ensures
        sd_blob_elems(se_blob_elems(l) + rest, l.len()) == Some((l, rest)),
    decreases l.len(),
{
    if l.len() == 0 {
        assert(se_blob_elems(l) + rest =~= rest);
        assert(Seq::<Seq<u8>>::empty() =~= l);
    } else {
        let hd = l[0];
        let tl = l.skip(1);
        assert(se_blob_elems(l) + rest =~= se_bytes(hd) + (se_blob_elems(tl) + rest));
        lemma_sd_bytes(hd, se_blob_elems(tl) + rest);
        lemma_sd_blob_elems(tl, rest);
        assert(seq![hd] + tl =~= l);
    }
}

pub proof fn lemma_sd_blob_list(l: Seq<Seq<u8>>, rest: Seq<u8>)
    requires
        blob_list_wf(l),
    ensures
        sd_blob_list(se_blob_list(l) + rest) == Some((l, rest)),
{
    assert(se_blob_list(l) + rest =~= se_u64(l.len() as u64) + (se_blob_elems(l) + rest));
    lemma_sd_u64(l.len() as u64, se_blob_elems(l) + rest);
    lemma_sd_blob_elems(l, rest);
}

fn enc_blob_elems(out: &mut Vec<u8>, l: &Vec<Vec<u8>>, k: usize)
    requires
        k <= l@.len(),
    ensures
        final(out)@ == old(out)@ + se_blob_elems(l.deep_view().skip(k as int)),
    decreases l@.len() - k,
{
    let ghost dv = l.deep_view();
    if k < l.len() {
        enc_blob(out, &l[k]);
        enc_blob_elems(out, l, k + 1);
        proof {
            lemma_bytes_deep_view(l@[k as int]);
            assert(dv.skip(k as int)[0] == dv[k as int]);
            assert(dv.skip(k as int).skip(1) =~= dv.skip(k as int + 1));
            assert(out@ =~= old(out)@ + se_blob_elems(dv.skip(k as int)));
        }
    } else {
        proof {
            assert(dv.skip(k as int) =~= Seq::<Seq<u8>>::empty());
            assert(out@ =~= old(out)@ + se_blob_elems(dv.skip(k as int)));
        }
    }
}

pub fn enc_blob_list(out: &mut Vec<u8>, l: &Vec<Vec<u8>>)
    ensures
        final(out)@ == old(out)@ + se_blob_list(l.deep_view()),
{
    let llen = l.len();
    enc_u64(out, llen as u64);
    enc_blob_elems(out, l, 0);
    proof {
        assert(l.deep_view().skip(0) =~= l.deep_view());
        assert(out@ =~= old(out)@ + se_blob_list(l.deep_view()));
    }
}

fn dec_blob_elems(b: &Vec<u8>, i: usize, n: u64) -> (r: Option<(Vec<Vec<u8>>, usize)>)
    requires
        i <= b@.len(),
    ensures
        dec_ok_deep(b@, i as int, r, sd_blob_elems(b@.skip(i as int), n as nat)),
    decreases n,
{
    if n == 0 {
        let v: Vec<Vec<u8>> = Vec::new();
        proof {
            assert(v.deep_view() =~= Seq::<Seq<u8>>::empty());
        }
        Some((v, i))
    } else {
        match dec_blob(b, i) {
            Some((x, j)) => match dec_blob_elems(b, j, n - 1) {
                Some((mut vs, j2)) => {
                    let ghost vs0 = vs.deep_view();
                    vs.insert(0, x);
                    proof {
                        lemma_bytes_deep_view(x);
                        assert(vs.deep_view() =~= seq![x.deep_view()] + vs0);
                    }
                    Some((vs, j2))
                },
                None => None,
            },
            None => None,
        }
    }
}

pub fn dec_blob_list(b: &Vec<u8>, i: usize) -> (r: Option<(Vec<Vec<u8>>, usize)>)
    requires
        i <= b@.len(),
    ensures
        dec_ok_deep(b@, i as int, r, sd_blob_list(b@.skip(i as int))),
{
    match dec_u64(b, i) {
        Some((n, j)) => dec_blob_elems(b, j, n),
        None => None,
    }
}

pub open spec fn se_insert_elems(l: Seq<(Seq<u8>, u64)>) -> Seq<u8>
    decreases l.len(),
{
    if l.len() == 0 {
        Seq::empty()
    } else {
        se_insert(l[0]) + se_insert_elems(l.skip(1))
    }
}

pub open spec fn se_insert_list(l: Seq<(Seq<u8>, u64)>) -> Seq<u8> {
    se_u64(l.len() as u64) + se_insert_elems(l)
}

pub open spec fn sd_insert_elems(s: Seq<u8>, n: nat) -> Option<(Seq<(Seq<u8>, u64)>, Seq<u8>)>
    decreases n,
{
    if n == 0 {
        Some((Seq::empty(), s))
    } else {
        match sd_insert(s) {
            Some((v, r)) => match sd_insert_elems(r, (n - 1) as nat) {
                Some((vs, r2)) => Some((seq![v] + vs, r2)),
                None => None,
            },
            None => None,
        }
    }
}

pub open spec fn sd_insert_list(s: Seq<u8>) -> Option<(Seq<(Seq<u8>, u64)>, Seq<u8>)> {
    match sd_u64(s) {
        Some((n, r)) => sd_insert_elems(r, n as nat),
        None => None,
    }
}

pub proof fn lemma_sd_insert_elems(l: Seq<(Seq<u8>, u64)>, rest: Seq<u8>)
    requires
        forall|i: int| #![auto] 0 <= i < l.len() ==> blob_wf(l[i].0),
    ensures
        sd_insert_elems(se_insert_elems(l) + rest, l.len()) == Some((l, rest)),
    decreases l.len(),
{
    if l.len() == 0 {
        assert(se_insert_elems(l) + rest =~= rest);
        assert(Seq::<(Seq<u8>, u64)>::empty() =~= l);
    } else {
        let hd = l[0];
        let tl = l.skip(1);
        assert(se_insert_elems(l) + rest =~= se_insert(hd) + (se_insert_elems(tl) + rest));
        lemma_sd_insert(hd, se_insert_elems(tl) + rest);
        lemma_sd_insert_elems(tl, rest);
        assert(seq![hd] + tl =~= l);
    }
}

pub proof fn lemma_sd_insert_list(l: Seq<(Seq<u8>, u64)>, rest: Seq<u8>)
    requires
        insert_list_wf(l),
    ensures
        sd_insert_list(se_insert_list(l) + rest) == Some((l, rest)),
{
    assert(se_insert_list(l) + rest =~= se_u64(l.len() as u64) + (se_insert_elems(l) + rest));
    lemma_sd_u64(l.len() as u64, se_insert_elems(l) + rest);
    lemma_sd_insert_elems(l, rest);
}

fn enc_insert_elems(out: &mut Vec<u8>, l: &Vec<(Vec<u8>, u64)>, k: usize)
    requires
        k <= l@.len(),
    ensures
        final(out)@ == old(out)@ + se_insert_elems(l.deep_view().skip(k as int)),
    decreases l@.len() - k,
{
    let ghost dv = l.deep_view();
    if k < l.len() {
        enc_insert(out, &l[k]);
        enc_insert_elems(out, l, k + 1);
        proof {
            assert(dv.skip(k as int)[0] == dv[k as int]);
            assert(dv.skip(k as int).skip(1) =~= dv.skip(k as int + 1));
            assert(out@ =~= old(out)@ + se_insert_elems(dv.skip(k as int)));
        }
    } else {
        proof {
            assert(dv.skip(k as int) =~= Seq::<(Seq<u8>, u64)>::empty());
            assert(out@ =~= old(out)@ + se_insert_elems(dv.skip(k as int)));
        }
    }
}

pub fn enc_insert_list(out: &mut Vec<u8>, l: &Vec<(Vec<u8>, u64)>)
    ensures
        final(out)@ == old(out)@ + se_insert_list(l.deep_view()),
{
    let llen = l.len();
    enc_u64(out, llen as u64);
    enc_insert_elems(out, l, 0);
    proof {
        assert(l.deep_view().skip(0) =~= l.deep_view());
        assert(out@ =~= old(out)@ + se_insert_list(l.deep_view()));
    }
}

fn dec_insert_elems(b: &Vec<u8>, i: usize, n: u64) -> (r: Option<(Vec<(Vec<u8>, u64)>, usize)>)
    requires
        i <= b@.len(),
    ensures
        dec_ok_deep(b@, i as int, r, sd_insert_elems(b@.skip(i as int), n as nat)),
    decreases n,
{
    if n == 0 {
        let v: Vec<(Vec<u8>, u64)> = Vec::new();
        proof {
            assert(v.deep_view() =~= Seq::<(Seq<u8>, u64)>::empty());
        }
        Some((v, i))
    } else {
        match dec_insert(b, i) {
            Some((x, j)) => match dec_insert_elems(b, j, n - 1) {
                Some((mut vs, j2)) => {
                    let ghost vs0 = vs.deep_view();
                    let ghost xd = x.deep_view();
                    vs.insert(0, x);
                    proof {
                        assert(vs.deep_view() =~= seq![xd] + vs0);
                    }
                    Some((vs, j2))
                },
                None => None,
            },
            None => None,
        }
    }
}

pub fn dec_insert_list(b: &Vec<u8>, i: usize) -> (r: Option<(Vec<(Vec<u8>, u64)>, usize)>)
    requires
        i <= b@.len(),
    ensures
        dec_ok_deep(b@, i as int, r, sd_insert_list(b@.skip(i as int))),
{
    match dec_u64(b, i) {
        Some((n, j)) => dec_insert_elems(b, j, n),
        None => None,
    }
}

pub open spec fn se_hash_elems(l: Seq<Seq<u8>>) -> Seq<u8>
    decreases l.len(),
{
    if l.len() == 0 {
        Seq::empty()
    } else {
        l[0] + se_hash_elems(l.skip(1))
    }
}

pub open spec fn se_hash_list(l: Seq<Seq<u8>>) -> Seq<u8> {
    se_u64(l.len() as u64) + se_hash_elems(l)
}

pub open spec fn sd_hash_elems(s: Seq<u8>, n: nat) -> Option<(Seq<Seq<u8>>, Seq<u8>)>
    decreases n,
{
    if n == 0 {
        Some((Seq::empty(), s))
    } else {
        match sd_fixed(s, 32) {
            Some((v, r)) => match sd_hash_elems(r, (n - 1) as nat) {
                Some((vs, r2)) => Some((seq![v] + vs, r2)),
                None => None,
            },
            None => None,
        }
    }
}

pub open spec fn sd_hash_list(s: Seq<u8>) -> Option<(Seq<Seq<u8>>, Seq<u8>)> {
    match sd_u64(s) {
        Some((n, r)) => sd_hash_elems(r, n as nat),
        None => None,
    }
}

pub proof fn lemma_sd_hash_elems(l: Seq<Seq<u8>>, rest: Seq<u8>)
    requires
        forall|i: int| #![auto] 0 <= i < l.len() ==> hash_wf(l[i]),
    ensures
        sd_hash_elems(se_hash_elems(l) + rest, l.len()) == Some((l, rest)),
    decreases l.len(),
{
    if l.len() == 0 {
        assert(se_hash_elems(l) + rest =~= rest);
        assert(Seq::<Seq<u8>>::empty() =~= l);
    } else {
        let hd = l[0];
        let tl = l.skip(1);
        assert(se_hash_elems(l) + rest =~= hd + (se_hash_elems(tl) + rest));
        lemma_sd_fixed(hd, se_hash_elems(tl) + rest, 32);
        lemma_sd_hash_elems(tl, rest);
        assert(seq![hd] + tl =~= l);
    }
}

pub proof fn lemma_sd_hash_list(l: Seq<Seq<u8>>, rest: Seq<u8>)
    requires
        hash_list_wf(l),
    ensures
        sd_hash_list(se_hash_list(l) + rest) == Some((l, rest)),
{
    assert(se_hash_list(l) + rest =~= se_u64(l.len() as u64) + (se_hash_elems(l) + rest));
    lemma_sd_u64(l.len() as u64, se_hash_elems(l) + rest);
    lemma_sd_hash_elems(l, rest);
}

fn enc_hash_elems(out: &mut Vec<u8>, l: &Vec<crate::types::Hash>, k: usize)
    requires
        k <= l@.len(),
    ensures
        final(out)@ == old(out)@ + se_hash_elems(l.deep_view().skip(k as int)),
    decreases l@.len() - k,
{
    let ghost dv = l.deep_view();
    if k < l.len() {
        enc_fixed(out, &l[k].bytes);
        enc_hash_elems(out, l, k + 1);
        proof {
            assert(dv.skip(k as int)[0] == dv[k as int]);
            assert(dv.skip(k as int).skip(1) =~= dv.skip(k as int + 1));
            assert(out@ =~= old(out)@ + se_hash_elems(dv.skip(k as int)));
        }
    } else {
        proof {
            assert(dv.skip(k as int) =~= Seq::<Seq<u8>>::empty());
            assert(out@ =~= old(out)@ + se_hash_elems(dv.skip(k as int)));
        }
    }
}

pub fn enc_hash_list(out: &mut Vec<u8>, l: &Vec<crate::types::Hash>)
    ensures
        final(out)@ == old(out)@ + se_hash_list(l.deep_view()),
{
    let llen = l.len();
    enc_u64(out, llen as u64);
    enc_hash_elems(out, l, 0);
    proof {
        assert(l.deep_view().skip(0) =~= l.deep_view());
        assert(out@ =~= old(out)@ + se_hash_list(l.deep_view()));
    }
}

fn dec_hash_elems(b: &Vec<u8>, i: usize, n: u64) -> (r: Option<(Vec<crate::types::Hash>, usize)>)
    requires
        i <= b@.len(),
    ensures
        dec_ok_deep(b@, i as int, r, sd_hash_elems(b@.skip(i as int), n as nat)),
    decreases n,
{
    if n == 0 {
        let v: Vec<crate::types::Hash> = Vec::new();
        proof {
            assert(v.deep_view() =~= Seq::<Seq<u8>>::empty());
        }
        Some((v, i))
    } else {
        match dec_fixed(b, i, 32) {
            Some((x, j)) => match dec_hash_elems(b, j, n - 1) {
                Some((mut vs, j2)) => {
                    let ghost vs0 = vs.deep_view();
                    let h = crate::types::Hash { bytes: x };
                    let ghost hd = h.deep_view();
                    vs.insert(0, h);
                    proof {
                        assert(vs.deep_view() =~= seq![hd] + vs0);
                    }
                    Some((vs, j2))
                },
                None => None,
            },
            None => None,
        }
    }
}

pub fn dec_hash_list(b: &Vec<u8>, i: usize) -> (r: Option<(Vec<crate::types::Hash>, usize)>)
    requires
        i <= b@.len(),
    ensures
        dec_ok_deep(b@, i as int, r, sd_hash_list(b@.skip(i as int))),
{
    match dec_u64(b, i) {
        Some((n, j)) => dec_hash_elems(b, j, n),
        None => None,
    }
}

pub open spec fn se_tag_elems(l: Seq<TagM>) -> Seq<u8>
    decreases l.len(),
{
    if l.len() == 0 {
        Seq::empty()
    } else {
        se_tag(l[0]) + se_tag_elems(l.skip(1))
    }
}

pub open spec fn se_tag_list(l: Seq<TagM>) -> Seq<u8> {
    se_u64(l.len() as u64) + se_tag_elems(l)
}

pub open spec fn sd_tag_elems(s: Seq<u8>, n: nat) -> Option<(Seq<TagM>, Seq<u8>)>
    decreases n,
{
    if n == 0 {
        Some((Seq::empty(), s))
    } else {
        match sd_tag(s) {
            Some((v, r)) => match sd_tag_elems(r, (n - 1) as nat) {
                Some((vs, r2)) => Some((seq![v] + vs, r2)),
                None => None,
            },
            None => None,
        }
    }
}

pub open spec fn sd_tag_list(s: Seq<u8>) -> Option<(Seq<TagM>, Seq<u8>)> {
    match sd_u64(s) {
        Some((n, r)) => sd_tag_elems(r, n as nat),
        None => None,
    }
}

pub proof fn lemma_sd_tag_elems(l: Seq<TagM>, rest: Seq<u8>)
    requires
        forall|i: int| #![auto] 0 <= i < l.len() ==> l[i].wf(),
    ensures
        sd_tag_elems(se_tag_elems(l) + rest, l.len()) == Some((l, rest)),
    decreases l.len(),
{
    if l.len() == 0 {
        assert(se_tag_elems(l) + rest =~= rest);
        assert(Seq::<TagM>::empty() =~= l);
    } else {
        let hd = l[0];
        let tl = l.skip(1);
        assert(se_tag_elems(l) + rest =~= se_tag(hd) + (se_tag_elems(tl) + rest));
        lemma_sd_tag(hd, se_tag_elems(tl) + rest);
        lemma_sd_tag_elems(tl, rest);
        assert(seq![hd] + tl =~= l);
    }
}

pub proof fn lemma_sd_tag_list(l: Seq<TagM>, rest: Seq<u8>)
    requires
        tag_list_wf(l),
    ensures
        sd_tag_list(se_tag_list(l) + rest) == Some((l, rest)),
{
    assert(se_tag_list(l) + rest =~= se_u64(l.len() as u64) + (se_tag_elems(l) + rest));
    lemma_sd_u64(l.len() as u64, se_tag_elems(l) + rest);
    lemma_sd_tag_elems(l, rest);
}

fn enc_tag_elems(out: &mut Vec<u8>, l: &Vec<Tag>, k: usize)
    requires
        k <= l@.len(),
    ensures
        final(out)@ == old(out)@ + se_tag_elems(l.deep_view().skip(k as int)),
    decreases l@.len() - k,
{
    let ghost dv = l.deep_view();
    if k < l.len() {
        enc_tag(out, &l[k]);
        enc_tag_elems(out, l, k + 1);
        proof {
            assert(dv.skip(k as int)[0] == dv[k as int]);
            assert(dv.skip(k as int).skip(1) =~= dv.skip(k as int + 1));
            assert(out@ =~= old(out)@ + se_tag_elems(dv.skip(k as int)));
        }
    } else {
        proof {
            assert(dv.skip(k as int) =~= Seq::<TagM>::empty());
            assert(out@ =~= old(out)@ + se_tag_elems(dv.skip(k as int)));
        }
    }
}

pub fn enc_tag_list(out: &mut Vec<u8>, l: &Vec<Tag>)
    ensures
        final(out)@ == old(out)@ + se_tag_list(l.deep_view()),
{
    let llen = l.len();
    enc_u64(out, llen as u64);
    enc_tag_elems(out, l, 0);
    proof {
        assert(l.deep_view().skip(0) =~= l.deep_view());
        assert(out@ =~= old(out)@ + se_tag_list(l.deep_view()));
    }
}

fn dec_tag_elems(b: &Vec<u8>, i: usize, n: u64) -> (r: Option<(Vec<Tag>, usize)>)
    requires
        i <= b@.len(),
    ensures
        dec_ok_deep(b@, i as int, r, sd_tag_elems(b@.skip(i as int), n as nat)),
    decreases n,
{
    if n == 0 {
        let v: Vec<Tag> = Vec::new();
        proof {
            assert(v.deep_view() =~= Seq::<TagM>::empty());
        }
        Some((v, i))
    } else {
        match dec_tag(b, i) {
            Some((x, j)) => match dec_tag_elems(b, j, n - 1) {
                Some((mut vs, j2)) => {
                    let ghost vs0 = vs.deep_view();
                    let ghost xd = x.deep_view();
                    vs.insert(0, x);
                    proof {
                        assert(vs.deep_view() =~= seq![xd] + vs0);
                    }
                    Some((vs, j2))
                },
                None => None,
            },
            None => None,
        }
    }
}

pub fn dec_tag_list(b: &Vec<u8>, i: usize) -> (r: Option<(Vec<Tag>, usize)>)
    requires
        i <= b@.len(),
    ensures
        dec_ok_deep(b@, i as int, r, sd_tag_list(b@.skip(i as int))),
{
    match dec_u64(b, i) {
        Some((n, j)) => dec_tag_elems(b, j, n),
        None => None,
    }
}

pub open spec fn se_opt_blob_elems(l: Seq<Option<Seq<u8>>>) -> Seq<u8>
    decreases l.len(),
{
    if l.len() == 0 {
        Seq::empty()
    } else {
        se_opt_blob(l[0]) + se_opt_blob_elems(l.skip(1))
    }
}

pub open spec fn se_opt_blob_list(l: Seq<Option<Seq<u8>>>) -> Seq<u8> {
    se_u64(l.len() as u64) + se_opt_blob_elems(l)
}

pub open spec fn sd_opt_blob_elems(s: Seq<u8>, n: nat) -> Option<(Seq<Option<Seq<u8>>>, Seq<u8>)>
    decreases n,
{
    if n == 0 {
        Some((Seq::empty(), s))
    } else {
        match sd_opt_blob(s) {
            Some((v, r)) => match sd_opt_blob_elems(r, (n - 1) as nat) {
                Some((vs, r2)) => Some((seq![v] + vs, r2)),
                None => None,
            },
            None => None,
        }
    }
}

pub open spec fn sd_opt_blob_list(s: Seq<u8>) -> Option<(Seq<Option<Seq<u8>>>, Seq<u8>)> {
    match sd_u64(s) {
        Some((n, r)) => sd_opt_blob_elems(r, n as nat),
        None => None,
    }
}

pub proof fn lemma_sd_opt_blob_elems(l: Seq<Option<Seq<u8>>>, rest: Seq<u8>)
    requires
        forall|i: int| #![auto] 0 <= i < l.len() ==> opt_blob_wf(l[i]),
    ensures
        sd_opt_blob_elems(se_opt_blob_elems(l) + rest, l.len()) == Some((l, rest)),
    decreases l.len(),
{
    if l.len() == 0 {
        assert(se_opt_blob_elems(l) + rest =~= rest);
        assert(Seq::<Option<Seq<u8>>>::empty() =~= l);
    } else {
        let hd = l[0];
        let tl = l.skip(1);
        assert(se_opt_blob_elems(l) + rest =~= se_opt_blob(hd) + (se_opt_blob_elems(tl) + rest));
        lemma_sd_opt_blob(hd, se_opt_blob_elems(tl) + rest);
        lemma_sd_opt_blob_elems(tl, rest);
        assert(seq![hd] + tl =~= l);
    }
}

pub proof fn lemma_sd_opt_blob_list(l: Seq<Option<Seq<u8>>>, rest: Seq<u8>)
    requires
        opt_blob_list_wf(l),
    ensures
        sd_opt_blob_list(se_opt_blob_list(l) + rest) == Some((l, rest)),
{
    assert(se_opt_blob_list(l) + rest =~= se_u64(l.len() as u64) + (se_opt_blob_elems(l) + rest));
    lemma_sd_u64(l.len() as u64, se_opt_blob_elems(l) + rest);
    lemma_sd_opt_blob_elems(l, rest);
}

fn enc_opt_blob_elems(out: &mut Vec<u8>, l: &Vec<Option<Vec<u8>>>, k: usize)
    requires
        k <= l@.len(),
    ensures
        final(out)@ == old(out)@ + se_opt_blob_elems(l.deep_view().skip(k as int)),
    decreases l@.len() - k,
{
    let ghost dv = l.deep_view();
    if k < l.len() {
        enc_opt_blob(out, &l[k]);
        enc_opt_blob_elems(out, l, k + 1);
        proof {
            assert(dv.skip(k as int)[0] == dv[k as int]);
            assert(dv.skip(k as int).skip(1) =~= dv.skip(k as int + 1));
            assert(out@ =~= old(out)@ + se_opt_blob_elems(dv.skip(k as int)));
        }
    } else {
        proof {
            assert(dv.skip(k as int) =~= Seq::<Option<Seq<u8>>>::empty());
            assert(out@ =~= old(out)@ + se_opt_blob_elems(dv.skip(k as int)));
        }
    }
}

pub fn enc_opt_blob_list(out: &mut Vec<u8>, l: &Vec<Option<Vec<u8>>>)
    ensures
        final(out)@ == old(out)@ + se_opt_blob_list(l.deep_view()),
{
    let llen = l.len();
    enc_u64(out, llen as u64);
    enc_opt_blob_elems(out, l, 0);
    proof {
        assert(l.deep_view().skip(0) =~= l.deep_view());
        assert(out@ =~= old(out)@ + se_opt_blob_list(l.deep_view()));
    }
}

fn dec_opt_blob_elems(b: &Vec<u8>, i: usize, n: u64) -> (r: Option<(Vec<Option<Vec<u8>>>, usize)>)
    requires
        i <= b@.len(),
    ensures
        dec_ok_deep(b@, i as int, r, sd_opt_blob_elems(b@.skip(i as int), n as nat)),
    decreases n,
{
    if n == 0 {
        let v: Vec<Option<Vec<u8>>> = Vec::new();
        proof {
            assert(v.deep_view() =~= Seq::<Option<Seq<u8>>>::empty());
        }
        Some((v, i))
    } else {
        match dec_opt_blob(b, i) {
            Some((x, j)) => match dec_opt_blob_elems(b, j, n - 1) {
                Some((mut vs, j2)) => {
                    let ghost vs0 = vs.deep_view();
                    let ghost xd = x.deep_view();
                    vs.insert(0, x);
                    proof {
                        assert(vs.deep_view() =~= seq![xd] + vs0);
                    }
                    Some((vs, j2))
                },
                None => None,
            },
            None => None,
        }
    }
}

pub fn dec_opt_blob_list(b: &Vec<u8>, i: usize) -> (r: Option<(Vec<Option<Vec<u8>>>, usize)>)
    requires
        i <= b@.len(),
    ensures
        dec_ok_deep(b@, i as int, r, sd_opt_blob_list(b@.skip(i as int))),
{
    match dec_u64(b, i) {
        Some((n, j)) => dec_opt_blob_elems(b, j, n),
        None => None,
    }
}

// ---------------------------------------------------------------------------
// Computed batch
// ---------------------------------------------------------------------------

pub open spec fn se_computed_batch(cb: ComputedBatchM) -> Seq<u8> {
    se_blob_list(cb.outputs) + se_insert_list(cb.storage_inserts) + cb.new_state_root + se_tag_list(
        cb.tags,
    ) + cb.rak_sig
}

pub open spec fn sd_computed_batch(s: Seq<u8>) -> Option<(ComputedBatchM, Seq<u8>)> {
    match sd_blob_list(s) {
        Some((outs, r1)) => match sd_insert_list(r1) {
            Some((ins, r2)) => match sd_fixed(r2, 32) {
                Some((root, r3)) => match sd_tag_list(r3) {
                    Some((tags, r4)) => match sd_fixed(r4, 64) {
                        Some((sig, r5)) => Some(
                            (
                                ComputedBatchM {
                                    outputs: outs,
                                    storage_inserts: ins,
                                    new_state_root: root,
                                    tags: tags,
                                    rak_sig: sig,
                                },
                                r5,
                            ),
                        ),
                        None => None,
                    },
                    None => None,
                },
                None => None,
            },
            None => None,
        },
        None => None,
    }
}

pub proof fn lemma_sd_computed_batch(cb: ComputedBatchM, rest: Seq<u8>)
    requires
        cb.wf(),
    ensures
        sd_computed_batch(se_computed_batch(cb) + rest) == Some((cb, rest)),
{
    let r4 = cb.rak_sig + rest;
    let r3 = se_tag_list(cb.tags) + r4;
    let r2 = cb.new_state_root + r3;
    let r1 = se_insert_list(cb.storage_inserts) + r2;
    assert(se_computed_batch(cb) + rest =~= se_blob_list(cb.outputs) + r1);
    lemma_sd_blob_list(cb.outputs, r1);
    lemma_sd_insert_list(cb.storage_inserts, r2);
    lemma_sd_fixed(cb.new_state_root, r3, 32);
    lemma_sd_tag_list(cb.tags, r4);
    lemma_sd_fixed(cb.rak_sig, rest, 64);
}

pub fn enc_computed_batch(out: &mut Vec<u8>, cb: &ComputedBatch)
    ensures
        final(out)@ == old(out)@ + se_computed_batch(cb@),
{
    enc_blob_list(out, &cb.outputs.outputs);
    enc_insert_list(out, &cb.storage_inserts);
    enc_fixed(out, &cb.new_state_root.bytes);
    enc_tag_list(out, &cb.tags);
    enc_fixed(out, &cb.rak_sig.bytes);
    proof {
        assert(out@ =~= old(out)@ + se_computed_batch(cb@));
    }
}

pub fn dec_computed_batch(b: &Vec<u8>, i: usize) -> (r: Option<(ComputedBatch, usize)>)
    requires
        i <= b@.len(),
    ensures
        dec_ok_view(b@, i as int, r, sd_computed_batch(b@.skip(i as int))),
{
    match dec_blob_list(b, i) {
        Some((outs, j1)) => match dec_insert_list(b, j1) {
            Some((ins, j2)) => match dec_fixed(b, j2, 32) {
                Some((root, j3)) => match dec_tag_list(b, j3) {
                    Some((tags, j4)) => match dec_fixed(b, j4, 64) {
                        Some((sig, j5)) => Some(
                            (
                                ComputedBatch {
                                    outputs: OutputBatch { outputs: outs },
                                    storage_inserts: ins,
                                    new_state_root: crate::types::Hash { bytes: root },
                                    tags: tags,
                                    rak_sig: Signature { bytes: sig },
                                },
                                j5,
                            ),
                        ),
                        None => None,
                    },
                    None => None,
                },
                None => None,
            },
            None => None,
        },
        None => None,
    }
}

// ---------------------------------------------------------------------------
// Message type: a single-byte enumeration; 0 is never a valid wire value
// ---------------------------------------------------------------------------

pub open spec fn mt_byte(mt: MessageType) -> u8 {
    match mt {
        MessageType::Invalid => 0,
        MessageType::Request => 1,
        MessageType::Response => 2,
    }
}

pub open spec fn se_message_type(mt: MessageType) -> Seq<u8> {
    seq![mt_byte(mt)]
}

pub open spec fn sd_message_type(s: Seq<u8>) -> Option<(MessageType, Seq<u8>)> {
    match sd_u8(s) {
        Some((m, r)) => if m == 1 {
            Some((MessageType::Request, r))
        } else if m == 2 {
            Some((MessageType::Response, r))
        } else {
            None
        },
        None => None,
    }
}

pub proof fn lemma_sd_message_type(mt: MessageType, rest: Seq<u8>)
    requires
        !(mt is Invalid),
    ensures
        sd_message_type(se_message_type(mt) + rest) == Some((mt, rest)),
{
    lemma_sd_u8(mt_byte(mt), rest);
}

pub fn enc_message_type(out: &mut Vec<u8>, mt: MessageType)
    requires
        !(mt is Invalid),
    ensures
        final(out)@ == old(out)@ + se_message_type(mt),
{
    match mt {
        MessageType::Invalid => {
            vstd::pervasive::unreached::<()>();
        },
        MessageType::Request => {
            enc_u8(out, 1);
        },
        MessageType::Response => {
            enc_u8(out, 2);
        },
    }
}

pub fn dec_message_type(b: &Vec<u8>, i: usize) -> (r: Option<(MessageType, usize)>)
    requires
        i <= b@.len(),
    ensures
        dec_ok(b@, i as int, r, sd_message_type(b@.skip(i as int))),
{
    match dec_u8(b, i) {
        Some((m, j)) => if m == 1 {
            Some((MessageType::Request, j))
        } else if m == 2 {
            Some((MessageType::Response, j))
        } else {
            None
        },
        None => None,
    }
}

// ---------------------------------------------------------------------------
// Body: a one-byte discriminant, then the operation's fields
// ---------------------------------------------------------------------------

pub open spec fn se_body(bd: BodyM) -> Seq<u8> {
    match bd {
        BodyM::Empty => se_u8(0),
        BodyM::Error { message } => se_u8(1) + se_bytes(message),
        BodyM::WorkerPingRequest => se_u8(2),
        BodyM::WorkerShutdownRequest => se_u8(3),
        BodyM::WorkerAbortRequest => se_u8(4),
        BodyM::WorkerAbortResponse => se_u8(5),
        BodyM::WorkerCapabilityTEERakReportRequest { target_info } => se_u8(6) + se_bytes(
            target_info,
        ),
        BodyM::WorkerCapabilityTEERakReportResponse { rak_pub, report, nonce } => se_u8(7)
            + rak_pub + se_bytes(report) + se_bytes(nonce),
        BodyM::WorkerCapabilityTEERakAvrRequest { avr } => se_u8(8) + se_bytes(avr),
        BodyM::WorkerCapabilityTEERakAvrResponse => se_u8(9),
        BodyM::WorkerRPCCallRequest { request, state_root } => se_u8(10) + se_bytes(request)
            + state_root,
        BodyM::WorkerRPCCallResponse { response, storage_inserts, new_state_root } => se_u8(11)
            + se_bytes(response) + se_insert_list(storage_inserts) + new_state_root,
        BodyM::WorkerRuntimeCallBatchRequest { calls, block } => se_u8(12) + se_blob_list(calls)
            + se_block(block),
        BodyM::WorkerRuntimeCallBatchResponse { batch } => se_u8(13) + se_computed_batch(batch),
        BodyM::HostRPCCallRequest { endpoint, request } => se_u8(14) + se_bytes(endpoint)
            + se_bytes(request),
        BodyM::HostRPCCallResponse { response } => se_u8(15) + se_bytes(response),
        BodyM::HostStorageGetRequest { key } => se_u8(16) + key,
        BodyM::HostStorageGetResponse { value } => se_u8(17) + se_bytes(value),
        BodyM::HostStorageGetBatchRequest { keys } => se_u8(18) + se_hash_list(keys),
        BodyM::HostStorageGetBatchResponse { values } => se_u8(19) + se_opt_blob_list(values),
        BodyM::HostLocalStorageGetRequest { key } => se_u8(20) + se_bytes(key),
        BodyM::HostLocalStorageGetResponse { value } => se_u8(21) + se_bytes(value),
        BodyM::HostLocalStorageSetRequest { key, value } => se_u8(22) + se_bytes(key) + se_bytes(
            value,
        ),
        BodyM::HostLocalStorageSetResponse => se_u8(23),
    }
}

pub open spec fn sd_body(s: Seq<u8>) -> Option<(BodyM, Seq<u8>)> {
    match sd_u8(s) {
        None => None,
        Some((d, r)) => if d == 0 {
            Some((BodyM::Empty, r))
        } else if d == 1 {
            match sd_bytes(r) {
                Some((message, r1)) => Some((BodyM::Error { message }, r1)),
                None => None,
            }
        } else if d == 2 {
            Some((BodyM::WorkerPingRequest, r))
        } else if d == 3 {
            Some((BodyM::WorkerShutdownRequest, r))
        } else if d == 4 {
            Some((BodyM::WorkerAbortRequest, r))
        } else if d == 5 {
            Some((BodyM::WorkerAbortResponse, r))
        } else if d == 6 {
            match sd_bytes(r) {
                Some((target_info, r1)) => Some(
                    (BodyM::WorkerCapabilityTEERakReportRequest { target_info }, r1),
                ),
                None => None,
            }
        } else if d == 7 {
            match sd_fixed(r, 32) {
                Some((rak_pub, r1)) => match sd_bytes(r1) {
                    Some((report, r2)) => match sd_bytes(r2) {
                        Some((nonce, r3)) => Some(
                            (
                                BodyM::WorkerCapabilityTEERakReportResponse {
                                    rak_pub,
                                    report,
                                    nonce,
                                },
                                r3,
                            ),
                        ),
                        None => None,
                    },
                    None => None,
                },
                None => None,
            }
        } else if d == 8 {
            match sd_bytes(r) {
                Some((avr, r1)) => Some((BodyM::WorkerCapabilityTEERakAvrRequest { avr }, r1)),
                None => None,
            }
        } else if d == 9 {
            Some((BodyM::WorkerCapabilityTEERakAvrResponse, r))
        } else if d == 10 {
            match sd_bytes(r) {
                Some((request, r1)) => match sd_fixed(r1, 32) {
                    Some((state_root, r2)) => Some(
                        (BodyM::WorkerRPCCallRequest { request, state_root }, r2),
                    ),
                    None => None,
                },
                None => None,
            }
        } else if d == 11 {
            match sd_bytes(r) {
                Some((response, r1)) => match sd_insert_list(r1) {
                    Some((storage_inserts, r2)) => match sd_fixed(r2, 32) {
                        Some((new_state_root, r3)) => Some(
                            (
                                BodyM::WorkerRPCCallResponse {
                                    response,
                                    storage_inserts,
                                    new_state_root,
                                },
                                r3,
                            ),
                        ),
                        None => None,
                    },
                    None => None,
                },
                None => None,
            }
        } else if d == 12 {
            match sd_blob_list(r) {
                Some((calls, r1)) => match sd_block(r1) {
                    Some((block, r2)) => Some(
                        (BodyM::WorkerRuntimeCallBatchRequest { calls, block }, r2),
                    ),
                    None => None,
                },
                None => None,
            }
        } else if d == 13 {
            match sd_computed_batch(r) {
                Some((batch, r1)) => Some((BodyM::WorkerRuntimeCallBatchResponse { batch }, r1)),
                None => None,
            }
        } else if d == 14 {
            match sd_bytes(r) {
                Some((endpoint, r1)) => match sd_bytes(r1) {
                    Some((request, r2)) => Some((BodyM::HostRPCCallRequest { endpoint, request }, r2)),
                    None => None,
                },
                None => None,
            }
        } else if d == 15 {
            match sd_bytes(r) {
                Some((response, r1)) => Some((BodyM::HostRPCCallResponse { response }, r1)),
                None => None,
            }
        } else if d == 16 {
            match sd_fixed(r, 32) {
                Some((key, r1)) => Some((BodyM::HostStorageGetRequest { key }, r1)),
                None => None,
            }
        } else if d == 17 {
            match sd_bytes(r) {
                Some((value, r1)) => Some((BodyM::HostStorageGetResponse { value }, r1)),
                None => None,
            }
        } else if d == 18 {
            match sd_hash_list(r) {
                Some((keys, r1)) => Some((BodyM::HostStorageGetBatchRequest { keys }, r1)),
                None => None,
            }
        } else if d == 19 {
            match sd_opt_blob_list(r) {
                Some((values, r1)) => Some((BodyM::HostStorageGetBatchResponse { values }, r1)),
                None => None,
            }
        } else if d == 20 {
            match sd_bytes(r) {
                Some((key, r1)) => Some((BodyM::HostLocalStorageGetRequest { key }, r1)),
                None => None,
            }
        } else if d == 21 {
            match sd_bytes(r) {
                Some((value, r1)) => Some((BodyM::HostLocalStorageGetResponse { value }, r1)),
                None => None,
            }
        } else if d == 22 {
            match sd_bytes(r) {
                Some((key, r1)) => match sd_bytes(r1) {
                    Some((value, r2)) => Some((BodyM::HostLocalStorageSetRequest { key, value }, r2)),
                    None => None,
                },
                None => None,
            }
        } else if d == 23 {
            Some((BodyM::HostLocalStorageSetResponse, r))
        } else {
            None
        },
    }
}

/// The body variants without fields: their whole encoding is the
/// discriminant byte, and decoding peels it off.
#[verifier::rlimit(100)]
proof fn lemma_sd_body_nullary(bd: BodyM, rest: Seq<u8>)
    requires
        bd.wf(),
        se_body(bd) == se_u8(body_disc(bd)),
    ensures
        sd_body(se_body(bd) + rest) == Some((bd, rest)),
{
    lemma_sd_u8(body_disc(bd), rest);
}

/// The wire discriminant of each body variant.
pub open spec fn body_disc(bd: BodyM) -> u8 {
    match bd {
        BodyM::Empty => 0,
        BodyM::Error { .. } => 1,
        BodyM::WorkerPingRequest => 2,
        BodyM::WorkerShutdownRequest => 3,
        BodyM::WorkerAbortRequest => 4,
        BodyM::WorkerAbortResponse => 5,
        BodyM::WorkerCapabilityTEERakReportRequest { .. } => 6,
        BodyM::WorkerCapabilityTEERakReportResponse { .. } => 7,
        BodyM::WorkerCapabilityTEERakAvrRequest { .. } => 8,
        BodyM::WorkerCapabilityTEERakAvrResponse => 9,
        BodyM::WorkerRPCCallRequest { .. } => 10,
        BodyM::WorkerRPCCallResponse { .. } => 11,
        BodyM::WorkerRuntimeCallBatchRequest { .. } => 12,
        BodyM::WorkerRuntimeCallBatchResponse { .. } => 13,
        BodyM::HostRPCCallRequest { .. } => 14,
        BodyM::HostRPCCallResponse { .. } => 15,
        BodyM::HostStorageGetRequest { .. } => 16,
        BodyM::HostStorageGetResponse { .. } => 17,
        BodyM::HostStorageGetBatchRequest { .. } => 18,
        BodyM::HostStorageGetBatchResponse { .. } => 19,
        BodyM::HostLocalStorageGetRequest { .. } => 20,
        BodyM::HostLocalStorageGetResponse { .. } => 21,
        BodyM::HostLocalStorageSetRequest { .. } => 22,
        BodyM::HostLocalStorageSetResponse => 23,
    }
}

#[verifier::rlimit(100)]
proof fn lemma_sd_body_error(message: Seq<u8>, rest: Seq<u8>)
    requires
        blob_wf(message),
    ensures
        sd_body(se_body(BodyM::Error { message }) + rest) == Some((BodyM::Error { message }, rest)),
{
    let bd = BodyM::Error { message };
    let r0 = se_bytes(message) + rest;
    lemma_assoc2(se_u8(1), se_bytes(message), rest);
    assert(se_body(bd) + rest == se_u8(1) + r0);
    lemma_sd_u8(1, r0);
    lemma_sd_bytes(message, rest);
}

#[verifier::rlimit(100)]
proof fn lemma_sd_body_report_request(target_info: Seq<u8>, rest: Seq<u8>)
    requires
        blob_wf(target_info),
    ensures
        sd_body(se_body(BodyM::WorkerCapabilityTEERakReportRequest { target_info }) + rest)
            == Some((BodyM::WorkerCapabilityTEERakReportRequest { target_info }, rest)),
{
    let bd = BodyM::WorkerCapabilityTEERakReportRequest { target_info };
    let r0 = se_bytes(target_info) + rest;
    lemma_assoc2(se_u8(6), se_bytes(target_info), rest);
    assert(se_body(bd) + rest == se_u8(6) + r0);
    lemma_sd_u8(6, r0);
    lemma_sd_bytes(target_info, rest);
}

#[verifier::rlimit(100)]
proof fn lemma_sd_body_report_response(
    rak_pub: Seq<u8>,
    report: Seq<u8>,
    nonce: Seq<u8>,
    rest: Seq<u8>,
)
    requires
        public_key_wf(rak_pub),
        blob_wf(report),
        blob_wf(nonce),
    ensures
        sd_body(se_body(BodyM::WorkerCapabilityTEERakReportResponse { rak_pub, report, nonce })
            + rest) == Some(
            (BodyM::WorkerCapabilityTEERakReportResponse { rak_pub, report, nonce }, rest),
        ),
{
    let bd = BodyM::WorkerCapabilityTEERakReportResponse { rak_pub, report, nonce };
    let r2 = se_bytes(nonce) + rest;
    let r1 = se_bytes(report) + r2;
    let r0 = rak_pub + r1;
    lemma_assoc4(se_u8(7), rak_pub, se_bytes(report), se_bytes(nonce), rest);
    assert(se_body(bd) + rest == se_u8(7) + r0);
    lemma_sd_u8(7, r0);
    lemma_sd_fixed(rak_pub, r1, 32);
    lemma_sd_bytes(report, r2);
    lemma_sd_bytes(nonce, rest);
}

#[verifier::rlimit(100)]
proof fn lemma_sd_body_avr_request(avr: Seq<u8>, rest: Seq<u8>)
    requires
        blob_wf(avr),
    ensures
        sd_body(se_body(BodyM::WorkerCapabilityTEERakAvrRequest { avr }) + rest) == Some(
            (BodyM::WorkerCapabilityTEERakAvrRequest { avr }, rest),
        ),
{
    let bd = BodyM::WorkerCapabilityTEERakAvrRequest { avr };
    let r0 = se_bytes(avr) + rest;
    lemma_assoc2(se_u8(8), se_bytes(avr), rest);
    assert(se_body(bd) + rest == se_u8(8) + r0);
    lemma_sd_u8(8, r0);
    lemma_sd_bytes(avr, rest);
}

#[verifier::rlimit(100)]
proof fn lemma_sd_body_rpc_request(request: Seq<u8>, state_root: Seq<u8>, rest: Seq<u8>)
    requires
        blob_wf(request),
        hash_wf(state_root),
    ensures
        sd_body(se_body(BodyM::WorkerRPCCallRequest { request, state_root }) + rest) == Some(
            (BodyM::WorkerRPCCallRequest { request, state_root }, rest),
        ),
{
    let bd = BodyM::WorkerRPCCallRequest { request, state_root };
    let r1 = state_root + rest;
    let r0 = se_bytes(request) + r1;
    lemma_assoc3(se_u8(10), se_bytes(request), state_root, rest);
    assert(se_body(bd) + rest == se_u8(10) + r0);
    lemma_sd_u8(10, r0);
    lemma_sd_bytes(request, r1);
    lemma_sd_fixed(state_root, rest, 32);
}

#[verifier::rlimit(100)]
proof fn lemma_sd_body_rpc_response(
    response: Seq<u8>,
    storage_inserts: Seq<(Seq<u8>, u64)>,
    new_state_root: Seq<u8>,
    rest: Seq<u8>,
)
    requires
        blob_wf(response),
        insert_list_wf(storage_inserts),
        hash_wf(new_state_root),
    ensures
        sd_body(se_body(BodyM::WorkerRPCCallResponse {
            response,
            storage_inserts,
            new_state_root,
        }) + rest) == Some(
            (BodyM::WorkerRPCCallResponse { response, storage_inserts, new_state_root }, rest),
        ),
{
    let bd = BodyM::WorkerRPCCallResponse { response, storage_inserts, new_state_root };
    let r2 = new_state_root + rest;
    let r1 = se_insert_list(storage_inserts) + r2;
    let r0 = se_bytes(response) + r1;
    lemma_assoc4(se_u8(11), se_bytes(response), se_insert_list(storage_inserts), new_state_root, rest);
    assert(se_body(bd) + rest == se_u8(11) + r0);
    lemma_sd_u8(11, r0);
    lemma_sd_bytes(response, r1);
    lemma_sd_insert_list(storage_inserts, r2);
    lemma_sd_fixed(new_state_root, rest, 32);
}

#[verifier::rlimit(100)]
proof fn lemma_sd_body_batch_request(calls: Seq<Seq<u8>>, block: BlockM, rest: Seq<u8>)
    requires
        blob_list_wf(calls),
        block.wf(),
    ensures
        sd_body(se_body(BodyM::WorkerRuntimeCallBatchRequest { calls, block }) + rest) == Some(
            (BodyM::WorkerRuntimeCallBatchRequest { calls, block }, rest),
        ),
{
    let bd = BodyM::WorkerRuntimeCallBatchRequest { calls, block };
    let r1 = se_block(block) + rest;
    let r0 = se_blob_list(calls) + r1;
    lemma_assoc3(se_u8(12), se_blob_list(calls), se_block(block), rest);
    assert(se_body(bd) + rest == se_u8(12) + r0);
    lemma_sd_u8(12, r0);
    lemma_sd_blob_list(calls, r1);
    lemma_sd_block(block, rest);
}

#[verifier::rlimit(100)]
proof fn lemma_sd_body_batch_response(batch: ComputedBatchM, rest: Seq<u8>)
    requires
        batch.wf(),
    ensures
        sd_body(se_body(BodyM::WorkerRuntimeCallBatchResponse { batch }) + rest) == Some(
            (BodyM::WorkerRuntimeCallBatchResponse { batch }, rest),
        ),
{
    let bd = BodyM::WorkerRuntimeCallBatchResponse { batch };
    let r0 = se_computed_batch(batch) + rest;
    lemma_assoc2(se_u8(13), se_computed_batch(batch), rest);
    assert(se_body(bd) + rest == se_u8(13) + r0);
    lemma_sd_u8(13, r0);
    lemma_sd_computed_batch(batch, rest);
}

#[verifier::rlimit(100)]
proof fn lemma_sd_body_host_rpc_request(endpoint: Seq<u8>, request: Seq<u8>, rest: Seq<u8>)
    requires
        blob_wf(endpoint),
        blob_wf(request),
    ensures
        sd_body(se_body(BodyM::HostRPCCallRequest { endpoint, request }) + rest) == Some(
            (BodyM::HostRPCCallRequest { endpoint, request }, rest),
        ),
{
    let bd = BodyM::HostRPCCallRequest { endpoint, request };
    let r1 = se_bytes(request) + rest;
    let r0 = se_bytes(endpoint) + r1;
    lemma_assoc3(se_u8(14), se_bytes(endpoint), se_bytes(request), rest);
    assert(se_body(bd) + rest == se_u8(14) + r0);
    lemma_sd_u8(14, r0);
    lemma_sd_bytes(endpoint, r1);
    lemma_sd_bytes(request, rest);
}

#[verifier::rlimit(100)]
proof fn lemma_sd_body_host_rpc_response(response: Seq<u8>, rest: Seq<u8>)
    requires
        blob_wf(response),
    ensures
        sd_body(se_body(BodyM::HostRPCCallResponse { response }) + rest) == Some(
            (BodyM::HostRPCCallResponse { response }, rest),
        ),
{
    let bd = BodyM::HostRPCCallResponse { response };
    let r0 = se_bytes(response) + rest;
    lemma_assoc2(se_u8(15), se_bytes(response), rest);
    assert(se_body(bd) + rest == se_u8(15) + r0);
    lemma_sd_u8(15, r0);
    lemma_sd_bytes(response, rest);
}

#[verifier::rlimit(100)]
proof fn lemma_sd_body_get_request(key: Seq<u8>, rest: Seq<u8>)
    requires
        hash_wf(key),
    ensures
        sd_body(se_body(BodyM::HostStorageGetRequest { key }) + rest) == Some(
            (BodyM::HostStorageGetRequest { key }, rest),
        ),
{
    let bd = BodyM::HostStorageGetRequest { key };
    let r0 = key + rest;
    lemma_assoc2(se_u8(16), key, rest);
    assert(se_body(bd) + rest == se_u8(16) + r0);
    lemma_sd_u8(16, r0);
    lemma_sd_fixed(key, rest, 32);
}

#[verifier::rlimit(100)]
proof fn lemma_sd_body_get_response(value: Seq<u8>, rest: Seq<u8>)
    requires
        blob_wf(value),
    ensures
        sd_body(se_body(BodyM::HostStorageGetResponse { value }) + rest) == Some(
            (BodyM::HostStorageGetResponse { value }, rest),
        ),
{
    let bd = BodyM::HostStorageGetResponse { value };
    let r0 = se_bytes(value) + rest;
    lemma_assoc2(se_u8(17), se_bytes(value), rest);
    assert(se_body(bd) + rest == se_u8(17) + r0);
    lemma_sd_u8(17, r0);
    lemma_sd_bytes(value, rest);
}

#[verifier::rlimit(100)]
proof fn lemma_sd_body_get_batch_request(keys: Seq<Seq<u8>>, rest: Seq<u8>)
    requires
        hash_list_wf(keys),
    ensures
        sd_body(se_body(BodyM::HostStorageGetBatchRequest { keys }) + rest) == Some(
            (BodyM::HostStorageGetBatchRequest { keys }, rest),
        ),
{
    let bd = BodyM::HostStorageGetBatchRequest { keys };
    let r0 = se_hash_list(keys) + rest;
    lemma_assoc2(se_u8(18), se_hash_list(keys), rest);
    assert(se_body(bd) + rest == se_u8(18) + r0);
    lemma_sd_u8(18, r0);
    lemma_sd_hash_list(keys, rest);
}

#[verifier::rlimit(100)]
proof fn lemma_sd_body_get_batch_response(values: Seq<Option<Seq<u8>>>, rest: Seq<u8>)
    requires
        opt_blob_list_wf(values),
    ensures
        sd_body(se_body(BodyM::HostStorageGetBatchResponse { values }) + rest) == Some(
            (BodyM::HostStorageGetBatchResponse { values }, rest),
        ),
{
    let bd = BodyM::HostStorageGetBatchResponse { values };
    let r0 = se_opt_blob_list(values) + rest;
    lemma_assoc2(se_u8(19), se_opt_blob_list(values), rest);
    assert(se_body(bd) + rest == se_u8(19) + r0);
    lemma_sd_u8(19, r0);
    lemma_sd_opt_blob_list(values, rest);
}

#[verifier::rlimit(100)]
proof fn lemma_sd_body_local_get_request(key: Seq<u8>, rest: Seq<u8>)
    requires
        blob_wf(key),
    ensures
        sd_body(se_body(BodyM::HostLocalStorageGetRequest { key }) + rest) == Some(
            (BodyM::HostLocalStorageGetRequest { key }, rest),
        ),
{
    let bd = BodyM::HostLocalStorageGetRequest { key };
    let r0 = se_bytes(key) + rest;
    lemma_assoc2(se_u8(20), se_bytes(key), rest);
    assert(se_body(bd) + rest == se_u8(20) + r0);
    lemma_sd_u8(20, r0);
    lemma_sd_bytes(key, rest);
}

#[verifier::rlimit(100)]
proof fn lemma_sd_body_local_get_response(value: Seq<u8>, rest: Seq<u8>)
    requires
        blob_wf(value),
    ensures
        sd_body(se_body(BodyM::HostLocalStorageGetResponse { value }) + rest) == Some(
            (BodyM::HostLocalStorageGetResponse { value }, rest),
        ),
{
    let bd = BodyM::HostLocalStorageGetResponse { value };
    let r0 = se_bytes(value) + rest;
    lemma_assoc2(se_u8(21), se_bytes(value), rest);
    assert(se_body(bd) + rest == se_u8(21) + r0);
    lemma_sd_u8(21, r0);
    lemma_sd_bytes(value, rest);
}

#[verifier::rlimit(100)]
proof fn lemma_sd_body_local_set_request(key: Seq<u8>, value: Seq<u8>, rest: Seq<u8>)
    requires
        blob_wf(key),
        blob_wf(value),
    ensures
        sd_body(se_body(BodyM::HostLocalStorageSetRequest { key, value }) + rest) == Some(
            (BodyM::HostLocalStorageSetRequest { key, value }, rest),
        ),
{
    let bd = BodyM::HostLocalStorageSetRequest { key, value };
    let r1 = se_bytes(value) + rest;
    let r0 = se_bytes(key) + r1;
    lemma_assoc3(se_u8(22), se_bytes(key), se_bytes(value), rest);
    assert(se_body(bd) + rest == se_u8(22) + r0);
    lemma_sd_u8(22, r0);
    lemma_sd_bytes(key, r1);
    lemma_sd_bytes(value, rest);
}

pub proof fn lemma_sd_body(bd: BodyM, rest: Seq<u8>)
    requires
        bd.wf(),
    ensures
        sd_body(se_body(bd) + rest) == Some((bd, rest)),
{
    match bd {
        BodyM::Empty => {
            lemma_sd_body_nullary(bd, rest);
        },
        BodyM::Error { message } => {
            lemma_sd_body_error(message, rest);
        },
        BodyM::WorkerPingRequest => {
            lemma_sd_body_nullary(bd, rest);
        },
        BodyM::WorkerShutdownRequest => {
            lemma_sd_body_nullary(bd, rest);
        },
        BodyM::WorkerAbortRequest => {
            lemma_sd_body_nullary(bd, rest);
        },
        BodyM::WorkerAbortResponse => {
            lemma_sd_body_nullary(bd, rest);
        },
        BodyM::WorkerCapabilityTEERakReportRequest { target_info } => {
            lemma_sd_body_report_request(target_info, rest);
        },
        BodyM::WorkerCapabilityTEERakReportResponse { rak_pub, report, nonce } => {
            lemma_sd_body_report_response(rak_pub, report, nonce, rest);
        },
        BodyM::WorkerCapabilityTEERakAvrRequest { avr } => {
            lemma_sd_body_avr_request(avr, rest);
        },
        BodyM::WorkerCapabilityTEERakAvrResponse => {
            lemma_sd_body_nullary(bd, rest);
        },
        BodyM::WorkerRPCCallRequest { request, state_root } => {
            lemma_sd_body_rpc_request(request, state_root, rest);
        },
        BodyM::WorkerRPCCallResponse { response, storage_inserts, new_state_root } => {
            lemma_sd_body_rpc_response(response, storage_inserts, new_state_root, rest);
        },
        BodyM::WorkerRuntimeCallBatchRequest { calls, block } => {
            lemma_sd_body_batch_request(calls, block, rest);
        },
        BodyM::WorkerRuntimeCallBatchResponse { batch } => {
            lemma_sd_body_batch_response(batch, rest);
        },
        BodyM::HostRPCCallRequest { endpoint, request } => {
            lemma_sd_body_host_rpc_request(endpoint, request, rest);
        },
        BodyM::HostRPCCallResponse { response } => {
            lemma_sd_body_host_rpc_response(response, rest);
        },
        BodyM::HostStorageGetRequest { key } => {
            lemma_sd_body_get_request(key, rest);
        },
        BodyM::HostStorageGetResponse { value } => {
            lemma_sd_body_get_response(value, rest);
        },
        BodyM::HostStorageGetBatchRequest { keys } => {
            lemma_sd_body_get_batch_request(keys, rest);
        },
        BodyM::HostStorageGetBatchResponse { values } => {
            lemma_sd_body_get_batch_response(values, rest);
        },
        BodyM::HostLocalStorageGetRequest { key } => {
            lemma_sd_body_local_get_request(key, rest);
        },
        BodyM::HostLocalStorageGetResponse { value } => {
            lemma_sd_body_local_get_response(value, rest);
        },
        BodyM::HostLocalStorageSetRequest { key, value } => {
            lemma_sd_body_local_set_request(key, value, rest);
        },
        BodyM::HostLocalStorageSetResponse => {
            lemma_sd_body_nullary(bd, rest);
        },
    }
}

pub fn enc_body(out: &mut Vec<u8>, bd: &Body)
    ensures
        final(out)@ == old(out)@ + se_body(bd@),
{
    match bd {
        Body::Empty => {
            enc_u8(out, 0);
        },
        Body::Error { message } => {
            enc_u8(out, 1);
            enc_blob(out, message);
            proof {
                assert(out@ =~= old(out)@ + se_body(bd@));
            }
        },
        Body::WorkerPingRequest => {
            enc_u8(out, 2);
        },
        Body::WorkerShutdownRequest => {
            enc_u8(out, 3);
        },
        Body::WorkerAbortRequest => {
            enc_u8(out, 4);
        },
        Body::WorkerAbortResponse => {
            enc_u8(out, 5);
        },
        Body::WorkerCapabilityTEERakReportRequest { target_info } => {
            enc_u8(out, 6);
            enc_blob(out, target_info);
            proof {
                assert(out@ =~= old(out)@ + se_body(bd@));
            }
        },
        Body::WorkerCapabilityTEERakReportResponse { rak_pub, report, nonce } => {
            enc_u8(out, 7);
            enc_fixed(out, &rak_pub.bytes);
            enc_blob(out, report);
            enc_blob(out, nonce);
            proof {
                assert(out@ =~= old(out)@ + se_body(bd@));
            }
        },
        Body::WorkerCapabilityTEERakAvrRequest { avr } => {
            enc_u8(out, 8);
            enc_blob(out, &avr.data);
            proof {
                assert(out@ =~= old(out)@ + se_body(bd@));
            }
        },
        Body::WorkerCapabilityTEERakAvrResponse => {
            enc_u8(out, 9);
        },
        Body::WorkerRPCCallRequest { request, state_root } => {
            enc_u8(out, 10);
            enc_blob(out, request);
            enc_fixed(out, &state_root.bytes);
            proof {
                assert(out@ =~= old(out)@ + se_body(bd@));
            }
        },
        Body::WorkerRPCCallResponse { response, storage_inserts, new_state_root } => {
            enc_u8(out, 11);
            enc_blob(out, response);
            enc_insert_list(out, storage_inserts);
            enc_fixed(out, &new_state_root.bytes);
            proof {
                assert(out@ =~= old(out)@ + se_body(bd@));
            }
        },
        Body::WorkerRuntimeCallBatchRequest { calls, block } => {
            enc_u8(out, 12);
            enc_blob_list(out, &calls.calls);
            enc_block(out, block);
            proof {
                assert(out@ =~= old(out)@ + se_body(bd@));
            }
        },
        Body::WorkerRuntimeCallBatchResponse { batch } => {
            enc_u8(out, 13);
            enc_computed_batch(out, batch);
            proof {
                assert(out@ =~= old(out)@ + se_body(bd@));
            }
        },
        Body::HostRPCCallRequest { endpoint, request } => {
            enc_u8(out, 14);
            enc_blob(out, endpoint);
            enc_blob(out, request);
            proof {
                assert(out@ =~= old(out)@ + se_body(bd@));
            }
        },
        Body::HostRPCCallResponse { response } => {
            enc_u8(out, 15);
            enc_blob(out, response);
            proof {
                assert(out@ =~= old(out)@ + se_body(bd@));
            }
        },
        Body::HostStorageGetRequest { key } => {
            enc_u8(out, 16);
            enc_fixed(out, &key.bytes);
            proof {
                assert(out@ =~= old(out)@ + se_body(bd@));
            }
        },
        Body::HostStorageGetResponse { value } => {
            enc_u8(out, 17);
            enc_blob(out, value);
            proof {
                assert(out@ =~= old(out)@ + se_body(bd@));
            }
        },
        Body::HostStorageGetBatchRequest { keys } => {
            enc_u8(out, 18);
            enc_hash_list(out, keys);
            proof {
                assert(out@ =~= old(out)@ + se_body(bd@));
            }
        },
        Body::HostStorageGetBatchResponse { values } => {
            enc_u8(out, 19);
            enc_opt_blob_list(out, values);
            proof {
                assert(out@ =~= old(out)@ + se_body(bd@));
            }
        },
        Body::HostLocalStorageGetRequest { key } => {
            enc_u8(out, 20);
            enc_blob(out, key);
            proof {
                assert(out@ =~= old(out)@ + se_body(bd@));
            }
        },
        Body::HostLocalStorageGetResponse { value } => {
            enc_u8(out, 21);
            enc_blob(out, value);
            proof {
                assert(out@ =~= old(out)@ + se_body(bd@));
            }
        },
        Body::HostLocalStorageSetRequest { key, value } => {
            enc_u8(out, 22);
            enc_blob(out, key);
            enc_blob(out, value);
            proof {
                assert(out@ =~= old(out)@ + se_body(bd@));
            }
        },
        Body::HostLocalStorageSetResponse => {
            enc_u8(out, 23);
        },
    }
}

#[verifier::rlimit(60)]
pub fn dec_body(b: &Vec<u8>, i: usize) -> (r: Option<(Body, usize)>)
    requires
        i <= b@.len(),
    ensures
        dec_ok_view(b@, i as int, r, sd_body(b@.skip(i as int))),
{
    match dec_u8(b, i) {
        None => None,
        Some((d, j)) => if d == 0 {
            Some((Body::Empty, j))
        } else if d == 1 {
            match dec_blob(b, j) {
                Some((message, j1)) => Some((Body::Error { message }, j1)),
                None => None,
            }
        } else if d == 2 {
            Some((Body::WorkerPingRequest, j))
        } else if d == 3 {
            Some((Body::WorkerShutdownRequest, j))
        } else if d == 4 {
            Some((Body::WorkerAbortRequest, j))
        } else if d == 5 {
            Some((Body::WorkerAbortResponse, j))
        } else if d == 6 {
            match dec_blob(b, j) {
                Some((target_info, j1)) => Some(
                    (Body::WorkerCapabilityTEERakReportRequest { target_info }, j1),
                ),
                None => None,
            }
        } else if d == 7 {
            match dec_fixed(b, j, 32) {
                Some((pk, j1)) => match dec_blob(b, j1) {
                    Some((report, j2)) => match dec_blob(b, j2) {
                        Some((nonce, j3)) => Some(
                            (
                                Body::WorkerCapabilityTEERakReportResponse {
                                    rak_pub: PublicKey { bytes: pk },
                                    report,
                                    nonce,
                                },
                                j3,
                            ),
                        ),
                        None => None,
                    },
                    None => None,
                },
                None => None,
            }
        } else if d == 8 {
            match dec_blob(b, j) {
                Some((data, j1)) => Some(
                    (Body::WorkerCapabilityTEERakAvrRequest { avr: Avr { data } }, j1),
                ),
                None => None,
            }
        } else if d == 9 {
            Some((Body::WorkerCapabilityTEERakAvrResponse, j))
        } else if d == 10 {
            match dec_blob(b, j) {
                Some((request, j1)) => match dec_fixed(b, j1, 32) {
                    Some((root, j2)) => Some(
                        (
                            Body::WorkerRPCCallRequest {
                                request,
                                state_root: crate::types::Hash { bytes: root },
                            },
                            j2,
                        ),
                    ),
                    None => None,
                },
                None => None,
            }
        } else if d == 11 {
            match dec_blob(b, j) {
                Some((response, j1)) => match dec_insert_list(b, j1) {
                    Some((storage_inserts, j2)) => match dec_fixed(b, j2, 32) {
                        Some((root, j3)) => Some(
                            (
                                Body::WorkerRPCCallResponse {
                                    response,
                                    storage_inserts,
                                    new_state_root: crate::types::Hash { bytes: root },
                                },
                                j3,
                            ),
                        ),
                        None => None,
                    },
                    None => None,
                },
                None => None,
            }
        } else if d == 12 {
            match dec_blob_list(b, j) {
                Some((calls, j1)) => match dec_block(b, j1) {
                    Some((block, j2)) => Some(
                        (
                            Body::WorkerRuntimeCallBatchRequest {
                                calls: CallBatch { calls },
                                block,
                            },
                            j2,
                        ),
                    ),
                    None => None,
                },
                None => None,
            }
        } else if d == 13 {
            match dec_computed_batch(b, j) {
                Some((batch, j1)) => Some((Body::WorkerRuntimeCallBatchResponse { batch }, j1)),
                None => None,
            }
        } else if d == 14 {
            match dec_blob(b, j) {
                Some((endpoint, j1)) => match dec_blob(b, j1) {
                    Some((request, j2)) => Some((Body::HostRPCCallRequest { endpoint, request }, j2)),
                    None => None,
                },
                None => None,
            }
        } else if d == 15 {
            match dec_blob(b, j) {
                Some((response, j1)) => Some((Body::HostRPCCallResponse { response }, j1)),
                None => None,
            }
        } else if d == 16 {
            match dec_fixed(b, j, 32) {
                Some((key, j1)) => Some(
                    (Body::HostStorageGetRequest { key: crate::types::Hash { bytes: key } }, j1),
                ),
                None => None,
            }
        } else if d == 17 {
            match dec_blob(b, j) {
                Some((value, j1)) => Some((Body::HostStorageGetResponse { value }, j1)),
                None => None,
            }
        } else if d == 18 {
            match dec_hash_list(b, j) {
                Some((keys, j1)) => Some((Body::HostStorageGetBatchRequest { keys }, j1)),
                None => None,
            }
        } else if d == 19 {
            match dec_opt_blob_list(b, j) {
                Some((values, j1)) => Some((Body::HostStorageGetBatchResponse { values }, j1)),
                None => None,
            }
        } else if d == 20 {
            match dec_blob(b, j) {
                Some((key, j1)) => Some((Body::HostLocalStorageGetRequest { key }, j1)),
                None => None,
            }
        } else if d == 21 {
            match dec_blob(b, j) {
                Some((value, j1)) => Some((Body::HostLocalStorageGetResponse { value }, j1)),
                None => None,
            }
        } else if d == 22 {
            match dec_blob(b, j) {
                Some((key, j1)) => match dec_blob(b, j1) {
                    Some((value, j2)) => Some((Body::HostLocalStorageSetRequest { key, value }, j2)),
                    None => None,
                },
                None => None,
            }
        } else if d == 23 {
            Some((Body::HostLocalStorageSetResponse, j))
        } else {
            None
        },
    }
}

// ---------------------------------------------------------------------------
// Message envelope
// ---------------------------------------------------------------------------

pub open spec fn se_message(m: MessageM) -> Seq<u8> {
    se_u64(m.id) + se_message_type(m.message_type) + se_body(m.body) + se_bytes(m.span_context)
}

pub open spec fn sd_message(s: Seq<u8>) -> Option<(MessageM, Seq<u8>)> {
    match sd_u64(s) {
        Some((id, r1)) => match sd_message_type(r1) {
            Some((mt, r2)) => match sd_body(r2) {
                Some((bd, r3)) => match sd_bytes(r3) {
                    Some((span, r4)) => Some(
                        (
                            MessageM {
                                id,
                                message_type: mt,
                                body: bd,
                                span_context: span,
                            },
                            r4,
                        ),
                    ),
                    None => None,
                },
                None => None,
            },
            None => None,
        },
        None => None,
    }
}

pub proof fn lemma_sd_message(m: MessageM, rest: Seq<u8>)
    requires
        m.wf(),
    ensures
        sd_message(se_message(m) + rest) == Some((m, rest)),
{
    let r3 = se_bytes(m.span_context) + rest;
    let r2 = se_body(m.body) + r3;
    let r1 = se_message_type(m.message_type) + r2;
    lemma_assoc4(se_u64(m.id), se_message_type(m.message_type), se_body(m.body), se_bytes(
        m.span_context,
    ), rest);
    assert(se_message(m) + rest == se_u64(m.id) + r1);
    lemma_sd_u64(m.id, r1);
    lemma_sd_message_type(m.message_type, r2);
    lemma_sd_body(m.body, r3);
    lemma_sd_bytes(m.span_context, rest);
}

pub fn enc_message(out: &mut Vec<u8>, m: &Message)
    requires
        m@.wf(),
    ensures
        final(out)@ == old(out)@ + se_message(m@),
{
    enc_u64(out, m.id);
    enc_message_type(out, m.message_type);
    enc_body(out, &m.body);
    enc_blob(out, &m.span_context);
    proof {
        assert(out@ =~= old(out)@ + se_message(m@));
    }
}

/// Encodes a well-formed message into its wire form.
pub fn encode_message(m: &Message) -> (r: Vec<u8>)
    requires
        m@.wf(),
    ensures
        r@ == se_message(m@),
{
    let mut out: Vec<u8> = Vec::new();
    enc_message(&mut out, m);
    proof {
        assert(out@ =~= se_message(m@));
    }
    out
}

/// Decodes one message from the front of `b`; returns the message and the
/// number of bytes consumed. Fails exactly where the specification decoder
/// fails: a short input, an unknown body discriminant, a message-type byte
/// other than 1 or 2, or a tag whose element count is not 3.
pub fn decode_message(b: &Vec<u8>) -> (r: Option<(Message, usize)>)
    ensures
        dec_ok_view(b@, 0, r, sd_message(b@)),
{
    proof {
        assert(b@.skip(0) =~= b@);
    }
    match dec_u64(b, 0) {
        Some((id, j1)) => match dec_message_type(b, j1) {
            Some((mt, j2)) => match dec_body(b, j2) {
                Some((bd, j3)) => match dec_blob(b, j3) {
                    Some((span, j4)) => Some(
                        (
                            Message {
                                id,
                                message_type: mt,
                                body: bd,
                                span_context: span,
                            },
                            j4,
                        ),
                    ),
                    None => None,
                },
                None => None,
            },
            None => None,
        },
        None => None,
    }
}

// ---------------------------------------------------------------------------
// Round-trip laws
// ---------------------------------------------------------------------------

/// For every well-formed body, decoding its encoding (followed by anything)
/// yields that body back and leaves exactly the rest, zero-length blobs and
/// empty lists included.
pub proof fn lemma_body_round_trip(bd: BodyM, rest: Seq<u8>)
    requires
        bd.wf(),
    ensures
        sd_body(se_body(bd) + rest) == Some((bd, rest)),
{
    lemma_sd_body(bd, rest);
}

/// For every well-formed message, decoding its encoding yields an equal
/// message and consumes the whole encoding.
pub proof fn lemma_message_round_trip(m: MessageM)
    requires
        m.wf(),
    ensures
        sd_message(se_message(m)) == Some((m, Seq::<u8>::empty())),
{
    lemma_sd_message(m, Seq::empty());
    assert(se_message(m) + Seq::<u8>::empty() =~= se_message(m));
}

/// For every well-formed tag, decoding its encoding yields that tag back; a
/// tag with index `-1` annotates the block, any other index the transaction
/// at that position.
pub proof fn lemma_tag_round_trip(t: TagM, rest: Seq<u8>)
    requires
        t.wf(),
    ensures
        sd_tag(se_tag(t) + rest) == Some((t, rest)),
{
    lemma_sd_tag(t, rest);
}

/// The wire form of a tag is always exactly three positional elements: its
/// encoding opens with the element count 3, and no input whose count is not 3
/// decodes as a tag.
pub proof fn lemma_tag_wire_shape(t: TagM, s: Seq<u8>)
    requires
        t.wf(),
    ensures
        se_tag(t).take(8) == se_u64(3),
        sd_tag(s) is Some ==> sd_u64(s) == Some((3u64, s.skip(8))),
{
    assert(se_tag(t).take(8) =~= se_u64(3));
}

/// The message-type codec: bytes 1 and 2 decode as `Request` and `Response`;
/// byte 0 and every byte at or above 3 fail; and the encoder never emits the
/// byte 0, since `Invalid` is refused at encode time.
pub proof fn lemma_message_type_codec()
    ensures
        sd_message_type(seq![1u8]) == Some((MessageType::Request, Seq::<u8>::empty())),
        sd_message_type(seq![2u8]) == Some((MessageType::Response, Seq::<u8>::empty())),
        forall|s: Seq<u8>| s.len() >= 1 && (s[0] == 0 || s[0] >= 3) ==> #[trigger] sd_message_type(
            s,
        ) is None,
        forall|mt: MessageType| !(mt is Invalid) ==> (#[trigger] se_message_type(mt))[0] != 0,
{
    assert(seq![1u8].skip(1) =~= Seq::<u8>::empty());
    assert(seq![2u8].skip(1) =~= Seq::<u8>::empty());
    assert forall|mt: MessageType| !(mt is Invalid) implies (#[trigger] se_message_type(mt))[0]
        != 0 by {
        assert(mt_byte(mt) == 1 || mt_byte(mt) == 2);
    }
}

} // verus!
