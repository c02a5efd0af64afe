//! Host-side storage handlers: content-addressed lookup by digest, the
//! batched form that preserves request order with explicit not-found
//! entries, and the canonical state commitment over a list of inserts.

use vstd::prelude::*;

use crate::attest::digest_of;
use crate::codec::se_insert_list;
use crate::types::{hash_wf, Body};

verus! {

/// What a content-addressed lookup returns: the value of the first entry
/// whose key matches, or nothing.
pub open spec fn store_lookup(s: Seq<(Seq<u8>, Seq<u8>)>, key: Seq<u8>) -> Option<Seq<u8>>
    decreases s.len(),
{
    if s.len() == 0 {
        None
    } else if s[0].0 == key {
        Some(s[0].1)
    } else {
        store_lookup(s.skip(1), key)
    }
}

/// Byte-for-byte equality of two byte vectors.
pub fn bytes_eq(a: &Vec<u8>, b: &Vec<u8>) -> (r: bool)
    ensures
        r == (a@ == b@),
{
    if a.len() != b.len() {
        return false;
    }
    let n = a.len();
    let mut k: usize = 0;
    while k < n
        invariant
            n == a@.len() == b@.len(),
            k <= n,
            forall|i: int| 0 <= i < k ==> a@[i] == b@[i],
        decreases n - k,
    {
        if a[k] != b[k] {
            return false;
        }
        k = k + 1;
    }
    proof {
        assert(a@ =~= b@);
    }
    true
}

/// Read-only lookup by content digest: one key.
pub fn handle_storage_get(
    store: &Vec<(crate::types::Hash, Vec<u8>)>,
    key: &crate::types::Hash,
) -> (r: Option<Vec<u8>>)
    ensures
        match store_lookup(store.deep_view(), key@) {
            Some(v) => r matches Some(rv) && rv@ == v,
            None => r is None,
        },
{
    let n = store.len();
    let mut k: usize = 0;
    proof {
        assert(store.deep_view().skip(0) =~= store.deep_view());
    }
    while k < n
        invariant
            n == store@.len(),
            k <= n,
            store_lookup(store.deep_view(), key@) == store_lookup(
                store.deep_view().skip(k as int),
                key@,
            ),
        decreases n - k,
    {
        let ghost dv = store.deep_view();
        if bytes_eq(&store[k].0.bytes, &key.bytes) {
            let v = crate::codec::copy_bytes(&store[k].1);
            proof {
                assert(dv.skip(k as int)[0] == dv[k as int]);
            }
            return Some(v);
        }
        k = k + 1;
        proof {
            assert(dv.skip(k as int - 1)[0] == dv[k as int - 1]);
            assert(dv.skip(k as int - 1).skip(1) =~= dv.skip(k as int));
        }
    }
    proof {
        assert(store.deep_view().skip(n as int) =~= Seq::<(Seq<u8>, Seq<u8>)>::empty());
    }
    None
}

/// Read-only lookup by content digest, batched: the response has exactly one
/// entry per requested key, in request order, and a key absent from storage
/// yields an explicit not-found entry at its original position.
pub fn handle_storage_get_batch(
    store: &Vec<(crate::types::Hash, Vec<u8>)>,
    keys: &Vec<crate::types::Hash>,
) -> (r: Vec<Option<Vec<u8>>>)
    ensures
        r.deep_view().len() == keys.deep_view().len(),
        forall|i: int|
            0 <= i < keys.deep_view().len() ==> r.deep_view()[i] == store_lookup(
                store.deep_view(),
                #[trigger] keys.deep_view()[i],
            ),
{
    let n = keys.len();
    let mut out: Vec<Option<Vec<u8>>> = Vec::new();
    let mut k: usize = 0;
    while k < n
        invariant
            n == keys@.len(),
            k <= n,
            out.deep_view().len() == k,
            forall|i: int|
                0 <= i < k ==> out.deep_view()[i] == store_lookup(
                    store.deep_view(),
                    #[trigger] keys.deep_view()[i],
                ),
        decreases n - k,
    {
        let v = handle_storage_get(store, &keys[k]);
        let ghost outdv0 = out.deep_view();
        let ghost vd = v.deep_view();
        out.push(v);
        proof {
            assert(out.deep_view() =~= outdv0.push(vd));
            assert(keys.deep_view()[k as int] == keys@[k as int]@);
            match store_lookup(store.deep_view(), keys@[k as int]@) {
                Some(x) => {
                    assert(vd == Some(x));
                },
                None => {
                    assert(vd is None);
                },
            }
        }
        k = k + 1;
    }
    out
}

/// The batched lookup wrapped as its protocol response body.
pub fn storage_get_batch_response(
    store: &Vec<(crate::types::Hash, Vec<u8>)>,
    keys: &Vec<crate::types::Hash>,
) -> (r: Body)
    ensures
        r@ matches crate::types::BodyM::HostStorageGetBatchResponse { values } && {
            &&& values.len() == keys.deep_view().len()
            &&& forall|i: int|
                0 <= i < keys.deep_view().len() ==> values[i] == store_lookup(
                    store.deep_view(),
                    #[trigger] keys.deep_view()[i],
                )
        },
{
    let values = handle_storage_get_batch(store, keys);
    Body::HostStorageGetBatchResponse { values }
}

/// The canonical state commitment: the root after persisting an ordered list
/// of inserts is the digest of the previous root followed by the inserts in
/// their canonical encoding, so the new root differs from the old one by
/// exactly the listed deltas.
pub open spec fn state_root_after_spec(root: Seq<u8>, inserts: Seq<(Seq<u8>, u64)>) -> Seq<u8> {
    digest_of(root + se_insert_list(inserts))
}

pub fn state_root_after(
    root: &crate::types::Hash,
    inserts: &Vec<(Vec<u8>, u64)>,
) -> (r: crate::types::Hash)
    ensures
        r@ == state_root_after_spec(root@, inserts.deep_view()),
        hash_wf(r@),
{
    let mut buf: Vec<u8> = Vec::new();
    crate::codec::enc_fixed(&mut buf, &root.bytes);
    crate::codec::enc_insert_list(&mut buf, inserts);
    proof {
        assert(buf@ =~= root@ + se_insert_list(inserts.deep_view()));
    }
    crate::attest::digest(&buf)
}

} // verus!
