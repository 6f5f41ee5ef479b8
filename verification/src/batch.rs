use vstd::prelude::*;
use crate::curve::scalar::{Scalar, group_order};
use crate::field::quintic::Fp5;
use crate::signature::schnorr::sign_hashed_message;
use crate::signer::key_manager::{is_signature_bytes, signature_bytes};

verus! {

/// Signs each hashed message with `sk`, in order, each with a fresh nonce.
pub fn sign_each(hashed_msgs: &[Fp5], sk: &Scalar) -> (r: Vec<[u8; 80]>)
    requires
        sk@ < group_order(),
    ensures
        r@.len() == hashed_msgs@.len(),
        forall|i: int| 0 <= i < hashed_msgs@.len() ==> is_signature_bytes(#[trigger] r@[i]@, hashed_msgs@[i]@, sk@),
{
    let mut out: Vec<[u8; 80]> = Vec::new();
    for i in 0..hashed_msgs.len()
        invariant
            sk@ < group_order(),
            out@.len() == i,
            forall|k: int| 0 <= k < i ==> is_signature_bytes(#[trigger] out@[k]@, hashed_msgs@[k]@, sk@),
    {
        let sig = sign_hashed_message(&hashed_msgs[i], sk);
        let b = sig.to_bytes();
        assert(b@ == signature_bytes(sig));
        out.push(b);
    }
    out
}

} // verus!
