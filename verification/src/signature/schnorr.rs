use vstd::prelude::*;
use vstd::arithmetic::div_mod::*;
use rand::RngCore;
use crate::field::goldilocks::{GoldilocksField, euler_square};
use crate::field::quintic::Fp5;
use crate::hash::poseidon2::{hash_to_quintic_extension, sponge_hash, elems_view};
use crate::curve::scalar::{
    Scalar, group_order, limbs_value, limbs_le_bytes, bytes_limbs, fp5_scalar_value, lemma_scalar_bytes_roundtrip, lemma_limbs_value_injective,
};
use crate::curve::point::{Point, point_encode, comb_acc, decode_delta};
use crate::field::quintic::{canonical_sqrt_outcome, canonical_root, fp5_sqrt_g};
use crate::curve::weierstrass::{
    WeierstrassPoint, mul_add2, mul_add2_acc, ws_generator, ws_encode, ws_decode_with,
};

verus! {

/// The challenge of a Schnorr signature: the hash of (r, message) read as a
/// scalar.
pub open spec fn challenge(r: Seq<nat>, msg: Seq<nat>) -> int {
    fp5_scalar_value(sponge_hash(r + msg, 5))
}

/// The commitment k G of a nonce with limbs `k`, encoded.
pub open spec fn commitment(k: Seq<u64>) -> Seq<nat> {
    point_encode(comb_acc(k, 40))
}

/// The response s = k - e sk mod n.
pub open spec fn response(k: int, e: int, sk: int) -> int {
    (k - e * sk) % group_order()
}

/// `sig` is a signature of `msg` under the secret `sk` for some nonce below n.
pub open spec fn signed_with(sig: Signature, msg: Seq<nat>, sk: int) -> bool {
    exists|k: Scalar|
        k@ < group_order() && sig.e@ == challenge(commitment(k.0@), msg) && sig.s@ == response(k@, sig.e@, sk)
}

/// The outcome of verification given the outcome (root, c) of the square
/// root taken when decoding the public key.
pub open spec fn verify_with(pk: Seq<nat>, msg: Seq<nat>, sig: Signature, root: Seq<nat>, c: bool) -> bool {
    let (pk_ws, ok) = ws_decode_with(pk, root, c);
    &&& sig.s@ < group_order()
    &&& sig.e@ < group_order()
    &&& ok
    &&& fp5_scalar_value(sponge_hash(ws_encode(mul_add2_acc(ws_generator(), pk_ws, sig.s.0@, sig.e.0@, 79)) + msg, 5))
        == sig.e@
}

/// Fills 64 bytes from `rand::thread_rng()` through `RngCore::fill_bytes`.
/// The bytes are random: nothing is stated of them.
#[verifier::external_body]
pub(crate) fn random_bytes_64() -> (r: [u8; 64]) {
    let mut bytes = [0u8; 64];
    rand::thread_rng().fill_bytes(&mut bytes);
    bytes
}

/// The scalar that 64 random bytes give: the first 40, read little-endian
/// and reduced mod n.
pub fn scalar_from_random_bytes(bytes: &[u8; 64]) -> (k: Scalar)
    ensures
        k@ == limbs_value(bytes_limbs(bytes@.subrange(0, 40))) % group_order(),
        k@ < group_order(),
{
    let mut arr = [0u8; 40];
    for i in 0..40
        invariant
            forall|j: int| 0 <= j < i ==> #[trigger] arr@[j] == bytes@[j],
    {
        arr[i] = bytes[i];
    }
    assert(arr@ =~= bytes@.subrange(0, 40));
    let k = Scalar::from_bytes_le(&arr);
    proof {
        lemma_mod_bound(limbs_value(bytes_limbs(arr@)), group_order());
    }
    k
}

/// A fresh nonce: the first 40 of 64 random bytes, reduced mod n.
fn pop_nonce() -> (k: Scalar)
    ensures
        exists|b: Seq<u8>| b.len() == 64 && k@ == limbs_value(bytes_limbs(b.subrange(0, 40))) % group_order(),
        k@ < group_order(),
{
    let bytes = random_bytes_64();
    scalar_from_random_bytes(&bytes)
}

/// A Schnorr signature over ECgFp5: 40 bytes of s, then 40 bytes of e.
#[derive(Debug, Clone, Copy)]
pub struct Signature {
    pub s: Scalar,
    pub e: Scalar,
}

impl Signature {
    pub const BYTE_LEN: usize = 80;

    /// s then e, 40 little-endian bytes each.
    pub fn to_bytes(&self) -> (r: [u8; 80])
        ensures
            r@ == limbs_le_bytes(self.s.0@) + limbs_le_bytes(self.e.0@),
    {
        let mut out = [0u8; 80];
        let sb = self.s.to_bytes_le();
        let eb = self.e.to_bytes_le();
        for i in 0..40
            invariant
                sb@ == limbs_le_bytes(self.s.0@),
                forall|k: int| 0 <= k < i ==> #[trigger] out@[k] == sb@[k],
        {
            out[i] = sb[i];
        }
        for i in 0..40
            invariant
                sb@ == limbs_le_bytes(self.s.0@),
                eb@ == limbs_le_bytes(self.e.0@),
                forall|k: int| 0 <= k < 40 ==> #[trigger] out@[k] == sb@[k],
                forall|k: int| 40 <= k < 40 + i ==> #[trigger] out@[k] == eb@[k - 40],
        {
            out[40 + i] = eb[i];
        }
        assert(out@ =~= limbs_le_bytes(self.s.0@) + limbs_le_bytes(self.e.0@));
        out
    }

    /// Parses 80 bytes as s then e, each reduced mod n.
    pub fn from_bytes(bytes: &[u8]) -> (r: Result<Self, &'static str>)
        ensures
            bytes@.len() != 80 <==> (r matches Err(e) && e@ == "signature must be 80 bytes"@),
            bytes@.len() == 80 ==> r is Ok,
            r matches Ok(sig) ==> sig.s@ == limbs_value(bytes_limbs(bytes@.subrange(0, 40))) % group_order()
                && sig.e@ == limbs_value(bytes_limbs(bytes@.subrange(40, 80))) % group_order() && (limbs_value(
                bytes_limbs(bytes@.subrange(0, 40)),
            ) < group_order() ==> sig.s.0@ == bytes_limbs(bytes@.subrange(0, 40))) && (limbs_value(
                bytes_limbs(bytes@.subrange(40, 80)),
            ) < group_order() ==> sig.e.0@ == bytes_limbs(bytes@.subrange(40, 80))),
    {
        if bytes.len() != 80 {
            return Err("signature must be 80 bytes");
        }
        let mut s_arr = [0u8; 40];
        let mut e_arr = [0u8; 40];
        for i in 0..40
            invariant
                bytes@.len() == 80,
                forall|k: int| 0 <= k < i ==> #[trigger] s_arr@[k] == bytes@[k],
                forall|k: int| 0 <= k < i ==> #[trigger] e_arr@[k] == bytes@[40 + k],
        {
            s_arr[i] = bytes[i];
            e_arr[i] = bytes[40 + i];
        }
        assert(s_arr@ =~= bytes@.subrange(0, 40));
        assert(e_arr@ =~= bytes@.subrange(40, 80));
        Ok(Self { s: Scalar::from_bytes_le(&s_arr), e: Scalar::from_bytes_le(&e_arr) })
    }

    /// Both halves are below n.
    pub fn is_canonical(&self) -> (r: bool)
        ensures
            r == (self.s@ < group_order() && self.e@ < group_order()),
    {
        self.s.is_canonical() && self.e.is_canonical()
    }
}

/// The public key sk G, encoded, computed with the comb table.
pub fn public_key_from_secret(sk: &Scalar) -> (r: Fp5)
    ensures
        r@ == commitment(sk.0@),
{
    Point::mul_generator(sk).encode()
}

/// The ten field elements r then msg.
fn concat_fp5(r: &Fp5, msg: &Fp5) -> (v: Vec<GoldilocksField>)
    ensures
        elems_view(v@) == r@ + msg@,
{
    let mut v: Vec<GoldilocksField> = Vec::new();
    for i in 0..5
        invariant
            v@.len() == i,
            forall|k: int| 0 <= k < i ==> #[trigger] v@[k]@ == r@[k],
    {
        v.push(r.0[i]);
    }
    for i in 0..5
        invariant
            v@.len() == 5 + i,
            forall|k: int| 0 <= k < 5 ==> #[trigger] v@[k]@ == r@[k],
            forall|k: int| 5 <= k < 5 + i ==> #[trigger] v@[k]@ == msg@[k - 5],
    {
        v.push(msg.0[i]);
    }
    assert(elems_view(v@) =~= r@ + msg@);
    v
}

/// Signs a hashed message with a fresh random nonce.
pub fn sign_hashed_message(hashed_msg: &Fp5, sk: &Scalar) -> (sig: Signature)
    requires
        sk@ < group_order(),
    ensures
        signed_with(sig, hashed_msg@, sk@),
{
    let k = pop_nonce();
    sign_with_nonce(hashed_msg, sk, &k)
}

/// Signs a hashed message with the given nonce k: e = H(kG, msg) and
/// s = k - e sk.
pub fn sign_with_nonce(hashed_msg: &Fp5, sk: &Scalar, k: &Scalar) -> (sig: Signature)
    requires
        sk@ < group_order(),
        k@ < group_order(),
    ensures
        sig.e@ == challenge(commitment(k.0@), hashed_msg@),
        sig.s@ == response(k@, sig.e@, sk@),
        sig.e@ == fp5_scalar_value(sponge_hash(point_encode(comb_acc(k.0@, 40)) + hashed_msg@, 5)),
        sig.s@ == (k@ - sig.e@ * sk@) % group_order(),
{
    let r = Point::mul_generator(k).encode();
    let preimage = concat_fp5(&r, hashed_msg);
    let e_fp5 = hash_to_quintic_extension(preimage.as_slice());
    let e = Scalar::from_fp5(&e_fp5);
    let s = k.sub(&e.mul(sk));
    proof {
        lemma_sub_mod_noop_right(k@, e@ * sk@, group_order());
    }
    Signature { s, e }
}

/// Verifies a signature over a hashed message: s G + e pk must hash back to e.
pub fn verify(pub_key: &Fp5, hashed_msg: &Fp5, sig: &Signature) -> (r: bool)
    ensures
        r == verify_with(
            pub_key@,
            hashed_msg@,
            *sig,
            canonical_root(decode_delta(pub_key@)),
            euler_square(fp5_sqrt_g(decode_delta(pub_key@))),
        ),
        exists|root: Seq<nat>, c: bool|
            canonical_sqrt_outcome(decode_delta(pub_key@), root, c) && r == verify_with(
                pub_key@,
                hashed_msg@,
                *sig,
                root,
                c,
            ),
{
    let (pk_ws, ok) = WeierstrassPoint::decode(pub_key);
    let ghost (root, c) = choose|root: Seq<nat>, c: bool|
        canonical_sqrt_outcome(decode_delta(pub_key@), root, c) && (pk_ws@, ok) == ws_decode_with(pub_key@, root, c);
    if !sig.is_canonical() {
        return false;
    }
    if !ok {
        return false;
    }
    let r_v = mul_add2(&WeierstrassPoint::generator(), &pk_ws, &sig.s, &sig.e).encode();
    let preimage = concat_fp5(&r_v, hashed_msg);
    let e_v_fp5 = hash_to_quintic_extension(preimage.as_slice());
    let e_v = Scalar::from_fp5(&e_v_fp5);
    let res = e_v == sig.e;
    proof {
        if e_v@ == sig.e@ {
            lemma_limbs_value_injective(e_v.0@, sig.e.0@);
        }
    }
    res
}

/// `to_bytes` then `from_bytes` gives back a canonical signature: its 80
/// bytes split into the limbs of s and of e.
pub proof fn lemma_signature_bytes_roundtrip(sig: Signature)
    requires
        sig.s@ < group_order(),
        sig.e@ < group_order(),
    ensures
        (limbs_le_bytes(sig.s.0@) + limbs_le_bytes(sig.e.0@)).len() == 80,
        bytes_limbs((limbs_le_bytes(sig.s.0@) + limbs_le_bytes(sig.e.0@)).subrange(0, 40)) == sig.s.0@,
        bytes_limbs((limbs_le_bytes(sig.s.0@) + limbs_le_bytes(sig.e.0@)).subrange(40, 80)) == sig.e.0@,
{
    lemma_scalar_bytes_roundtrip(sig.s.0@);
    lemma_scalar_bytes_roundtrip(sig.e.0@);
    let b = limbs_le_bytes(sig.s.0@) + limbs_le_bytes(sig.e.0@);
    assert(b.subrange(0, 40) =~= limbs_le_bytes(sig.s.0@));
    assert(b.subrange(40, 80) =~= limbs_le_bytes(sig.e.0@));
}

/// The response hides the nonce only up to the key: s + e sk = k mod n.
/// This is the scalar half of why a signature verifies; the other half, that
/// s G + e (sk G) is k G on the curve, is the group law.
pub proof fn lemma_response_recovers_nonce(k: int, e: int, sk: int)
    requires
        0 <= k < group_order(),
    ensures
        (response(k, e, sk) + e * sk) % group_order() == k,
{
    let n = group_order();
    lemma_add_mod_noop(k - e * sk, e * sk, n);
    lemma_mod_twice(k - e * sk, n);
    lemma_add_mod_noop(k - e * sk, e * sk, n);
    lemma_small_mod(k as nat, n as nat);
}

} // verus!
