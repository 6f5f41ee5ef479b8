use vstd::prelude::*;
use crate::field::goldilocks::{GoldilocksField, modulus};
use crate::field::quintic::{Fp5, fp5_le_bytes};
use crate::hash::poseidon2::{hash_to_quintic_extension, sponge_hash, elems_view};
use crate::types::errors::TxError;
use crate::types::constants::{MAX_ACCOUNT_INDEX, FEE_TICK, NB_ATTRIBUTES_PER_TX, NIL_INTEGRATOR_INDEX};

verus! {

pub const ATTR_TYPE_INTEGRATOR_ACCOUNT_INDEX: u8 = 1;
pub const ATTR_TYPE_INTEGRATOR_TAKER_FEE: u8 = 2;
pub const ATTR_TYPE_INTEGRATOR_MAKER_FEE: u8 = 3;
pub const ATTR_TYPE_SKIP_TX_NONCE: u8 = 4;

/// The field element that a 64-bit word stands for.
pub open spec fn fe(x: u64) -> nat {
    x as nat % modulus()
}

/// The (type, value) pairs of the set attributes, in increasing type order.
pub open spec fn attribute_pairs(a: L2TxAttributes) -> Seq<nat> {
    (if a.account() != 0 {
        seq![1nat, fe(a.account() as u64)]
    } else {
        Seq::<nat>::empty()
    }) + (if a.taker_fee() != 0 {
        seq![2nat, fe(a.taker_fee() as u64)]
    } else {
        Seq::<nat>::empty()
    }) + (if a.maker_fee() != 0 {
        seq![3nat, fe(a.maker_fee() as u64)]
    } else {
        Seq::<nat>::empty()
    }) + (if a.skip_nonce() {
        seq![4nat, 1nat]
    } else {
        Seq::<nat>::empty()
    })
}

/// The attribute pairs padded with zeros to eight elements.
pub open spec fn attribute_elements(a: L2TxAttributes) -> Seq<nat> {
    attribute_pairs(a) + Seq::new((8 - attribute_pairs(a).len()) as nat, |i: int| 0nat)
}

/// The bytes that `hash_and_aggregate` gives for a transaction hash: the
/// hash itself without attributes, else the hash of it followed by the hash
/// of the attribute elements.
pub open spec fn aggregate_bytes(a: L2TxAttributes, tx_hash: Seq<nat>) -> Seq<u8> {
    if a.attribute_count() == 0 {
        fp5_le_bytes(tx_hash)
    } else {
        fp5_le_bytes(sponge_hash(tx_hash + sponge_hash(attribute_elements(a), 5), 5))
    }
}

/// The validation rule of the attributes: fees need an integrator.
pub open spec fn attributes_validation(a: L2TxAttributes) -> Result<(), TxError> {
    if a.attribute_count() == 0 {
        Ok(())
    } else if (a.taker_fee() != 0 || a.maker_fee() != 0) && a.account() == 0 {
        Err(TxError::IntegratorAccountIndexRequired)
    } else {
        Ok(())
    }
}

/// Up to four optional attributes attached to a transaction.
#[derive(Debug, Clone)]
pub struct L2TxAttributes {
    pub integrator_account_index: i64,
    pub integrator_taker_fee: u32,
    pub integrator_maker_fee: u32,
    pub skip_tx_nonce: bool,
    count: u8,
}

impl Default for L2TxAttributes {
    /// No attribute set.
    fn default() -> (r: Self)
        ensures
            r.account() == 0,
            r.taker_fee() == 0,
            r.maker_fee() == 0,
            !r.skip_nonce(),
            r.attribute_count() == 0,
    {
        Self::new()
    }
}

impl L2TxAttributes {
    /// How many attributes were set.
    pub closed spec fn attribute_count(self) -> nat {
        self.count as nat
    }

    /// The integrator account index.
    pub closed spec fn account(self) -> i64 {
        self.integrator_account_index
    }

    /// The integrator taker fee.
    pub closed spec fn taker_fee(self) -> u32 {
        self.integrator_taker_fee
    }

    /// The integrator maker fee.
    pub closed spec fn maker_fee(self) -> u32 {
        self.integrator_maker_fee
    }

    /// Whether the transaction skips its nonce.
    pub closed spec fn skip_nonce(self) -> bool {
        self.skip_tx_nonce
    }

    /// No attribute set.
    pub fn new() -> (r: Self)
        ensures
            r.account() == 0,
            r.taker_fee() == 0,
            r.maker_fee() == 0,
            !r.skip_nonce(),
            r.attribute_count() == 0,
    {
        Self {
            integrator_account_index: 0,
            integrator_taker_fee: 0,
            integrator_maker_fee: 0,
            skip_tx_nonce: false,
            count: 0,
        }
    }

    /// True when no attribute was set.
    pub fn is_empty(&self) -> (r: bool)
        ensures
            r == (self.attribute_count() == 0),
    {
        self.count == 0
    }

    /// Sets the integrator account index, which must lie in [0, MAX_ACCOUNT_INDEX].
    pub fn set_integrator_account_index(&mut self, idx: i64) -> (r: Result<(), TxError>)
        ensures
            !(0 <= idx <= MAX_ACCOUNT_INDEX) ==> r == Err::<(), TxError>(TxError::AttributeValueOutOfRange),
            0 <= idx <= MAX_ACCOUNT_INDEX && old(self).attribute_count() >= 4 ==> r == Err::<(), TxError>(
                TxError::TooManyAttributes,
            ),
            r is Err ==> *final(self) == *old(self),
            r is Ok <==> 0 <= idx <= MAX_ACCOUNT_INDEX && old(self).attribute_count() < 4,
            r is Ok ==> final(self).account() == idx && final(self).taker_fee() == old(self).taker_fee() && final(self).maker_fee() == old(self).maker_fee() && final(self).skip_nonce() == old(self).skip_nonce(),
            r is Ok ==> final(self).attribute_count() == old(self).attribute_count() + 1,
    {
        if !(0 <= idx && idx <= MAX_ACCOUNT_INDEX) {
            return Err(TxError::AttributeValueOutOfRange);
        }
        if self.count >= NB_ATTRIBUTES_PER_TX as u8 {
            return Err(TxError::TooManyAttributes);
        }
        self.integrator_account_index = idx;
        self.count += 1;
        Ok(())
    }

    /// Sets the integrator taker fee, at most FEE_TICK.
    pub fn set_integrator_taker_fee(&mut self, fee: u32) -> (r: Result<(), TxError>)
        ensures
            fee > FEE_TICK ==> r == Err::<(), TxError>(TxError::AttributeValueOutOfRange),
            fee <= FEE_TICK && old(self).attribute_count() >= 4 ==> r == Err::<(), TxError>(
                TxError::TooManyAttributes,
            ),
            r is Err ==> *final(self) == *old(self),
            r is Ok <==> fee <= FEE_TICK && old(self).attribute_count() < 4,
            r is Ok ==> final(self).taker_fee() == fee && final(self).account() == old(self).account() && final(self).maker_fee() == old(self).maker_fee() && final(self).skip_nonce() == old(self).skip_nonce(),
            r is Ok ==> final(self).attribute_count() == old(self).attribute_count() + 1,
    {
        if fee as i64 > FEE_TICK {
            return Err(TxError::AttributeValueOutOfRange);
        }
        if self.count >= NB_ATTRIBUTES_PER_TX as u8 {
            return Err(TxError::TooManyAttributes);
        }
        self.integrator_taker_fee = fee;
        self.count += 1;
        Ok(())
    }

    /// Sets the integrator maker fee, at most FEE_TICK.
    pub fn set_integrator_maker_fee(&mut self, fee: u32) -> (r: Result<(), TxError>)
        ensures
            fee > FEE_TICK ==> r == Err::<(), TxError>(TxError::AttributeValueOutOfRange),
            fee <= FEE_TICK && old(self).attribute_count() >= 4 ==> r == Err::<(), TxError>(
                TxError::TooManyAttributes,
            ),
            r is Err ==> *final(self) == *old(self),
            r is Ok <==> fee <= FEE_TICK && old(self).attribute_count() < 4,
            r is Ok ==> final(self).maker_fee() == fee && final(self).account() == old(self).account() && final(self).taker_fee() == old(self).taker_fee() && final(self).skip_nonce() == old(self).skip_nonce(),
            r is Ok ==> final(self).attribute_count() == old(self).attribute_count() + 1,
    {
        if fee as i64 > FEE_TICK {
            return Err(TxError::AttributeValueOutOfRange);
        }
        if self.count >= NB_ATTRIBUTES_PER_TX as u8 {
            return Err(TxError::TooManyAttributes);
        }
        self.integrator_maker_fee = fee;
        self.count += 1;
        Ok(())
    }

    /// Marks the transaction as not consuming a nonce.
    pub fn set_skip_tx_nonce(&mut self) -> (r: Result<(), TxError>)
        ensures
            old(self).attribute_count() >= 4 ==> r == Err::<(), TxError>(TxError::TooManyAttributes),
            r is Err ==> *final(self) == *old(self),
            r is Ok <==> old(self).attribute_count() < 4,
            r is Ok ==> final(self).skip_nonce() == true && final(self).account() == old(self).account() && final(self).taker_fee() == old(self).taker_fee() && final(self).maker_fee() == old(self).maker_fee(),
            r is Ok ==> final(self).attribute_count() == old(self).attribute_count() + 1,
    {
        if self.count >= NB_ATTRIBUTES_PER_TX as u8 {
            return Err(TxError::TooManyAttributes);
        }
        self.skip_tx_nonce = true;
        self.count += 1;
        Ok(())
    }

    /// Fees need an integrator account.
    pub fn validate(&self) -> (r: Result<(), TxError>)
        ensures
            r == attributes_validation(*self),
    {
        if self.is_empty() {
            return Ok(());
        }
        let has_fees = self.integrator_taker_fee != 0 || self.integrator_maker_fee != 0;
        if has_fees && self.integrator_account_index == NIL_INTEGRATOR_INDEX {
            return Err(TxError::IntegratorAccountIndexRequired);
        }
        Ok(())
    }

    /// Hashes the attributes and aggregates them with the transaction hash;
    /// without attributes, the transaction hash itself, as bytes.
    pub fn hash_and_aggregate(&self, tx_hash: &Fp5) -> (r: Result<Vec<u8>, TxError>)
        ensures
            r matches Ok(v) && v@ == aggregate_bytes(*self, tx_hash@),
    {
        if self.is_empty() {
            let b = tx_hash.to_bytes_le();
            let mut v: Vec<u8> = Vec::new();
            for i in 0..40
                invariant
                    v@ == b@.subrange(0, i as int),
                    b@.len() == 40,
            {
                v.push(b[i]);
                assert(v@ =~= b@.subrange(0, i + 1));
            }
            assert(b@.subrange(0, 40) =~= b@);
            return Ok(v);
        }
        let mut attrs: Vec<(u8, u64)> = Vec::new();
        if self.integrator_account_index != NIL_INTEGRATOR_INDEX {
            attrs.push((ATTR_TYPE_INTEGRATOR_ACCOUNT_INDEX, self.integrator_account_index as u64));
        }
        if self.integrator_taker_fee != 0 {
            attrs.push((ATTR_TYPE_INTEGRATOR_TAKER_FEE, self.integrator_taker_fee as u64));
        }
        if self.integrator_maker_fee != 0 {
            attrs.push((ATTR_TYPE_INTEGRATOR_MAKER_FEE, self.integrator_maker_fee as u64));
        }
        if self.skip_tx_nonce {
            attrs.push((ATTR_TYPE_SKIP_TX_NONCE, 1));
        }
        let ghost pairs = attribute_pairs(*self);
        proof {
            vstd::arithmetic::div_mod::lemma_small_mod(1, modulus());
            vstd::arithmetic::div_mod::lemma_small_mod(2, modulus());
            vstd::arithmetic::div_mod::lemma_small_mod(3, modulus());
            vstd::arithmetic::div_mod::lemma_small_mod(4, modulus());
            assert(attrs@.len() * 2 == pairs.len());
            assert forall|k: int| 0 <= k < attrs@.len() implies pairs[2 * k] == (#[trigger] attrs@[k]).0 as nat % modulus()
                && pairs[2 * k + 1] == fe(attrs@[k].1) by {
            }
        }
        let mut elems: Vec<GoldilocksField> = Vec::new();
        for i in 0..attrs.len()
            invariant
                attrs@.len() * 2 == pairs.len(),
                pairs.len() <= 8,
                forall|k: int| 0 <= k < attrs@.len() ==> pairs[2 * k] == (#[trigger] attrs@[k]).0 as nat % modulus()
                    && pairs[2 * k + 1] == fe(attrs@[k].1),
                elems@.len() == 2 * i,
                elems_view(elems@) == pairs.subrange(0, 2 * i),
        {
            let (typ, val) = attrs[i];
            let ghost before = elems@;
            assert(pairs[2 * i] == attrs@[i as int].0 as nat % modulus() && pairs[2 * i + 1] == fe(attrs@[i as int].1));
            elems.push(GoldilocksField(typ as u64));
            elems.push(GoldilocksField(val));
            assert(elems@ == before.push(GoldilocksField(typ as u64)).push(GoldilocksField(val)));
            assert forall|k: int| 0 <= k < 2 * i + 2 implies #[trigger] elems_view(elems@)[k] == pairs.subrange(0, 2 * i + 2)[k] by {
                if k < 2 * i {
                    assert(elems@[k] == before[k]);
                    assert(elems_view(before)[k] == pairs.subrange(0, 2 * i)[k]);
                }
            }
            assert(elems_view(elems@) =~= pairs.subrange(0, 2 * i + 2));
        }
        assert(pairs.subrange(0, pairs.len() as int) =~= pairs);
        while elems.len() < NB_ATTRIBUTES_PER_TX * 2
            invariant
                pairs.len() <= 8,
                pairs.len() <= elems@.len() <= 8,
                elems@.len() == elems_view(elems@).len(),
                elems_view(elems@) == pairs + Seq::new((elems@.len() - pairs.len()) as nat, |i: int| 0nat),
            decreases 8 - elems@.len(),
        {
            proof {
                vstd::arithmetic::div_mod::lemma_small_mod(0, modulus());
            }
            let ghost before = elems@;
            elems.push(GoldilocksField(0));
            let ghost target = pairs + Seq::new((elems@.len() - pairs.len()) as nat, |i: int| 0nat);
            assert forall|k: int| 0 <= k < elems@.len() implies #[trigger] elems_view(elems@)[k] == target[k] by {
                if k < before.len() {
                    assert(elems@[k] == before[k]);
                    assert(elems_view(before)[k] == (pairs + Seq::new((before.len() - pairs.len()) as nat, |i: int| 0nat))[k]);
                }
            }
            assert(elems_view(elems@) =~= target);
        }
        assert(elems_view(elems@) == attribute_elements(*self));
        let attr_hash = hash_to_quintic_extension(elems.as_slice());
        let combined = [
            tx_hash.0[0],
            tx_hash.0[1],
            tx_hash.0[2],
            tx_hash.0[3],
            tx_hash.0[4],
            attr_hash.0[0],
            attr_hash.0[1],
            attr_hash.0[2],
            attr_hash.0[3],
            attr_hash.0[4],
        ];
        assert(elems_view(combined@) =~= tx_hash@ + attr_hash@);
        let h = hash_to_quintic_extension(&combined);
        let b = h.to_bytes_le();
        let mut v: Vec<u8> = Vec::new();
        for i in 0..40
            invariant
                v@ == b@.subrange(0, i as int),
                b@.len() == 40,
        {
            v.push(b[i]);
            assert(v@ =~= b@.subrange(0, i + 1));
        }
        assert(b@.subrange(0, 40) =~= b@);
        Ok(v)
    }
}

/// Appends the field element of a 64-bit word.
pub(crate) fn push_elem(v: &mut Vec<GoldilocksField>, x: u64)
    ensures
        elems_view(final(v)@) == elems_view(old(v)@).push(fe(x)),
{
    let ghost before = v@;
    v.push(GoldilocksField(x));
    proof {
        assert(v@ == before.push(GoldilocksField(x)));
        assert forall|k: int| 0 <= k < v@.len() implies #[trigger] elems_view(v@)[k] == elems_view(before).push(fe(x))[k] by {
            if k < before.len() {
                assert(v@[k] == before[k]);
            }
        }
        assert(elems_view(v@) =~= elems_view(before).push(fe(x)));
    }
}

/// The transaction hash of the elements, then aggregated with the
/// attributes.
pub(crate) fn finish_hash(elems: &Vec<GoldilocksField>, attributes: &L2TxAttributes) -> (r: Result<Vec<u8>, TxError>)
    ensures
        r matches Ok(v) && v@ == aggregate_bytes(*attributes, sponge_hash(elems_view(elems@), 5)),
{
    let tx_hash = hash_to_quintic_extension(elems.as_slice());
    attributes.hash_and_aggregate(&tx_hash)
}

} // verus!
