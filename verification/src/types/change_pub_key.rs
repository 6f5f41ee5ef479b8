use vstd::prelude::*;
use crate::field::goldilocks::{GoldilocksField, modulus};
use crate::field::quintic::{Fp5, fp5_bytes_view, fp5_bytes_canonical, le_word};
use crate::hash::poseidon2::{sponge_hash, elems_view};
use crate::types::constants::{
    TX_TYPE_L2_CHANGE_PUB_KEY, MIN_ACCOUNT_INDEX, MAX_ACCOUNT_INDEX, MIN_API_KEY_INDEX, MAX_API_KEY_INDEX, MIN_NONCE,
    MAX_TIMESTAMP,
};
use crate::types::errors::TxError;
use crate::types::interface::TxInfo;
use crate::types::attributes::{L2TxAttributes, attributes_validation, aggregate_bytes, fe, push_elem, finish_hash};

verus! {

/// The field elements hashed for a public key change: the header, then the
/// five coefficients of the new key.
pub open spec fn change_pub_key_tx_elements(tx: ChangePubKeyTx, chain_id: u32) -> Seq<nat> {
    seq![
        fe(chain_id as u64),
        fe(TX_TYPE_L2_CHANGE_PUB_KEY as u64),
        fe(tx.nonce as u64),
        fe(tx.expired_at as u64),
        fe(tx.account_index as u64),
        fe(tx.api_key_index as u64),
    ] + fp5_bytes_view(tx.pub_key@)
}

/// A public key change transaction.
pub struct ChangePubKeyTx {
    pub account_index: i64,
    pub api_key_index: u8,
    pub pub_key: Vec<u8>,
    pub expired_at: i64,
    pub nonce: i64,
    pub sig: Vec<u8>,
    pub signed_hash: String,
    pub attributes: L2TxAttributes,
}

impl TxInfo for ChangePubKeyTx {
    open spec fn tx_type_spec(&self) -> u8 {
        TX_TYPE_L2_CHANGE_PUB_KEY
    }

    open spec fn signed_hash_spec(&self) -> Seq<char> {
        self.signed_hash@
    }

    open spec fn validation(&self) -> Result<(), TxError> {
        if attributes_validation(self.attributes) is Err {
            attributes_validation(self.attributes)
        } else if self.account_index < MIN_ACCOUNT_INDEX {
            Err(TxError::AccountIndexTooLow)
        } else if self.account_index > MAX_ACCOUNT_INDEX {
            Err(TxError::AccountIndexTooHigh)
        } else if self.api_key_index < MIN_API_KEY_INDEX {
            Err(TxError::ApiKeyIndexTooLow)
        } else if self.api_key_index > MAX_API_KEY_INDEX {
            Err(TxError::ApiKeyIndexTooHigh)
        } else if self.nonce < MIN_NONCE {
            Err(TxError::NonceTooLow)
        } else if self.expired_at < 0 || self.expired_at > MAX_TIMESTAMP {
            Err(TxError::ExpiredAtInvalid)
        } else if self.pub_key@.len() != 40 {
            Err(TxError::PubKeyInvalid)
        } else {
            Ok(())
        }
    }

    open spec fn hash_result(&self, chain_id: u32) -> Result<Seq<u8>, TxError> {
        if self.pub_key@.len() == 40 && fp5_bytes_canonical(self.pub_key@) {
            Ok(aggregate_bytes(self.attributes, sponge_hash(change_pub_key_tx_elements(*self, chain_id), 5)))
        } else {
            Err(TxError::PubKeyInvalid)
        }
    }

    fn get_tx_type(&self) -> (r: u8) {
        TX_TYPE_L2_CHANGE_PUB_KEY
    }

    fn get_tx_hash(&self) -> (r: Option<&str>) {
        Some(self.signed_hash.as_str())
    }

    fn validate(&self) -> (r: Result<(), TxError>) {
        match self.attributes.validate() {
            Err(e) => {
                return Err(e);
            },
            Ok(_) => {},
        }
        if self.account_index < MIN_ACCOUNT_INDEX {
            return Err(TxError::AccountIndexTooLow);
        }
        if self.account_index > MAX_ACCOUNT_INDEX {
            return Err(TxError::AccountIndexTooHigh);
        }
        if self.api_key_index < MIN_API_KEY_INDEX {
            return Err(TxError::ApiKeyIndexTooLow);
        }
        if self.api_key_index > MAX_API_KEY_INDEX {
            return Err(TxError::ApiKeyIndexTooHigh);
        }
        if self.nonce < MIN_NONCE {
            return Err(TxError::NonceTooLow);
        }
        if self.expired_at < 0 || self.expired_at > MAX_TIMESTAMP {
            return Err(TxError::ExpiredAtInvalid);
        }
        if self.pub_key.len() != 40 {
            return Err(TxError::PubKeyInvalid);
        }
        Ok(())
    }

    fn hash(&self, chain_id: u32) -> (r: Result<Vec<u8>, TxError>)
        ensures
            r matches Ok(v) ==> v@ == aggregate_bytes(
                self.attributes,
                sponge_hash(
                    seq![
                        fe(chain_id as u64),
                        fe(TX_TYPE_L2_CHANGE_PUB_KEY as u64),
                        fe(self.nonce as u64),
                        fe(self.expired_at as u64),
                        fe(self.account_index as u64),
                        fe(self.api_key_index as u64),
                    ] + fp5_bytes_view(self.pub_key@),
                    5,
                ),
            ),
    {
        let pk_fp5 = match Fp5::from_bytes_le(self.pub_key.as_slice()) {
            Ok(f) => f,
            Err(_) => {
                return Err(TxError::PubKeyInvalid);
            },
        };
        proof {
            let b = self.pub_key@;
            vstd::arithmetic::div_mod::lemma_small_mod(le_word(b, 0) as nat, modulus());
            vstd::arithmetic::div_mod::lemma_small_mod(le_word(b, 1) as nat, modulus());
            vstd::arithmetic::div_mod::lemma_small_mod(le_word(b, 2) as nat, modulus());
            vstd::arithmetic::div_mod::lemma_small_mod(le_word(b, 3) as nat, modulus());
            vstd::arithmetic::div_mod::lemma_small_mod(le_word(b, 4) as nat, modulus());
            assert(pk_fp5@ =~= fp5_bytes_view(b));
        }
        let mut elems: Vec<GoldilocksField> = Vec::new();
        push_elem(&mut elems, chain_id as u64);
        push_elem(&mut elems, TX_TYPE_L2_CHANGE_PUB_KEY as u64);
        push_elem(&mut elems, self.nonce as u64);
        push_elem(&mut elems, self.expired_at as u64);
        push_elem(&mut elems, self.account_index as u64);
        push_elem(&mut elems, self.api_key_index as u64);
        push_elem(&mut elems, pk_fp5.0[0].0);
        push_elem(&mut elems, pk_fp5.0[1].0);
        push_elem(&mut elems, pk_fp5.0[2].0);
        push_elem(&mut elems, pk_fp5.0[3].0);
        push_elem(&mut elems, pk_fp5.0[4].0);
        assert(elems_view(elems@) =~= change_pub_key_tx_elements(*self, chain_id));
        finish_hash(&elems, &self.attributes)
    }
}

/// When a public key change is accepted: exactly when its attributes are valid and every
/// field lies in its range.
pub proof fn lemma_change_pub_key_accepted(tx: ChangePubKeyTx)
    ensures
        tx.validation() is Ok <==> {
            &&& attributes_validation(tx.attributes) is Ok
            &&& MIN_ACCOUNT_INDEX <= tx.account_index <= MAX_ACCOUNT_INDEX
            &&& MIN_API_KEY_INDEX <= tx.api_key_index <= MAX_API_KEY_INDEX
            &&& tx.nonce >= MIN_NONCE
            &&& 0 <= tx.expired_at <= MAX_TIMESTAMP
            &&& tx.pub_key@.len() == 40
        },
{
}

} // verus!
