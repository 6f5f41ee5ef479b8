use vstd::prelude::*;
use crate::field::goldilocks::GoldilocksField;
use crate::hash::poseidon2::{sponge_hash, elems_view};
use crate::types::constants::{TX_TYPE_L2_CREATE_PUBLIC_POOL, FEE_TICK, SHARE_TICK, MIN_ACCOUNT_INDEX, MAX_ACCOUNT_INDEX, MIN_API_KEY_INDEX, MAX_API_KEY_INDEX, MIN_NONCE, MAX_TIMESTAMP, MIN_INITIAL_TOTAL_SHARES, MAX_INITIAL_TOTAL_SHARES};
use crate::types::errors::TxError;
use crate::types::interface::TxInfo;
use crate::types::attributes::{L2TxAttributes, attributes_validation, aggregate_bytes, fe, push_elem, finish_hash};

verus! {

/// The field elements hashed for a public pool creation.
pub open spec fn create_public_pool_tx_elements(tx: CreatePublicPoolTx, chain_id: u32) -> Seq<nat> {
    seq![
        fe(chain_id as u64),
        fe(TX_TYPE_L2_CREATE_PUBLIC_POOL as u64),
        fe(tx.nonce as u64),
        fe(tx.expired_at as u64),
        fe(tx.account_index as u64),
        fe(tx.api_key_index as u64),
        fe(tx.operator_fee as u64),
        fe(tx.initial_shares as u64),
        fe(tx.min_operator_share_rate as u64),
    ]
}

/// A public pool creation transaction.
pub struct CreatePublicPoolTx {
    pub account_index: i64,
    pub api_key_index: u8,
    pub operator_fee: i64,
    pub initial_shares: i64,
    pub min_operator_share_rate: u16,
    pub expired_at: i64,
    pub nonce: i64,
    pub sig: Vec<u8>,
    pub signed_hash: String,
    pub attributes: L2TxAttributes,
}

impl TxInfo for CreatePublicPoolTx {
    open spec fn tx_type_spec(&self) -> u8 {
        TX_TYPE_L2_CREATE_PUBLIC_POOL
    }

    open spec fn signed_hash_spec(&self) -> Seq<char> {
        self.signed_hash@
    }

    open spec fn validation(&self) -> Result<(), TxError> {
        if attributes_validation(self.attributes) is Err {
            attributes_validation(self.attributes)
        } else if self.account_index < MIN_ACCOUNT_INDEX {
            Err(TxError::AccountIndexTooLow)
        } else if self.account_index > MAX_ACCOUNT_INDEX {
            Err(TxError::AccountIndexTooHigh)
        } else if self.api_key_index < MIN_API_KEY_INDEX {
            Err(TxError::ApiKeyIndexTooLow)
        } else if self.api_key_index > MAX_API_KEY_INDEX {
            Err(TxError::ApiKeyIndexTooHigh)
        } else if self.operator_fee <= 0 || self.operator_fee > FEE_TICK {
            Err(TxError::PoolOperatorFeeInvalid)
        } else if self.initial_shares < MIN_INITIAL_TOTAL_SHARES {
            Err(TxError::InitialSharesTooLow)
        } else if self.initial_shares > MAX_INITIAL_TOTAL_SHARES {
            Err(TxError::InitialSharesTooHigh)
        } else if self.min_operator_share_rate == 0 {
            Err(TxError::MinOperatorShareRateTooLow)
        } else if self.min_operator_share_rate > SHARE_TICK {
            Err(TxError::MinOperatorShareRateTooHigh)
        } else if self.nonce < MIN_NONCE {
            Err(TxError::NonceTooLow)
        } else if self.expired_at < 0 || self.expired_at > MAX_TIMESTAMP {
            Err(TxError::ExpiredAtInvalid)
        } else {
            Ok(())
        }
    }

    open spec fn hash_result(&self, chain_id: u32) -> Result<Seq<u8>, TxError> {
        Ok(aggregate_bytes(self.attributes, sponge_hash(create_public_pool_tx_elements(*self, chain_id), 5)))
    }

    fn get_tx_type(&self) -> (r: u8) {
        TX_TYPE_L2_CREATE_PUBLIC_POOL
    }

    fn get_tx_hash(&self) -> (r: Option<&str>) {
        Some(self.signed_hash.as_str())
    }

    fn validate(&self) -> (r: Result<(), TxError>) {
        match self.attributes.validate() {
            Err(e) => {
                return Err(e);
            },
            Ok(_) => {},
        }
        if self.account_index < MIN_ACCOUNT_INDEX {
            return Err(TxError::AccountIndexTooLow);
        }
        if self.account_index > MAX_ACCOUNT_INDEX {
            return Err(TxError::AccountIndexTooHigh);
        }
        if self.api_key_index < MIN_API_KEY_INDEX {
            return Err(TxError::ApiKeyIndexTooLow);
        }
        if self.api_key_index > MAX_API_KEY_INDEX {
            return Err(TxError::ApiKeyIndexTooHigh);
        }
        if self.operator_fee <= 0 || self.operator_fee > FEE_TICK {
            return Err(TxError::PoolOperatorFeeInvalid);
        }
        if self.initial_shares < MIN_INITIAL_TOTAL_SHARES {
            return Err(TxError::InitialSharesTooLow);
        }
        if self.initial_shares > MAX_INITIAL_TOTAL_SHARES {
            return Err(TxError::InitialSharesTooHigh);
        }
        if self.min_operator_share_rate == 0 {
            return Err(TxError::MinOperatorShareRateTooLow);
        }
        if self.min_operator_share_rate > SHARE_TICK {
            return Err(TxError::MinOperatorShareRateTooHigh);
        }
        if self.nonce < MIN_NONCE {
            return Err(TxError::NonceTooLow);
        }
        if self.expired_at < 0 || self.expired_at > MAX_TIMESTAMP {
            return Err(TxError::ExpiredAtInvalid);
        }
        Ok(())
    }

    fn hash(&self, chain_id: u32) -> (r: Result<Vec<u8>, TxError>)
        ensures
            r matches Ok(v) && v@ == aggregate_bytes(
                self.attributes,
                sponge_hash(
                    seq![
                        fe(chain_id as u64),
                        fe(TX_TYPE_L2_CREATE_PUBLIC_POOL as u64),
                        fe(self.nonce as u64),
                        fe(self.expired_at as u64),
                        fe(self.account_index as u64),
                        fe(self.api_key_index as u64),
                        fe(self.operator_fee as u64),
                        fe(self.initial_shares as u64),
                        fe(self.min_operator_share_rate as u64),
                    ],
                    5,
                ),
            ),
    {
        let mut elems: Vec<GoldilocksField> = Vec::new();
        push_elem(&mut elems, chain_id as u64);
        push_elem(&mut elems, TX_TYPE_L2_CREATE_PUBLIC_POOL as u64);
        push_elem(&mut elems, self.nonce as u64);
        push_elem(&mut elems, self.expired_at as u64);
        push_elem(&mut elems, self.account_index as u64);
        push_elem(&mut elems, self.api_key_index as u64);
        push_elem(&mut elems, self.operator_fee as u64);
        push_elem(&mut elems, self.initial_shares as u64);
        push_elem(&mut elems, self.min_operator_share_rate as u64);
        assert(elems_view(elems@) =~= create_public_pool_tx_elements(*self, chain_id));
        finish_hash(&elems, &self.attributes)
    }
}

/// When a public pool creation is accepted: exactly when its attributes are valid and every
/// field lies in its range.
pub proof fn lemma_create_public_pool_accepted(tx: CreatePublicPoolTx)
    ensures
        tx.validation() is Ok <==> {
            &&& attributes_validation(tx.attributes) is Ok
            &&& MIN_ACCOUNT_INDEX <= tx.account_index <= MAX_ACCOUNT_INDEX
            &&& MIN_API_KEY_INDEX <= tx.api_key_index <= MAX_API_KEY_INDEX
            &&& 0 < tx.operator_fee <= FEE_TICK
            &&& MIN_INITIAL_TOTAL_SHARES <= tx.initial_shares <= MAX_INITIAL_TOTAL_SHARES
            &&& 0 < tx.min_operator_share_rate <= SHARE_TICK
            &&& tx.nonce >= MIN_NONCE
            &&& 0 <= tx.expired_at <= MAX_TIMESTAMP
        },
{
}

} // verus!
