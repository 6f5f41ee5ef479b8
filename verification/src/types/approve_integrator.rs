use vstd::prelude::*;
use crate::field::goldilocks::GoldilocksField;
use crate::hash::poseidon2::{sponge_hash, elems_view};
use crate::types::constants::{TX_TYPE_L2_APPROVE_INTEGRATOR, FEE_TICK, MIN_ACCOUNT_INDEX, MAX_ACCOUNT_INDEX, MIN_API_KEY_INDEX, MAX_API_KEY_INDEX, MIN_NONCE, MAX_TIMESTAMP};
use crate::types::errors::TxError;
use crate::types::interface::TxInfo;
use crate::types::attributes::{L2TxAttributes, attributes_validation, aggregate_bytes, fe, push_elem, finish_hash};

verus! {

/// The field elements hashed for a integrator approval.
pub open spec fn approve_integrator_tx_elements(tx: ApproveIntegratorTx, chain_id: u32) -> Seq<nat> {
    seq![
        fe(chain_id as u64),
        fe(TX_TYPE_L2_APPROVE_INTEGRATOR as u64),
        fe(tx.nonce as u64),
        fe(tx.expired_at as u64),
        fe(tx.account_index as u64),
        fe(tx.api_key_index as u64),
        fe(tx.integrator_account_index as u64),
        fe(tx.max_perps_taker_fee as u64),
        fe(tx.max_perps_maker_fee as u64),
        fe(tx.max_spot_taker_fee as u64),
        fe(tx.max_spot_maker_fee as u64),
        fe(tx.approval_expiry as u64),
    ]
}

/// A integrator approval transaction.
pub struct ApproveIntegratorTx {
    pub account_index: i64,
    pub api_key_index: u8,
    pub integrator_account_index: i64,
    pub max_perps_taker_fee: u32,
    pub max_perps_maker_fee: u32,
    pub max_spot_taker_fee: u32,
    pub max_spot_maker_fee: u32,
    pub approval_expiry: i64,
    pub expired_at: i64,
    pub nonce: i64,
    pub sig: Vec<u8>,
    pub signed_hash: String,
    pub attributes: L2TxAttributes,
}

impl TxInfo for ApproveIntegratorTx {
    open spec fn tx_type_spec(&self) -> u8 {
        TX_TYPE_L2_APPROVE_INTEGRATOR
    }

    open spec fn signed_hash_spec(&self) -> Seq<char> {
        self.signed_hash@
    }

    open spec fn validation(&self) -> Result<(), TxError> {
        if attributes_validation(self.attributes) is Err {
            attributes_validation(self.attributes)
        } else if self.account_index < MIN_ACCOUNT_INDEX {
            Err(TxError::AccountIndexTooLow)
        } else if self.account_index > MAX_ACCOUNT_INDEX {
            Err(TxError::AccountIndexTooHigh)
        } else if self.api_key_index < MIN_API_KEY_INDEX {
            Err(TxError::ApiKeyIndexTooLow)
        } else if self.api_key_index > MAX_API_KEY_INDEX {
            Err(TxError::ApiKeyIndexTooHigh)
        } else if self.integrator_account_index < MIN_ACCOUNT_INDEX {
            Err(TxError::IntegratorAccountIndexTooLow)
        } else if self.integrator_account_index > MAX_ACCOUNT_INDEX {
            Err(TxError::IntegratorAccountIndexTooHigh)
        } else if !((self.max_perps_taker_fee as i64) <= FEE_TICK && (self.max_perps_maker_fee as i64) <= FEE_TICK) || !((self.max_spot_taker_fee as i64) <= FEE_TICK && (self.max_spot_maker_fee as i64) <= FEE_TICK) {
            Err(TxError::FeeTooHigh)
        } else if (self.max_perps_taker_fee == 0 && self.max_perps_maker_fee == 0 && self.max_spot_taker_fee == 0 && self.max_spot_maker_fee == 0) != (self.approval_expiry == 0) {
            Err(TxError::ApprovalExpiryZeroOnRevocation)
        } else if self.approval_expiry < 0 || self.approval_expiry > MAX_TIMESTAMP {
            Err(TxError::ApprovalExpiryInvalid)
        } else if self.nonce < MIN_NONCE {
            Err(TxError::NonceTooLow)
        } else if self.expired_at < 0 || self.expired_at > MAX_TIMESTAMP {
            Err(TxError::ExpiredAtInvalid)
        } else {
            Ok(())
        }
    }

    open spec fn hash_result(&self, chain_id: u32) -> Result<Seq<u8>, TxError> {
        Ok(aggregate_bytes(self.attributes, sponge_hash(approve_integrator_tx_elements(*self, chain_id), 5)))
    }

    fn get_tx_type(&self) -> (r: u8) {
        TX_TYPE_L2_APPROVE_INTEGRATOR
    }

    fn get_tx_hash(&self) -> (r: Option<&str>) {
        Some(self.signed_hash.as_str())
    }

    fn validate(&self) -> (r: Result<(), TxError>) {
        match self.attributes.validate() {
            Err(e) => {
                return Err(e);
            },
            Ok(_) => {},
        }
        if self.account_index < MIN_ACCOUNT_INDEX {
            return Err(TxError::AccountIndexTooLow);
        }
        if self.account_index > MAX_ACCOUNT_INDEX {
            return Err(TxError::AccountIndexTooHigh);
        }
        if self.api_key_index < MIN_API_KEY_INDEX {
            return Err(TxError::ApiKeyIndexTooLow);
        }
        if self.api_key_index > MAX_API_KEY_INDEX {
            return Err(TxError::ApiKeyIndexTooHigh);
        }
        if self.integrator_account_index < MIN_ACCOUNT_INDEX {
            return Err(TxError::IntegratorAccountIndexTooLow);
        }
        if self.integrator_account_index > MAX_ACCOUNT_INDEX {
            return Err(TxError::IntegratorAccountIndexTooHigh);
        }
        if !((self.max_perps_taker_fee as i64) <= FEE_TICK && (self.max_perps_maker_fee as i64) <= FEE_TICK) || !((self.max_spot_taker_fee as i64) <= FEE_TICK && (self.max_spot_maker_fee as i64) <= FEE_TICK) {
            return Err(TxError::FeeTooHigh);
        }
        if (self.max_perps_taker_fee == 0 && self.max_perps_maker_fee == 0 && self.max_spot_taker_fee == 0 && self.max_spot_maker_fee == 0) != (self.approval_expiry == 0) {
            return Err(TxError::ApprovalExpiryZeroOnRevocation);
        }
        if self.approval_expiry < 0 || self.approval_expiry > MAX_TIMESTAMP {
            return Err(TxError::ApprovalExpiryInvalid);
        }
        if self.nonce < MIN_NONCE {
            return Err(TxError::NonceTooLow);
        }
        if self.expired_at < 0 || self.expired_at > MAX_TIMESTAMP {
            return Err(TxError::ExpiredAtInvalid);
        }
        Ok(())
    }

    fn hash(&self, chain_id: u32) -> (r: Result<Vec<u8>, TxError>)
        ensures
            r matches Ok(v) && v@ == aggregate_bytes(
                self.attributes,
                sponge_hash(
                    seq![
                        fe(chain_id as u64),
                        fe(TX_TYPE_L2_APPROVE_INTEGRATOR as u64),
                        fe(self.nonce as u64),
                        fe(self.expired_at as u64),
                        fe(self.account_index as u64),
                        fe(self.api_key_index as u64),
                        fe(self.integrator_account_index as u64),
                        fe(self.max_perps_taker_fee as u64),
                        fe(self.max_perps_maker_fee as u64),
                        fe(self.max_spot_taker_fee as u64),
                        fe(self.max_spot_maker_fee as u64),
                        fe(self.approval_expiry as u64),
                    ],
                    5,
                ),
            ),
    {
        let mut elems: Vec<GoldilocksField> = Vec::new();
        push_elem(&mut elems, chain_id as u64);
        push_elem(&mut elems, TX_TYPE_L2_APPROVE_INTEGRATOR as u64);
        push_elem(&mut elems, self.nonce as u64);
        push_elem(&mut elems, self.expired_at as u64);
        push_elem(&mut elems, self.account_index as u64);
        push_elem(&mut elems, self.api_key_index as u64);
        push_elem(&mut elems, self.integrator_account_index as u64);
        push_elem(&mut elems, self.max_perps_taker_fee as u64);
        push_elem(&mut elems, self.max_perps_maker_fee as u64);
        push_elem(&mut elems, self.max_spot_taker_fee as u64);
        push_elem(&mut elems, self.max_spot_maker_fee as u64);
        push_elem(&mut elems, self.approval_expiry as u64);
        assert(elems_view(elems@) =~= approve_integrator_tx_elements(*self, chain_id));
        finish_hash(&elems, &self.attributes)
    }
}

/// When an integrator approval is accepted: exactly when its attributes are valid and every
/// field lies in its range.
pub proof fn lemma_approve_integrator_accepted(tx: ApproveIntegratorTx)
    ensures
        tx.validation() is Ok <==> {
            &&& attributes_validation(tx.attributes) is Ok
            &&& MIN_ACCOUNT_INDEX <= tx.account_index <= MAX_ACCOUNT_INDEX
            &&& MIN_API_KEY_INDEX <= tx.api_key_index <= MAX_API_KEY_INDEX
            &&& MIN_ACCOUNT_INDEX <= tx.integrator_account_index <= MAX_ACCOUNT_INDEX
            &&& tx.max_perps_taker_fee as i64 <= FEE_TICK
            &&& tx.max_perps_maker_fee as i64 <= FEE_TICK
            &&& tx.max_spot_taker_fee as i64 <= FEE_TICK
            &&& tx.max_spot_maker_fee as i64 <= FEE_TICK
            &&& (tx.approval_expiry == 0 <==> (tx.max_perps_taker_fee == 0 && tx.max_perps_maker_fee == 0
                && tx.max_spot_taker_fee == 0 && tx.max_spot_maker_fee == 0))
            &&& 0 <= tx.approval_expiry <= MAX_TIMESTAMP
            &&& tx.nonce >= MIN_NONCE
            &&& 0 <= tx.expired_at <= MAX_TIMESTAMP
        },
{
}

} // verus!
