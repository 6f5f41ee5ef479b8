use vstd::prelude::*;
use crate::field::goldilocks::GoldilocksField;
use crate::hash::poseidon2::{sponge_hash, elems_view};
use crate::types::constants::{TX_TYPE_L2_UPDATE_LEVERAGE, CROSS_MARGIN, ISOLATED_MARGIN, MARGIN_FRACTION_TICK, MIN_ACCOUNT_INDEX, MAX_ACCOUNT_INDEX, MIN_API_KEY_INDEX, MAX_API_KEY_INDEX, MIN_PERPS_MARKET_INDEX, MAX_PERPS_MARKET_INDEX, MIN_NONCE, MAX_TIMESTAMP};
use crate::types::errors::TxError;
use crate::types::interface::TxInfo;
use crate::types::attributes::{L2TxAttributes, attributes_validation, aggregate_bytes, fe, push_elem, finish_hash};

verus! {

/// The field elements hashed for a leverage update.
pub open spec fn update_leverage_tx_elements(tx: UpdateLeverageTx, chain_id: u32) -> Seq<nat> {
    seq![
        fe(chain_id as u64),
        fe(TX_TYPE_L2_UPDATE_LEVERAGE as u64),
        fe(tx.nonce as u64),
        fe(tx.expired_at as u64),
        fe(tx.account_index as u64),
        fe(tx.api_key_index as u64),
        fe(tx.market_index as u64),
        fe(tx.margin_fraction as u64),
        fe(tx.margin_mode as u64),
    ]
}

/// A leverage update transaction.
pub struct UpdateLeverageTx {
    pub account_index: i64,
    pub api_key_index: u8,
    pub market_index: i16,
    pub margin_fraction: i64,
    pub margin_mode: u8,
    pub expired_at: i64,
    pub nonce: i64,
    pub sig: Vec<u8>,
    pub signed_hash: String,
    pub attributes: L2TxAttributes,
}

impl TxInfo for UpdateLeverageTx {
    open spec fn tx_type_spec(&self) -> u8 {
        TX_TYPE_L2_UPDATE_LEVERAGE
    }

    open spec fn signed_hash_spec(&self) -> Seq<char> {
        self.signed_hash@
    }

    open spec fn validation(&self) -> Result<(), TxError> {
        if attributes_validation(self.attributes) is Err {
            attributes_validation(self.attributes)
        } else if self.account_index < MIN_ACCOUNT_INDEX {
            Err(TxError::AccountIndexTooLow)
        } else if self.account_index > MAX_ACCOUNT_INDEX {
            Err(TxError::AccountIndexTooHigh)
        } else if self.api_key_index < MIN_API_KEY_INDEX {
            Err(TxError::ApiKeyIndexTooLow)
        } else if self.api_key_index > MAX_API_KEY_INDEX {
            Err(TxError::ApiKeyIndexTooHigh)
        } else if !(self.market_index >= MIN_PERPS_MARKET_INDEX && self.market_index <= MAX_PERPS_MARKET_INDEX) {
            Err(TxError::InvalidMarketIndex)
        } else if self.margin_mode != CROSS_MARGIN && self.margin_mode != ISOLATED_MARGIN {
            Err(TxError::InvalidMarginMode)
        } else if self.margin_fraction < 0 {
            Err(TxError::MarginFractionTooLow)
        } else if self.margin_fraction > MARGIN_FRACTION_TICK {
            Err(TxError::MarginFractionTooHigh)
        } else if self.nonce < MIN_NONCE {
            Err(TxError::NonceTooLow)
        } else if self.expired_at < 0 || self.expired_at > MAX_TIMESTAMP {
            Err(TxError::ExpiredAtInvalid)
        } else {
            Ok(())
        }
    }

    open spec fn hash_result(&self, chain_id: u32) -> Result<Seq<u8>, TxError> {
        Ok(aggregate_bytes(self.attributes, sponge_hash(update_leverage_tx_elements(*self, chain_id), 5)))
    }

    fn get_tx_type(&self) -> (r: u8) {
        TX_TYPE_L2_UPDATE_LEVERAGE
    }

    fn get_tx_hash(&self) -> (r: Option<&str>) {
        Some(self.signed_hash.as_str())
    }

    fn validate(&self) -> (r: Result<(), TxError>) {
        match self.attributes.validate() {
            Err(e) => {
                return Err(e);
            },
            Ok(_) => {},
        }
        if self.account_index < MIN_ACCOUNT_INDEX {
            return Err(TxError::AccountIndexTooLow);
        }
        if self.account_index > MAX_ACCOUNT_INDEX {
            return Err(TxError::AccountIndexTooHigh);
        }
        if self.api_key_index < MIN_API_KEY_INDEX {
            return Err(TxError::ApiKeyIndexTooLow);
        }
        if self.api_key_index > MAX_API_KEY_INDEX {
            return Err(TxError::ApiKeyIndexTooHigh);
        }
        if !(self.market_index >= MIN_PERPS_MARKET_INDEX && self.market_index <= MAX_PERPS_MARKET_INDEX) {
            return Err(TxError::InvalidMarketIndex);
        }
        if self.margin_mode != CROSS_MARGIN && self.margin_mode != ISOLATED_MARGIN {
            return Err(TxError::InvalidMarginMode);
        }
        if self.margin_fraction < 0 {
            return Err(TxError::MarginFractionTooLow);
        }
        if self.margin_fraction > MARGIN_FRACTION_TICK {
            return Err(TxError::MarginFractionTooHigh);
        }
        if self.nonce < MIN_NONCE {
            return Err(TxError::NonceTooLow);
        }
        if self.expired_at < 0 || self.expired_at > MAX_TIMESTAMP {
            return Err(TxError::ExpiredAtInvalid);
        }
        Ok(())
    }

    fn hash(&self, chain_id: u32) -> (r: Result<Vec<u8>, TxError>)
        ensures
            r matches Ok(v) && v@ == aggregate_bytes(
                self.attributes,
                sponge_hash(
                    seq![
                        fe(chain_id as u64),
                        fe(TX_TYPE_L2_UPDATE_LEVERAGE as u64),
                        fe(self.nonce as u64),
                        fe(self.expired_at as u64),
                        fe(self.account_index as u64),
                        fe(self.api_key_index as u64),
                        fe(self.market_index as u64),
                        fe(self.margin_fraction as u64),
                        fe(self.margin_mode as u64),
                    ],
                    5,
                ),
            ),
    {
        let mut elems: Vec<GoldilocksField> = Vec::new();
        push_elem(&mut elems, chain_id as u64);
        push_elem(&mut elems, TX_TYPE_L2_UPDATE_LEVERAGE as u64);
        push_elem(&mut elems, self.nonce as u64);
        push_elem(&mut elems, self.expired_at as u64);
        push_elem(&mut elems, self.account_index as u64);
        push_elem(&mut elems, self.api_key_index as u64);
        push_elem(&mut elems, self.market_index as u64);
        push_elem(&mut elems, self.margin_fraction as u64);
        push_elem(&mut elems, self.margin_mode as u64);
        assert(elems_view(elems@) =~= update_leverage_tx_elements(*self, chain_id));
        finish_hash(&elems, &self.attributes)
    }
}

/// When a leverage update is accepted: exactly when its attributes are valid and every
/// field lies in its range.
pub proof fn lemma_update_leverage_accepted(tx: UpdateLeverageTx)
    ensures
        tx.validation() is Ok <==> {
            &&& attributes_validation(tx.attributes) is Ok
            &&& MIN_ACCOUNT_INDEX <= tx.account_index <= MAX_ACCOUNT_INDEX
            &&& MIN_API_KEY_INDEX <= tx.api_key_index <= MAX_API_KEY_INDEX
            &&& MIN_PERPS_MARKET_INDEX <= tx.market_index <= MAX_PERPS_MARKET_INDEX
            &&& (tx.margin_mode == CROSS_MARGIN || tx.margin_mode == ISOLATED_MARGIN)
            &&& 0 <= tx.margin_fraction <= MARGIN_FRACTION_TICK
            &&& tx.nonce >= MIN_NONCE
            &&& 0 <= tx.expired_at <= MAX_TIMESTAMP
        },
{
}

} // verus!
