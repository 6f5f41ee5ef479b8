use vstd::prelude::*;
use crate::field::goldilocks::GoldilocksField;
use crate::hash::poseidon2::{sponge_hash, elems_view};
use crate::types::constants::{TX_TYPE_L2_TRANSFER, ASSET_ROUTE_PERPS, ASSET_ROUTE_SPOT, MIN_ACCOUNT_INDEX, MAX_ACCOUNT_INDEX, MIN_API_KEY_INDEX, MAX_API_KEY_INDEX, MIN_ASSET_INDEX, MAX_ASSET_INDEX, MIN_NONCE, MAX_TIMESTAMP, MAX_TRANSFER_AMOUNT};
use crate::types::errors::TxError;
use crate::types::interface::TxInfo;
use crate::types::attributes::{L2TxAttributes, attributes_validation, aggregate_bytes, fe, push_elem, finish_hash};

verus! {

/// The field elements hashed for a transfer.
pub open spec fn transfer_tx_elements(tx: TransferTx, chain_id: u32) -> Seq<nat> {
    seq![
        fe(chain_id as u64),
        fe(TX_TYPE_L2_TRANSFER as u64),
        fe(tx.nonce as u64),
        fe(tx.expired_at as u64),
        fe(tx.from_account_index as u64),
        fe(tx.api_key_index as u64),
        fe(tx.to_account_index as u64),
        fe(tx.asset_index as u64),
        fe(tx.from_route_type as u64),
        fe(tx.to_route_type as u64),
        fe((tx.amount as u64) & 0xFFFFFFFF),
        fe((tx.amount as u64) >> 32u64),
        fe((tx.usdc_fee as u64) & 0xFFFFFFFF),
        fe((tx.usdc_fee as u64) >> 32u64),
    ]
}

/// A transfer transaction.
pub struct TransferTx {
    pub from_account_index: i64,
    pub api_key_index: u8,
    pub to_account_index: i64,
    pub asset_index: i16,
    pub from_route_type: u8,
    pub to_route_type: u8,
    pub amount: i64,
    pub usdc_fee: i64,
    pub memo: [u8; 32],
    pub expired_at: i64,
    pub nonce: i64,
    pub sig: Vec<u8>,
    pub signed_hash: String,
    pub attributes: L2TxAttributes,
}

impl TxInfo for TransferTx {
    open spec fn tx_type_spec(&self) -> u8 {
        TX_TYPE_L2_TRANSFER
    }

    open spec fn signed_hash_spec(&self) -> Seq<char> {
        self.signed_hash@
    }

    open spec fn validation(&self) -> Result<(), TxError> {
        if attributes_validation(self.attributes) is Err {
            attributes_validation(self.attributes)
        } else if self.from_account_index < MIN_ACCOUNT_INDEX {
            Err(TxError::FromAccountIndexTooLow)
        } else if self.from_account_index > MAX_ACCOUNT_INDEX {
            Err(TxError::FromAccountIndexTooHigh)
        } else if self.api_key_index < MIN_API_KEY_INDEX {
            Err(TxError::ApiKeyIndexTooLow)
        } else if self.api_key_index > MAX_API_KEY_INDEX {
            Err(TxError::ApiKeyIndexTooHigh)
        } else if self.to_account_index < MIN_ACCOUNT_INDEX {
            Err(TxError::ToAccountIndexTooLow)
        } else if self.to_account_index > MAX_ACCOUNT_INDEX {
            Err(TxError::ToAccountIndexTooHigh)
        } else if self.asset_index < MIN_ASSET_INDEX {
            Err(TxError::AssetIndexTooLow)
        } else if self.asset_index > MAX_ASSET_INDEX {
            Err(TxError::AssetIndexTooHigh)
        } else if self.from_route_type != ASSET_ROUTE_PERPS && self.from_route_type != ASSET_ROUTE_SPOT {
            Err(TxError::RouteTypeInvalid)
        } else if self.to_route_type != ASSET_ROUTE_PERPS && self.to_route_type != ASSET_ROUTE_SPOT {
            Err(TxError::RouteTypeInvalid)
        } else if self.amount <= 0 {
            Err(TxError::TransferAmountTooLow)
        } else if self.amount > MAX_TRANSFER_AMOUNT {
            Err(TxError::TransferAmountTooHigh)
        } else if self.usdc_fee < 0 {
            Err(TxError::TransferFeeNegative)
        } else if self.usdc_fee > MAX_TRANSFER_AMOUNT {
            Err(TxError::TransferFeeTooHigh)
        } else if self.nonce < MIN_NONCE {
            Err(TxError::NonceTooLow)
        } else if self.expired_at < 0 || self.expired_at > MAX_TIMESTAMP {
            Err(TxError::ExpiredAtInvalid)
        } else {
            Ok(())
        }
    }

    open spec fn hash_result(&self, chain_id: u32) -> Result<Seq<u8>, TxError> {
        Ok(aggregate_bytes(self.attributes, sponge_hash(transfer_tx_elements(*self, chain_id), 5)))
    }

    fn get_tx_type(&self) -> (r: u8) {
        TX_TYPE_L2_TRANSFER
    }

    fn get_tx_hash(&self) -> (r: Option<&str>) {
        Some(self.signed_hash.as_str())
    }

    fn validate(&self) -> (r: Result<(), TxError>) {
        match self.attributes.validate() {
            Err(e) => {
                return Err(e);
            },
            Ok(_) => {},
        }
        if self.from_account_index < MIN_ACCOUNT_INDEX {
            return Err(TxError::FromAccountIndexTooLow);
        }
        if self.from_account_index > MAX_ACCOUNT_INDEX {
            return Err(TxError::FromAccountIndexTooHigh);
        }
        if self.api_key_index < MIN_API_KEY_INDEX {
            return Err(TxError::ApiKeyIndexTooLow);
        }
        if self.api_key_index > MAX_API_KEY_INDEX {
            return Err(TxError::ApiKeyIndexTooHigh);
        }
        if self.to_account_index < MIN_ACCOUNT_INDEX {
            return Err(TxError::ToAccountIndexTooLow);
        }
        if self.to_account_index > MAX_ACCOUNT_INDEX {
            return Err(TxError::ToAccountIndexTooHigh);
        }
        if self.asset_index < MIN_ASSET_INDEX {
            return Err(TxError::AssetIndexTooLow);
        }
        if self.asset_index > MAX_ASSET_INDEX {
            return Err(TxError::AssetIndexTooHigh);
        }
        if self.from_route_type != ASSET_ROUTE_PERPS && self.from_route_type != ASSET_ROUTE_SPOT {
            return Err(TxError::RouteTypeInvalid);
        }
        if self.to_route_type != ASSET_ROUTE_PERPS && self.to_route_type != ASSET_ROUTE_SPOT {
            return Err(TxError::RouteTypeInvalid);
        }
        if self.amount <= 0 {
            return Err(TxError::TransferAmountTooLow);
        }
        if self.amount > MAX_TRANSFER_AMOUNT {
            return Err(TxError::TransferAmountTooHigh);
        }
        if self.usdc_fee < 0 {
            return Err(TxError::TransferFeeNegative);
        }
        if self.usdc_fee > MAX_TRANSFER_AMOUNT {
            return Err(TxError::TransferFeeTooHigh);
        }
        if self.nonce < MIN_NONCE {
            return Err(TxError::NonceTooLow);
        }
        if self.expired_at < 0 || self.expired_at > MAX_TIMESTAMP {
            return Err(TxError::ExpiredAtInvalid);
        }
        Ok(())
    }

    fn hash(&self, chain_id: u32) -> (r: Result<Vec<u8>, TxError>)
        ensures
            r matches Ok(v) && v@ == aggregate_bytes(
                self.attributes,
                sponge_hash(
                    seq![
                        fe(chain_id as u64),
                        fe(TX_TYPE_L2_TRANSFER as u64),
                        fe(self.nonce as u64),
                        fe(self.expired_at as u64),
                        fe(self.from_account_index as u64),
                        fe(self.api_key_index as u64),
                        fe(self.to_account_index as u64),
                        fe(self.asset_index as u64),
                        fe(self.from_route_type as u64),
                        fe(self.to_route_type as u64),
                        fe((self.amount as u64) & 0xFFFFFFFF),
                        fe((self.amount as u64) >> 32u64),
                        fe((self.usdc_fee as u64) & 0xFFFFFFFF),
                        fe((self.usdc_fee as u64) >> 32u64),
                    ],
                    5,
                ),
            ),
    {
        let mut elems: Vec<GoldilocksField> = Vec::new();
        push_elem(&mut elems, chain_id as u64);
        push_elem(&mut elems, TX_TYPE_L2_TRANSFER as u64);
        push_elem(&mut elems, self.nonce as u64);
        push_elem(&mut elems, self.expired_at as u64);
        push_elem(&mut elems, self.from_account_index as u64);
        push_elem(&mut elems, self.api_key_index as u64);
        push_elem(&mut elems, self.to_account_index as u64);
        push_elem(&mut elems, self.asset_index as u64);
        push_elem(&mut elems, self.from_route_type as u64);
        push_elem(&mut elems, self.to_route_type as u64);
        push_elem(&mut elems, (self.amount as u64) & 0xFFFFFFFF);
        push_elem(&mut elems, (self.amount as u64) >> 32u64);
        push_elem(&mut elems, (self.usdc_fee as u64) & 0xFFFFFFFF);
        push_elem(&mut elems, (self.usdc_fee as u64) >> 32u64);
        assert(elems_view(elems@) =~= transfer_tx_elements(*self, chain_id));
        finish_hash(&elems, &self.attributes)
    }
}

/// When a transfer is accepted: exactly when its attributes are valid and every
/// field lies in its range.
pub proof fn lemma_transfer_accepted(tx: TransferTx)
    ensures
        tx.validation() is Ok <==> {
            &&& attributes_validation(tx.attributes) is Ok
            &&& MIN_ACCOUNT_INDEX <= tx.from_account_index <= MAX_ACCOUNT_INDEX
            &&& MIN_API_KEY_INDEX <= tx.api_key_index <= MAX_API_KEY_INDEX
            &&& MIN_ACCOUNT_INDEX <= tx.to_account_index <= MAX_ACCOUNT_INDEX
            &&& MIN_ASSET_INDEX <= tx.asset_index <= MAX_ASSET_INDEX
            &&& (tx.from_route_type == ASSET_ROUTE_PERPS || tx.from_route_type == ASSET_ROUTE_SPOT)
            &&& (tx.to_route_type == ASSET_ROUTE_PERPS || tx.to_route_type == ASSET_ROUTE_SPOT)
            &&& 0 < tx.amount <= MAX_TRANSFER_AMOUNT
            &&& 0 <= tx.usdc_fee <= MAX_TRANSFER_AMOUNT
            &&& tx.nonce >= MIN_NONCE
            &&& 0 <= tx.expired_at <= MAX_TIMESTAMP
        },
{
}

} // verus!
