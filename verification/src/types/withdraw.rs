use vstd::prelude::*;
use vstd::arithmetic::div_mod::*;
use crate::field::goldilocks::{GoldilocksField, modulus};
use crate::hash::poseidon2::{sponge_hash, elems_view};
use crate::types::constants::{TX_TYPE_L2_WITHDRAW, MIN_ACCOUNT_INDEX, MAX_ACCOUNT_INDEX, MIN_API_KEY_INDEX, MAX_API_KEY_INDEX, MIN_ASSET_INDEX, MAX_ASSET_INDEX, MIN_NONCE, MAX_TIMESTAMP, MIN_WITHDRAWAL_AMOUNT, MAX_WITHDRAWAL_AMOUNT};
use crate::types::errors::TxError;
use crate::types::interface::TxInfo;
use crate::types::attributes::{L2TxAttributes, attributes_validation, aggregate_bytes, fe, push_elem, finish_hash};

verus! {

/// The field elements hashed for a withdrawal.
pub open spec fn withdraw_tx_elements(tx: WithdrawTx, chain_id: u32) -> Seq<nat> {
    seq![
        fe(chain_id as u64),
        fe(TX_TYPE_L2_WITHDRAW as u64),
        fe(tx.nonce as u64),
        fe(tx.expired_at as u64),
        fe(tx.from_account_index as u64),
        fe(tx.api_key_index as u64),
        fe(tx.asset_index as u64),
        fe(tx.route_type as u64),
        fe(tx.amount & 0xFFFFFFFF),
        fe(tx.amount >> 32u64),
    ]
}

/// The elements hashed for a withdrawal, written out: the chain, the type
/// 13, nonce, expiry, account, key, asset, route, then the amount as its low
/// 32 bits followed by its high 32 bits.
pub proof fn lemma_withdraw_tx_elements(tx: WithdrawTx, chain_id: u32)
    ensures
        withdraw_tx_elements(tx, chain_id) == seq![
            chain_id as nat,
            13,
            fe(tx.nonce as u64),
            fe(tx.expired_at as u64),
            fe(tx.from_account_index as u64),
            tx.api_key_index as nat,
            fe(tx.asset_index as u64),
            tx.route_type as nat,
            tx.amount as nat % 0x1_0000_0000,
            tx.amount as nat / 0x1_0000_0000,
        ],
{
    let a = tx.amount;
    assert(a & 0xFFFFFFFF == a % 0x1_0000_0000 && a >> 32u64 == a / 0x1_0000_0000) by (bit_vector);
    assert(a & 0xFFFFFFFF < 0x1_0000_0000 && a >> 32u64 < 0x1_0000_0000) by (bit_vector);
    lemma_small_mod((a & 0xFFFFFFFF) as nat, modulus());
    lemma_small_mod((a >> 32u64) as nat, modulus());
    lemma_small_mod(chain_id as nat, modulus());
    lemma_small_mod(13, modulus());
    lemma_small_mod(tx.api_key_index as nat, modulus());
    lemma_small_mod(tx.route_type as nat, modulus());
    assert(withdraw_tx_elements(tx, chain_id) =~= seq![
        chain_id as nat,
        13,
        fe(tx.nonce as u64),
        fe(tx.expired_at as u64),
        fe(tx.from_account_index as u64),
        tx.api_key_index as nat,
        fe(tx.asset_index as u64),
        tx.route_type as nat,
        tx.amount as nat % 0x1_0000_0000,
        tx.amount as nat / 0x1_0000_0000,
    ]);
}

/// A withdrawal transaction.
pub struct WithdrawTx {
    pub from_account_index: i64,
    pub api_key_index: u8,
    pub asset_index: i16,
    pub route_type: u8,
    pub amount: u64,
    pub expired_at: i64,
    pub nonce: i64,
    pub sig: Vec<u8>,
    pub signed_hash: String,
    pub attributes: L2TxAttributes,
}

impl TxInfo for WithdrawTx {
    open spec fn tx_type_spec(&self) -> u8 {
        TX_TYPE_L2_WITHDRAW
    }

    open spec fn signed_hash_spec(&self) -> Seq<char> {
        self.signed_hash@
    }

    open spec fn validation(&self) -> Result<(), TxError> {
        if attributes_validation(self.attributes) is Err {
            attributes_validation(self.attributes)
        } else if self.from_account_index < MIN_ACCOUNT_INDEX {
            Err(TxError::FromAccountIndexTooLow)
        } else if self.from_account_index > MAX_ACCOUNT_INDEX {
            Err(TxError::FromAccountIndexTooHigh)
        } else if self.api_key_index < MIN_API_KEY_INDEX {
            Err(TxError::ApiKeyIndexTooLow)
        } else if self.api_key_index > MAX_API_KEY_INDEX {
            Err(TxError::ApiKeyIndexTooHigh)
        } else if self.asset_index < MIN_ASSET_INDEX {
            Err(TxError::AssetIndexTooLow)
        } else if self.asset_index > MAX_ASSET_INDEX {
            Err(TxError::AssetIndexTooHigh)
        } else if self.amount < MIN_WITHDRAWAL_AMOUNT {
            Err(TxError::WithdrawalAmountTooLow)
        } else if self.amount > MAX_WITHDRAWAL_AMOUNT {
            Err(TxError::WithdrawalAmountTooHigh)
        } else if self.nonce < MIN_NONCE {
            Err(TxError::NonceTooLow)
        } else if self.expired_at < 0 || self.expired_at > MAX_TIMESTAMP {
            Err(TxError::ExpiredAtInvalid)
        } else {
            Ok(())
        }
    }

    open spec fn hash_result(&self, chain_id: u32) -> Result<Seq<u8>, TxError> {
        Ok(aggregate_bytes(self.attributes, sponge_hash(withdraw_tx_elements(*self, chain_id), 5)))
    }

    fn get_tx_type(&self) -> (r: u8) {
        TX_TYPE_L2_WITHDRAW
    }

    fn get_tx_hash(&self) -> (r: Option<&str>) {
        Some(self.signed_hash.as_str())
    }

    fn validate(&self) -> (r: Result<(), TxError>) {
        match self.attributes.validate() {
            Err(e) => {
                return Err(e);
            },
            Ok(_) => {},
        }
        if self.from_account_index < MIN_ACCOUNT_INDEX {
            return Err(TxError::FromAccountIndexTooLow);
        }
        if self.from_account_index > MAX_ACCOUNT_INDEX {
            return Err(TxError::FromAccountIndexTooHigh);
        }
        if self.api_key_index < MIN_API_KEY_INDEX {
            return Err(TxError::ApiKeyIndexTooLow);
        }
        if self.api_key_index > MAX_API_KEY_INDEX {
            return Err(TxError::ApiKeyIndexTooHigh);
        }
        if self.asset_index < MIN_ASSET_INDEX {
            return Err(TxError::AssetIndexTooLow);
        }
        if self.asset_index > MAX_ASSET_INDEX {
            return Err(TxError::AssetIndexTooHigh);
        }
        if self.amount < MIN_WITHDRAWAL_AMOUNT {
            return Err(TxError::WithdrawalAmountTooLow);
        }
        if self.amount > MAX_WITHDRAWAL_AMOUNT {
            return Err(TxError::WithdrawalAmountTooHigh);
        }
        if self.nonce < MIN_NONCE {
            return Err(TxError::NonceTooLow);
        }
        if self.expired_at < 0 || self.expired_at > MAX_TIMESTAMP {
            return Err(TxError::ExpiredAtInvalid);
        }
        Ok(())
    }

    fn hash(&self, chain_id: u32) -> (r: Result<Vec<u8>, TxError>)
        ensures
            r matches Ok(v) && v@ == aggregate_bytes(
                self.attributes,
                sponge_hash(
                    seq![
                        chain_id as nat,
                        13,
                        fe(self.nonce as u64),
                        fe(self.expired_at as u64),
                        fe(self.from_account_index as u64),
                        self.api_key_index as nat,
                        fe(self.asset_index as u64),
                        self.route_type as nat,
                        self.amount as nat % 0x1_0000_0000,
                        self.amount as nat / 0x1_0000_0000,
                    ],
                    5,
                ),
            ),
    {
        proof {
            lemma_withdraw_tx_elements(*self, chain_id);
        }
        let mut elems: Vec<GoldilocksField> = Vec::new();
        push_elem(&mut elems, chain_id as u64);
        push_elem(&mut elems, TX_TYPE_L2_WITHDRAW as u64);
        push_elem(&mut elems, self.nonce as u64);
        push_elem(&mut elems, self.expired_at as u64);
        push_elem(&mut elems, self.from_account_index as u64);
        push_elem(&mut elems, self.api_key_index as u64);
        push_elem(&mut elems, self.asset_index as u64);
        push_elem(&mut elems, self.route_type as u64);
        push_elem(&mut elems, self.amount & 0xFFFFFFFF);
        push_elem(&mut elems, self.amount >> 32u64);
        assert(elems_view(elems@) =~= withdraw_tx_elements(*self, chain_id));
        finish_hash(&elems, &self.attributes)
    }
}

/// When a withdrawal is accepted: exactly when its attributes are valid and every
/// field lies in its range.
pub proof fn lemma_withdraw_accepted(tx: WithdrawTx)
    ensures
        tx.validation() is Ok <==> {
            &&& attributes_validation(tx.attributes) is Ok
            &&& MIN_ACCOUNT_INDEX <= tx.from_account_index <= MAX_ACCOUNT_INDEX
            &&& MIN_API_KEY_INDEX <= tx.api_key_index <= MAX_API_KEY_INDEX
            &&& MIN_ASSET_INDEX <= tx.asset_index <= MAX_ASSET_INDEX
            &&& MIN_WITHDRAWAL_AMOUNT <= tx.amount <= MAX_WITHDRAWAL_AMOUNT
            &&& tx.nonce >= MIN_NONCE
            &&& 0 <= tx.expired_at <= MAX_TIMESTAMP
        },
{
}

} // verus!
