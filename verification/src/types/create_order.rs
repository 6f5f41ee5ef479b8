use vstd::prelude::*;
use crate::field::goldilocks::GoldilocksField;
use crate::hash::poseidon2::{sponge_hash, elems_view};
use crate::types::constants::{TX_TYPE_L2_CREATE_ORDER, ORDER_TYPE_LIMIT, ORDER_TYPE_MARKET, ORDER_TYPE_STOP_LOSS, ORDER_TYPE_STOP_LOSS_LIMIT, ORDER_TYPE_TAKE_PROFIT, ORDER_TYPE_TAKE_PROFIT_LIMIT, ORDER_TYPE_TWAP, TIF_IMMEDIATE_OR_CANCEL, TIF_GOOD_TILL_TIME, TIF_POST_ONLY, MIN_ACCOUNT_INDEX, MAX_ACCOUNT_INDEX, MIN_API_KEY_INDEX, MAX_API_KEY_INDEX, MIN_PERPS_MARKET_INDEX, MAX_PERPS_MARKET_INDEX, MIN_SPOT_MARKET_INDEX, MAX_SPOT_MARKET_INDEX, MIN_NONCE, MAX_TIMESTAMP, MIN_CLIENT_ORDER_INDEX, MAX_CLIENT_ORDER_INDEX, NIL_CLIENT_ORDER_INDEX, MIN_ORDER_BASE_AMOUNT, MAX_ORDER_BASE_AMOUNT, NIL_ORDER_BASE_AMOUNT, MIN_ORDER_PRICE, MAX_ORDER_PRICE, NIL_ORDER_TRIGGER_PRICE, MIN_ORDER_TRIGGER_PRICE, MAX_ORDER_TRIGGER_PRICE, NIL_ORDER_EXPIRY, MIN_ORDER_EXPIRY, MAX_ORDER_EXPIRY};
use crate::types::errors::TxError;
use crate::types::interface::TxInfo;
use crate::types::attributes::{L2TxAttributes, attributes_validation, aggregate_bytes, fe, push_elem, finish_hash};
use crate::types::interface::OrderInfo;

verus! {

/// The field elements hashed for a order creation.
pub open spec fn create_order_tx_elements(tx: CreateOrderTx, chain_id: u32) -> Seq<nat> {
    seq![
        fe(chain_id as u64),
        fe(TX_TYPE_L2_CREATE_ORDER as u64),
        fe(tx.nonce as u64),
        fe(tx.expired_at as u64),
        fe(tx.account_index as u64),
        fe(tx.api_key_index as u64),
        fe(tx.order.market_index as u64),
        fe(tx.order.client_order_index as u64),
        fe(tx.order.base_amount as u64),
        fe(tx.order.price as u64),
        fe(tx.order.is_ask as u64),
        fe(tx.order.order_type as u64),
        fe(tx.order.time_in_force as u64),
        fe(tx.order.reduce_only as u64),
        fe(tx.order.trigger_price as u64),
        fe(tx.order.order_expiry as u64),
    ]
}

/// A order creation transaction.
pub struct CreateOrderTx {
    pub account_index: i64,
    pub api_key_index: u8,
    pub order: OrderInfo,
    pub expired_at: i64,
    pub nonce: i64,
    pub sig: Vec<u8>,
    pub signed_hash: String,
    pub attributes: L2TxAttributes,
}

impl TxInfo for CreateOrderTx {
    open spec fn tx_type_spec(&self) -> u8 {
        TX_TYPE_L2_CREATE_ORDER
    }

    open spec fn signed_hash_spec(&self) -> Seq<char> {
        self.signed_hash@
    }

    open spec fn validation(&self) -> Result<(), TxError> {
        if attributes_validation(self.attributes) is Err {
            attributes_validation(self.attributes)
        } else if self.account_index < MIN_ACCOUNT_INDEX {
            Err(TxError::AccountIndexTooLow)
        } else if self.account_index > MAX_ACCOUNT_INDEX {
            Err(TxError::AccountIndexTooHigh)
        } else if self.api_key_index < MIN_API_KEY_INDEX {
            Err(TxError::ApiKeyIndexTooLow)
        } else if self.api_key_index > MAX_API_KEY_INDEX {
            Err(TxError::ApiKeyIndexTooHigh)
        } else if !(self.order.market_index >= MIN_SPOT_MARKET_INDEX && self.order.market_index <= MAX_SPOT_MARKET_INDEX) && !(self.order.market_index >= MIN_PERPS_MARKET_INDEX && self.order.market_index <= MAX_PERPS_MARKET_INDEX) {
            Err(TxError::InvalidMarketIndex)
        } else if self.order.client_order_index != NIL_CLIENT_ORDER_INDEX && self.order.client_order_index < MIN_CLIENT_ORDER_INDEX {
            Err(TxError::ClientOrderIndexTooLow)
        } else if self.order.client_order_index != NIL_CLIENT_ORDER_INDEX && self.order.client_order_index > MAX_CLIENT_ORDER_INDEX {
            Err(TxError::ClientOrderIndexTooHigh)
        } else if self.order.reduce_only != 1 && self.order.base_amount == NIL_ORDER_BASE_AMOUNT {
            Err(TxError::BaseAmountTooLow)
        } else if self.order.base_amount != NIL_ORDER_BASE_AMOUNT && self.order.base_amount < MIN_ORDER_BASE_AMOUNT {
            Err(TxError::BaseAmountTooLow)
        } else if self.order.base_amount > MAX_ORDER_BASE_AMOUNT {
            Err(TxError::BaseAmountTooHigh)
        } else if self.order.price < MIN_ORDER_PRICE {
            Err(TxError::PriceTooLow)
        } else if self.order.price > MAX_ORDER_PRICE {
            Err(TxError::PriceTooHigh)
        } else if self.order.is_ask != 0 && self.order.is_ask != 1 {
            Err(TxError::IsAskInvalid)
        } else if !(self.order.time_in_force == TIF_IMMEDIATE_OR_CANCEL || self.order.time_in_force == TIF_GOOD_TILL_TIME || self.order.time_in_force == TIF_POST_ONLY) {
            Err(TxError::OrderTimeInForceInvalid)
        } else if (self.order.reduce_only != 0 && self.order.reduce_only != 1) || ((self.order.market_index >= MIN_SPOT_MARKET_INDEX && self.order.market_index <= MAX_SPOT_MARKET_INDEX) && self.order.reduce_only == 1) {
            Err(TxError::OrderReduceOnlyInvalid)
        } else if (self.order.order_expiry < MIN_ORDER_EXPIRY || self.order.order_expiry > MAX_ORDER_EXPIRY) && self.order.order_expiry != NIL_ORDER_EXPIRY {
            Err(TxError::OrderExpiryInvalid)
        } else if self.order.order_type == ORDER_TYPE_MARKET && self.order.time_in_force != TIF_IMMEDIATE_OR_CANCEL {
            Err(TxError::OrderTimeInForceInvalid)
        } else if self.order.order_type == ORDER_TYPE_MARKET && self.order.order_expiry != NIL_ORDER_EXPIRY {
            Err(TxError::OrderExpiryInvalid)
        } else if self.order.order_type == ORDER_TYPE_MARKET && self.order.trigger_price != NIL_ORDER_TRIGGER_PRICE {
            Err(TxError::OrderTriggerPriceInvalid)
        } else if self.order.order_type == ORDER_TYPE_LIMIT && self.order.trigger_price != NIL_ORDER_TRIGGER_PRICE {
            Err(TxError::OrderTriggerPriceInvalid)
        } else if (self.order.order_type == ORDER_TYPE_STOP_LOSS || self.order.order_type == ORDER_TYPE_TAKE_PROFIT) && !(self.order.market_index >= MIN_PERPS_MARKET_INDEX && self.order.market_index <= MAX_PERPS_MARKET_INDEX) {
            Err(TxError::OrderTypeInvalid)
        } else if (self.order.order_type == ORDER_TYPE_STOP_LOSS || self.order.order_type == ORDER_TYPE_TAKE_PROFIT) && self.order.time_in_force != TIF_IMMEDIATE_OR_CANCEL {
            Err(TxError::OrderTimeInForceInvalid)
        } else if (self.order.order_type == ORDER_TYPE_STOP_LOSS || self.order.order_type == ORDER_TYPE_TAKE_PROFIT) && self.order.trigger_price == NIL_ORDER_TRIGGER_PRICE {
            Err(TxError::OrderTriggerPriceInvalid)
        } else if (self.order.order_type == ORDER_TYPE_STOP_LOSS || self.order.order_type == ORDER_TYPE_TAKE_PROFIT) && self.order.order_expiry == NIL_ORDER_EXPIRY {
            Err(TxError::OrderExpiryInvalid)
        } else if (self.order.order_type == ORDER_TYPE_STOP_LOSS_LIMIT || self.order.order_type == ORDER_TYPE_TAKE_PROFIT_LIMIT) && !(self.order.market_index >= MIN_PERPS_MARKET_INDEX && self.order.market_index <= MAX_PERPS_MARKET_INDEX) {
            Err(TxError::OrderTypeInvalid)
        } else if (self.order.order_type == ORDER_TYPE_STOP_LOSS_LIMIT || self.order.order_type == ORDER_TYPE_TAKE_PROFIT_LIMIT) && self.order.trigger_price == NIL_ORDER_TRIGGER_PRICE {
            Err(TxError::OrderTriggerPriceInvalid)
        } else if (self.order.order_type == ORDER_TYPE_STOP_LOSS_LIMIT || self.order.order_type == ORDER_TYPE_TAKE_PROFIT_LIMIT) && self.order.order_expiry == NIL_ORDER_EXPIRY {
            Err(TxError::OrderExpiryInvalid)
        } else if self.order.order_type == ORDER_TYPE_TWAP && self.order.time_in_force != TIF_GOOD_TILL_TIME {
            Err(TxError::OrderTimeInForceInvalid)
        } else if self.order.order_type == ORDER_TYPE_TWAP && self.order.order_expiry == NIL_ORDER_EXPIRY {
            Err(TxError::OrderExpiryInvalid)
        } else if self.order.order_type > ORDER_TYPE_TWAP {
            Err(TxError::OrderTypeInvalid)
        } else if (self.order.trigger_price < MIN_ORDER_TRIGGER_PRICE || self.order.trigger_price > MAX_ORDER_TRIGGER_PRICE) && self.order.trigger_price != NIL_ORDER_TRIGGER_PRICE {
            Err(TxError::OrderTriggerPriceInvalid)
        } else if self.nonce < MIN_NONCE {
            Err(TxError::NonceTooLow)
        } else if self.expired_at < 0 || self.expired_at > MAX_TIMESTAMP {
            Err(TxError::ExpiredAtInvalid)
        } else {
            Ok(())
        }
    }

    open spec fn hash_result(&self, chain_id: u32) -> Result<Seq<u8>, TxError> {
        Ok(aggregate_bytes(self.attributes, sponge_hash(create_order_tx_elements(*self, chain_id), 5)))
    }

    fn get_tx_type(&self) -> (r: u8) {
        TX_TYPE_L2_CREATE_ORDER
    }

    fn get_tx_hash(&self) -> (r: Option<&str>) {
        Some(self.signed_hash.as_str())
    }

    fn validate(&self) -> (r: Result<(), TxError>) {
        match self.attributes.validate() {
            Err(e) => {
                return Err(e);
            },
            Ok(_) => {},
        }
        if self.account_index < MIN_ACCOUNT_INDEX {
            return Err(TxError::AccountIndexTooLow);
        }
        if self.account_index > MAX_ACCOUNT_INDEX {
            return Err(TxError::AccountIndexTooHigh);
        }
        if self.api_key_index < MIN_API_KEY_INDEX {
            return Err(TxError::ApiKeyIndexTooLow);
        }
        if self.api_key_index > MAX_API_KEY_INDEX {
            return Err(TxError::ApiKeyIndexTooHigh);
        }
        let order = &self.order;
        let is_spot = order.market_index >= MIN_SPOT_MARKET_INDEX && order.market_index <= MAX_SPOT_MARKET_INDEX;
        let is_perps = order.market_index >= MIN_PERPS_MARKET_INDEX && order.market_index <= MAX_PERPS_MARKET_INDEX;
        if !is_spot && !is_perps {
            return Err(TxError::InvalidMarketIndex);
        }
        if order.client_order_index != NIL_CLIENT_ORDER_INDEX {
            if order.client_order_index < MIN_CLIENT_ORDER_INDEX {
                return Err(TxError::ClientOrderIndexTooLow);
            }
            if order.client_order_index > MAX_CLIENT_ORDER_INDEX {
                return Err(TxError::ClientOrderIndexTooHigh);
            }
        }
        if order.reduce_only != 1 && order.base_amount == NIL_ORDER_BASE_AMOUNT {
            return Err(TxError::BaseAmountTooLow);
        }
        if order.base_amount != NIL_ORDER_BASE_AMOUNT && order.base_amount < MIN_ORDER_BASE_AMOUNT {
            return Err(TxError::BaseAmountTooLow);
        }
        if order.base_amount > MAX_ORDER_BASE_AMOUNT {
            return Err(TxError::BaseAmountTooHigh);
        }
        if order.price < MIN_ORDER_PRICE {
            return Err(TxError::PriceTooLow);
        }
        if order.price > MAX_ORDER_PRICE {
            return Err(TxError::PriceTooHigh);
        }
        if order.is_ask != 0 && order.is_ask != 1 {
            return Err(TxError::IsAskInvalid);
        }
        let valid_tif = order.time_in_force == TIF_IMMEDIATE_OR_CANCEL || order.time_in_force == TIF_GOOD_TILL_TIME
            || order.time_in_force == TIF_POST_ONLY;
        if !valid_tif {
            return Err(TxError::OrderTimeInForceInvalid);
        }
        if (order.reduce_only != 0 && order.reduce_only != 1) || (is_spot && order.reduce_only == 1) {
            return Err(TxError::OrderReduceOnlyInvalid);
        }
        if (order.order_expiry < MIN_ORDER_EXPIRY || order.order_expiry > MAX_ORDER_EXPIRY) && order.order_expiry
            != NIL_ORDER_EXPIRY {
            return Err(TxError::OrderExpiryInvalid);
        }
        let ot = order.order_type;
        if ot == ORDER_TYPE_MARKET {
            if order.time_in_force != TIF_IMMEDIATE_OR_CANCEL {
                return Err(TxError::OrderTimeInForceInvalid);
            }
            if order.order_expiry != NIL_ORDER_EXPIRY {
                return Err(TxError::OrderExpiryInvalid);
            }
            if order.trigger_price != NIL_ORDER_TRIGGER_PRICE {
                return Err(TxError::OrderTriggerPriceInvalid);
            }
        } else if ot == ORDER_TYPE_LIMIT {
            if order.trigger_price != NIL_ORDER_TRIGGER_PRICE {
                return Err(TxError::OrderTriggerPriceInvalid);
            }
        } else if ot == ORDER_TYPE_STOP_LOSS || ot == ORDER_TYPE_TAKE_PROFIT {
            if !is_perps {
                return Err(TxError::OrderTypeInvalid);
            }
            if order.time_in_force != TIF_IMMEDIATE_OR_CANCEL {
                return Err(TxError::OrderTimeInForceInvalid);
            }
            if order.trigger_price == NIL_ORDER_TRIGGER_PRICE {
                return Err(TxError::OrderTriggerPriceInvalid);
            }
            if order.order_expiry == NIL_ORDER_EXPIRY {
                return Err(TxError::OrderExpiryInvalid);
            }
        } else if ot == ORDER_TYPE_STOP_LOSS_LIMIT || ot == ORDER_TYPE_TAKE_PROFIT_LIMIT {
            if !is_perps {
                return Err(TxError::OrderTypeInvalid);
            }
            if order.trigger_price == NIL_ORDER_TRIGGER_PRICE {
                return Err(TxError::OrderTriggerPriceInvalid);
            }
            if order.order_expiry == NIL_ORDER_EXPIRY {
                return Err(TxError::OrderExpiryInvalid);
            }
        } else if ot == ORDER_TYPE_TWAP {
            if order.time_in_force != TIF_GOOD_TILL_TIME {
                return Err(TxError::OrderTimeInForceInvalid);
            }
            if order.order_expiry == NIL_ORDER_EXPIRY {
                return Err(TxError::OrderExpiryInvalid);
            }
        } else {
            return Err(TxError::OrderTypeInvalid);
        }
        if (order.trigger_price < MIN_ORDER_TRIGGER_PRICE || order.trigger_price > MAX_ORDER_TRIGGER_PRICE)
            && order.trigger_price != NIL_ORDER_TRIGGER_PRICE {
            return Err(TxError::OrderTriggerPriceInvalid);
        }
        if self.nonce < MIN_NONCE {
            return Err(TxError::NonceTooLow);
        }
        if self.expired_at < 0 || self.expired_at > MAX_TIMESTAMP {
            return Err(TxError::ExpiredAtInvalid);
        }
        Ok(())
    }

    fn hash(&self, chain_id: u32) -> (r: Result<Vec<u8>, TxError>)
        ensures
            r matches Ok(v) && v@ == aggregate_bytes(
                self.attributes,
                sponge_hash(
                    seq![
                        fe(chain_id as u64),
                        fe(TX_TYPE_L2_CREATE_ORDER as u64),
                        fe(self.nonce as u64),
                        fe(self.expired_at as u64),
                        fe(self.account_index as u64),
                        fe(self.api_key_index as u64),
                        fe(self.order.market_index as u64),
                        fe(self.order.client_order_index as u64),
                        fe(self.order.base_amount as u64),
                        fe(self.order.price as u64),
                        fe(self.order.is_ask as u64),
                        fe(self.order.order_type as u64),
                        fe(self.order.time_in_force as u64),
                        fe(self.order.reduce_only as u64),
                        fe(self.order.trigger_price as u64),
                        fe(self.order.order_expiry as u64),
                    ],
                    5,
                ),
            ),
    {
        let mut elems: Vec<GoldilocksField> = Vec::new();
        push_elem(&mut elems, chain_id as u64);
        push_elem(&mut elems, TX_TYPE_L2_CREATE_ORDER as u64);
        push_elem(&mut elems, self.nonce as u64);
        push_elem(&mut elems, self.expired_at as u64);
        push_elem(&mut elems, self.account_index as u64);
        push_elem(&mut elems, self.api_key_index as u64);
        push_elem(&mut elems, self.order.market_index as u64);
        push_elem(&mut elems, self.order.client_order_index as u64);
        push_elem(&mut elems, self.order.base_amount as u64);
        push_elem(&mut elems, self.order.price as u64);
        push_elem(&mut elems, self.order.is_ask as u64);
        push_elem(&mut elems, self.order.order_type as u64);
        push_elem(&mut elems, self.order.time_in_force as u64);
        push_elem(&mut elems, self.order.reduce_only as u64);
        push_elem(&mut elems, self.order.trigger_price as u64);
        push_elem(&mut elems, self.order.order_expiry as u64);
        assert(elems_view(elems@) =~= create_order_tx_elements(*self, chain_id));
        finish_hash(&elems, &self.attributes)
    }
}

/// The same order creation on the other side of the book.
pub open spec fn with_side(tx: CreateOrderTx, is_ask: u8) -> CreateOrderTx {
    CreateOrderTx { order: OrderInfo { is_ask, ..tx.order }, ..tx }
}

/// The side of an order is free: a buy (is_ask = 0) and a sell (is_ask = 1)
/// with the same other fields are accepted or refused alike, with the same
/// error.
pub proof fn lemma_create_order_side_is_free(tx: CreateOrderTx)
    ensures
        with_side(tx, 0).validation() == with_side(tx, 1).validation(),
{
}

/// `IsAskInvalid` is returned only for a side above 1, and for every side
/// above 1 validation fails.
pub proof fn lemma_create_order_is_ask_invalid(tx: CreateOrderTx)
    ensures
        tx.validation() == Err::<(), TxError>(TxError::IsAskInvalid) ==> tx.order.is_ask > 1,
        tx.order.is_ask > 1 ==> tx.validation() is Err,
{
}

/// When an order creation is accepted: exactly when its attributes are valid,
/// every field lies in its range, and the order type's rules on time in force,
/// expiry and trigger price hold.
pub proof fn lemma_create_order_accepted(tx: CreateOrderTx)
    ensures
        tx.validation() is Ok <==> {
            let o = tx.order;
            let spot = MIN_SPOT_MARKET_INDEX <= o.market_index <= MAX_SPOT_MARKET_INDEX;
            let perps = MIN_PERPS_MARKET_INDEX <= o.market_index <= MAX_PERPS_MARKET_INDEX;
            let conditional = o.order_type == ORDER_TYPE_STOP_LOSS || o.order_type == ORDER_TYPE_TAKE_PROFIT;
            let conditional_limit = o.order_type == ORDER_TYPE_STOP_LOSS_LIMIT || o.order_type
                == ORDER_TYPE_TAKE_PROFIT_LIMIT;
            &&& attributes_validation(tx.attributes) is Ok
            &&& MIN_ACCOUNT_INDEX <= tx.account_index <= MAX_ACCOUNT_INDEX
            &&& MIN_API_KEY_INDEX <= tx.api_key_index <= MAX_API_KEY_INDEX
            &&& (spot || perps)
            &&& (o.client_order_index == NIL_CLIENT_ORDER_INDEX || MIN_CLIENT_ORDER_INDEX <= o.client_order_index
                <= MAX_CLIENT_ORDER_INDEX)
            &&& (o.base_amount == NIL_ORDER_BASE_AMOUNT ==> o.reduce_only == 1)
            &&& (o.base_amount == NIL_ORDER_BASE_AMOUNT || MIN_ORDER_BASE_AMOUNT <= o.base_amount)
            &&& o.base_amount <= MAX_ORDER_BASE_AMOUNT
            &&& MIN_ORDER_PRICE <= o.price <= MAX_ORDER_PRICE
            &&& o.is_ask <= 1
            &&& (o.time_in_force == TIF_IMMEDIATE_OR_CANCEL || o.time_in_force == TIF_GOOD_TILL_TIME
                || o.time_in_force == TIF_POST_ONLY)
            &&& o.reduce_only <= 1
            &&& !(spot && o.reduce_only == 1)
            &&& (o.order_expiry == NIL_ORDER_EXPIRY || MIN_ORDER_EXPIRY <= o.order_expiry <= MAX_ORDER_EXPIRY)
            &&& (o.order_type == ORDER_TYPE_MARKET ==> o.time_in_force == TIF_IMMEDIATE_OR_CANCEL
                && o.order_expiry == NIL_ORDER_EXPIRY && o.trigger_price == NIL_ORDER_TRIGGER_PRICE)
            &&& (o.order_type == ORDER_TYPE_LIMIT ==> o.trigger_price == NIL_ORDER_TRIGGER_PRICE)
            &&& (conditional ==> perps && o.time_in_force == TIF_IMMEDIATE_OR_CANCEL && o.trigger_price
                != NIL_ORDER_TRIGGER_PRICE && o.order_expiry != NIL_ORDER_EXPIRY)
            &&& (conditional_limit ==> perps && o.trigger_price != NIL_ORDER_TRIGGER_PRICE && o.order_expiry
                != NIL_ORDER_EXPIRY)
            &&& (o.order_type == ORDER_TYPE_TWAP ==> o.time_in_force == TIF_GOOD_TILL_TIME && o.order_expiry
                != NIL_ORDER_EXPIRY)
            &&& o.order_type <= ORDER_TYPE_TWAP
            &&& (o.trigger_price == NIL_ORDER_TRIGGER_PRICE || MIN_ORDER_TRIGGER_PRICE <= o.trigger_price
                <= MAX_ORDER_TRIGGER_PRICE)
            &&& tx.nonce >= MIN_NONCE
            &&& 0 <= tx.expired_at <= MAX_TIMESTAMP
        },
{
}

} // verus!
