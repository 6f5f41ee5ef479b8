use vstd::prelude::*;
use crate::field::goldilocks::GoldilocksField;
use crate::hash::poseidon2::{
    sponge_hash, elems_view, hash_no_pad, hash_n_to_one, empty_hash_out, hash_out_view, n_to_one, HashOut,
};
use crate::types::constants::{
    TX_TYPE_L2_CREATE_GROUPED_ORDERS, MIN_ACCOUNT_INDEX, MAX_ACCOUNT_INDEX, MIN_API_KEY_INDEX, MAX_API_KEY_INDEX,
    MAX_GROUPED_ORDER_COUNT, MIN_NONCE, MAX_TIMESTAMP,
};
use crate::types::errors::TxError;
use crate::types::interface::{OrderInfo, TxInfo};
use crate::types::attributes::{L2TxAttributes, attributes_validation, aggregate_bytes, fe, push_elem, finish_hash};

verus! {

/// The ten field elements of an order.
pub open spec fn order_elements(o: OrderInfo) -> Seq<nat> {
    seq![
        fe(o.market_index as u64),
        fe(o.client_order_index as u64),
        fe(o.base_amount as u64),
        fe(o.price as u64),
        fe(o.is_ask as u64),
        fe(o.order_type as u64),
        fe(o.time_in_force as u64),
        fe(o.reduce_only as u64),
        fe(o.trigger_price as u64),
        fe(o.order_expiry as u64),
    ]
}

/// The four-element hash of an order.
pub open spec fn order_hash(o: OrderInfo) -> Seq<nat> {
    sponge_hash(order_elements(o), 4)
}

/// The hash of the first `k` orders: zero for none, the order hash for one,
/// else the previous aggregate combined with the next order hash.
pub open spec fn grouped_aggregate(orders: Seq<OrderInfo>, k: nat) -> Seq<nat>
    decreases k,
{
    if k == 0 {
        seq![0nat, 0nat, 0nat, 0nat]
    } else if k == 1 {
        order_hash(orders[0])
    } else {
        n_to_one(seq![grouped_aggregate(orders, (k - 1) as nat), order_hash(orders[k - 1])])
    }
}

/// The field elements hashed for a grouped order creation: the header,
/// then the aggregate of the order hashes.
pub open spec fn create_grouped_orders_tx_elements(tx: CreateGroupedOrdersTx, chain_id: u32) -> Seq<nat> {
    seq![
        fe(chain_id as u64),
        fe(TX_TYPE_L2_CREATE_GROUPED_ORDERS as u64),
        fe(tx.nonce as u64),
        fe(tx.expired_at as u64),
        fe(tx.account_index as u64),
        fe(tx.api_key_index as u64),
        fe(tx.grouping_type as u64),
    ] + grouped_aggregate(tx.orders@, tx.orders@.len())
}

/// A transaction creating a group of orders.
pub struct CreateGroupedOrdersTx {
    pub account_index: i64,
    pub api_key_index: u8,
    pub grouping_type: u8,
    pub orders: Vec<OrderInfo>,
    pub expired_at: i64,
    pub nonce: i64,
    pub sig: Vec<u8>,
    pub signed_hash: String,
    pub attributes: L2TxAttributes,
}

/// The hash of one order.
fn hash_order(order: &OrderInfo) -> (r: HashOut)
    ensures
        hash_out_view(r) == order_hash(*order),
{
    let input = [
        GoldilocksField(order.market_index as u64),
        GoldilocksField(order.client_order_index as u64),
        GoldilocksField(order.base_amount as u64),
        GoldilocksField(order.price as u64),
        GoldilocksField(order.is_ask as u64),
        GoldilocksField(order.order_type as u64),
        GoldilocksField(order.time_in_force as u64),
        GoldilocksField(order.reduce_only as u64),
        GoldilocksField(order.trigger_price as u64),
        GoldilocksField(order.order_expiry as u64),
    ];
    assert(elems_view(input@) =~= order_elements(*order));
    hash_no_pad(&input)
}

impl TxInfo for CreateGroupedOrdersTx {
    open spec fn tx_type_spec(&self) -> u8 {
        TX_TYPE_L2_CREATE_GROUPED_ORDERS
    }

    open spec fn signed_hash_spec(&self) -> Seq<char> {
        self.signed_hash@
    }

    open spec fn validation(&self) -> Result<(), TxError> {
        if attributes_validation(self.attributes) is Err {
            attributes_validation(self.attributes)
        } else if self.account_index < MIN_ACCOUNT_INDEX {
            Err(TxError::AccountIndexTooLow)
        } else if self.account_index > MAX_ACCOUNT_INDEX {
            Err(TxError::AccountIndexTooHigh)
        } else if self.api_key_index < MIN_API_KEY_INDEX {
            Err(TxError::ApiKeyIndexTooLow)
        } else if self.api_key_index > MAX_API_KEY_INDEX {
            Err(TxError::ApiKeyIndexTooHigh)
        } else if self.orders@.len() == 0 || (self.orders@.len() as i64) > MAX_GROUPED_ORDER_COUNT {
            Err(TxError::OrderGroupSizeInvalid)
        } else if self.nonce < MIN_NONCE {
            Err(TxError::NonceTooLow)
        } else if self.expired_at < 0 || self.expired_at > MAX_TIMESTAMP {
            Err(TxError::ExpiredAtInvalid)
        } else {
            Ok(())
        }
    }

    open spec fn hash_result(&self, chain_id: u32) -> Result<Seq<u8>, TxError> {
        Ok(aggregate_bytes(self.attributes, sponge_hash(create_grouped_orders_tx_elements(*self, chain_id), 5)))
    }

    fn get_tx_type(&self) -> (r: u8) {
        TX_TYPE_L2_CREATE_GROUPED_ORDERS
    }

    fn get_tx_hash(&self) -> (r: Option<&str>) {
        Some(self.signed_hash.as_str())
    }

    fn validate(&self) -> (r: Result<(), TxError>) {
        match self.attributes.validate() {
            Err(e) => {
                return Err(e);
            },
            Ok(_) => {},
        }
        if self.account_index < MIN_ACCOUNT_INDEX {
            return Err(TxError::AccountIndexTooLow);
        }
        if self.account_index > MAX_ACCOUNT_INDEX {
            return Err(TxError::AccountIndexTooHigh);
        }
        if self.api_key_index < MIN_API_KEY_INDEX {
            return Err(TxError::ApiKeyIndexTooLow);
        }
        if self.api_key_index > MAX_API_KEY_INDEX {
            return Err(TxError::ApiKeyIndexTooHigh);
        }
        if self.orders.len() == 0 || self.orders.len() as i64 > MAX_GROUPED_ORDER_COUNT {
            return Err(TxError::OrderGroupSizeInvalid);
        }
        if self.nonce < MIN_NONCE {
            return Err(TxError::NonceTooLow);
        }
        if self.expired_at < 0 || self.expired_at > MAX_TIMESTAMP {
            return Err(TxError::ExpiredAtInvalid);
        }
        Ok(())
    }

    fn hash(&self, chain_id: u32) -> (r: Result<Vec<u8>, TxError>)
        ensures
            r matches Ok(v) && v@ == aggregate_bytes(
                self.attributes,
                sponge_hash(
                    seq![
                        fe(chain_id as u64),
                        fe(TX_TYPE_L2_CREATE_GROUPED_ORDERS as u64),
                        fe(self.nonce as u64),
                        fe(self.expired_at as u64),
                        fe(self.account_index as u64),
                        fe(self.api_key_index as u64),
                        fe(self.grouping_type as u64),
                    ] + grouped_aggregate(self.orders@, self.orders@.len()),
                    5,
                ),
            ),
    {
        let mut elems: Vec<GoldilocksField> = Vec::new();
        push_elem(&mut elems, chain_id as u64);
        push_elem(&mut elems, TX_TYPE_L2_CREATE_GROUPED_ORDERS as u64);
        push_elem(&mut elems, self.nonce as u64);
        push_elem(&mut elems, self.expired_at as u64);
        push_elem(&mut elems, self.account_index as u64);
        push_elem(&mut elems, self.api_key_index as u64);
        push_elem(&mut elems, self.grouping_type as u64);
        let mut aggregated = empty_hash_out();
        for idx in 0..self.orders.len()
            invariant
                hash_out_view(aggregated) == grouped_aggregate(self.orders@, idx as nat),
        {
            let order_hash = hash_order(&self.orders[idx]);
            if idx == 0 {
                aggregated = order_hash;
            } else {
                let pair = [aggregated, order_hash];
                assert(pair@.map_values(|h: HashOut| hash_out_view(h)) =~= seq![
                    grouped_aggregate(self.orders@, idx as nat),
                    hash_out_view(order_hash),
                ]);
                aggregated = hash_n_to_one(&pair);
            }
        }
        push_elem(&mut elems, aggregated[0].0);
        push_elem(&mut elems, aggregated[1].0);
        push_elem(&mut elems, aggregated[2].0);
        push_elem(&mut elems, aggregated[3].0);
        assert(elems_view(elems@) =~= create_grouped_orders_tx_elements(*self, chain_id));
        finish_hash(&elems, &self.attributes)
    }
}

/// When a grouped order creation is accepted: exactly when its attributes are
/// valid, its account and key lie in range, it holds between one and
/// MAX_GROUPED_ORDER_COUNT orders, and nonce and expiry lie in range.
pub proof fn lemma_create_grouped_orders_accepted(tx: CreateGroupedOrdersTx)
    ensures
        tx.validation() is Ok <==> {
            &&& attributes_validation(tx.attributes) is Ok
            &&& MIN_ACCOUNT_INDEX <= tx.account_index <= MAX_ACCOUNT_INDEX
            &&& MIN_API_KEY_INDEX <= tx.api_key_index <= MAX_API_KEY_INDEX
            &&& tx.orders@.len() >= 1
            &&& (tx.orders@.len() as i64) <= MAX_GROUPED_ORDER_COUNT
            &&& tx.nonce >= MIN_NONCE
            &&& 0 <= tx.expired_at <= MAX_TIMESTAMP
        },
{
}

} // verus!
