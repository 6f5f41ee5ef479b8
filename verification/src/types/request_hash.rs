use vstd::prelude::*;
use crate::field::goldilocks::GoldilocksField;
use crate::field::quintic::{Fp5, fp5_le_bytes};
use crate::hash::poseidon2::{hash_to_quintic_extension, sponge_hash, elems_view};
use crate::types::attributes::{fe, push_elem};

verus! {

/// The 40-byte Poseidon2 hash signed for an order creation.
pub fn hash_create_order(chain_id: u32, account_index: i64, api_key_index: u8, market_index: i16, client_order_index: i64, base_amount: i64, price: u32, is_ask: u8, order_type: u8, time_in_force: u8, reduce_only: u8, trigger_price: u32, order_expiry: i64, nonce: i64, expired_at: i64) -> (r: [u8; 40])
    ensures
        r@ == fp5_le_bytes(
            sponge_hash(
                seq![
                    fe(chain_id as u64),
                    fe(14),
                    fe(nonce as u64),
                    fe(expired_at as u64),
                    fe(account_index as u64),
                    fe(api_key_index as u64),
                    fe(market_index as u64),
                    fe(client_order_index as u64),
                    fe(base_amount as u64),
                    fe(price as u64),
                    fe(is_ask as u64),
                    fe(order_type as u64),
                    fe(time_in_force as u64),
                    fe(reduce_only as u64),
                    fe(trigger_price as u64),
                    fe(order_expiry as u64),
                ],
                5,
            ),
        ),
{
    let mut elems: Vec<GoldilocksField> = Vec::new();
    push_elem(&mut elems, chain_id as u64);
    push_elem(&mut elems, 14u64);
    push_elem(&mut elems, nonce as u64);
    push_elem(&mut elems, expired_at as u64);
    push_elem(&mut elems, account_index as u64);
    push_elem(&mut elems, api_key_index as u64);
    push_elem(&mut elems, market_index as u64);
    push_elem(&mut elems, client_order_index as u64);
    push_elem(&mut elems, base_amount as u64);
    push_elem(&mut elems, price as u64);
    push_elem(&mut elems, is_ask as u64);
    push_elem(&mut elems, order_type as u64);
    push_elem(&mut elems, time_in_force as u64);
    push_elem(&mut elems, reduce_only as u64);
    push_elem(&mut elems, trigger_price as u64);
    push_elem(&mut elems, order_expiry as u64);
    assert(elems_view(elems@) =~= seq![
        fe(chain_id as u64),
        fe(14),
        fe(nonce as u64),
        fe(expired_at as u64),
        fe(account_index as u64),
        fe(api_key_index as u64),
        fe(market_index as u64),
        fe(client_order_index as u64),
        fe(base_amount as u64),
        fe(price as u64),
        fe(is_ask as u64),
        fe(order_type as u64),
        fe(time_in_force as u64),
        fe(reduce_only as u64),
        fe(trigger_price as u64),
        fe(order_expiry as u64),
    ]);
    hash_to_quintic_extension(elems.as_slice()).to_bytes_le()
}

/// The 40-byte Poseidon2 hash signed for an order cancellation.
pub fn hash_cancel_order(chain_id: u32, account_index: i64, api_key_index: u8, market_index: i16, order_index: i64, nonce: i64, expired_at: i64) -> (r: [u8; 40])
    ensures
        r@ == fp5_le_bytes(
            sponge_hash(
                seq![
                    fe(chain_id as u64),
                    fe(15),
                    fe(nonce as u64),
                    fe(expired_at as u64),
                    fe(account_index as u64),
                    fe(api_key_index as u64),
                    fe(market_index as u64),
                    fe(order_index as u64),
                ],
                5,
            ),
        ),
{
    let mut elems: Vec<GoldilocksField> = Vec::new();
    push_elem(&mut elems, chain_id as u64);
    push_elem(&mut elems, 15u64);
    push_elem(&mut elems, nonce as u64);
    push_elem(&mut elems, expired_at as u64);
    push_elem(&mut elems, account_index as u64);
    push_elem(&mut elems, api_key_index as u64);
    push_elem(&mut elems, market_index as u64);
    push_elem(&mut elems, order_index as u64);
    assert(elems_view(elems@) =~= seq![
        fe(chain_id as u64),
        fe(15),
        fe(nonce as u64),
        fe(expired_at as u64),
        fe(account_index as u64),
        fe(api_key_index as u64),
        fe(market_index as u64),
        fe(order_index as u64),
    ]);
    hash_to_quintic_extension(elems.as_slice()).to_bytes_le()
}

/// The 40-byte Poseidon2 hash signed for a transfer; amounts are split into 32-bit halves.
pub fn hash_transfer(chain_id: u32, from_index: i64, api_key_index: u8, to_index: i64, asset_index: i16, from_route: u8, to_route: u8, amount: i64, usdc_fee: i64, nonce: i64, expired_at: i64) -> (r: [u8; 40])
    ensures
        r@ == fp5_le_bytes(
            sponge_hash(
                seq![
                    fe(chain_id as u64),
                    fe(12),
                    fe(nonce as u64),
                    fe(expired_at as u64),
                    fe(from_index as u64),
                    fe(api_key_index as u64),
                    fe(to_index as u64),
                    fe(asset_index as u64),
                    fe(from_route as u64),
                    fe(to_route as u64),
                    fe((amount as u64) & 0xFFFFFFFF),
                    fe((amount as u64) >> 32u64),
                    fe((usdc_fee as u64) & 0xFFFFFFFF),
                    fe((usdc_fee as u64) >> 32u64),
                ],
                5,
            ),
        ),
{
    let mut elems: Vec<GoldilocksField> = Vec::new();
    push_elem(&mut elems, chain_id as u64);
    push_elem(&mut elems, 12u64);
    push_elem(&mut elems, nonce as u64);
    push_elem(&mut elems, expired_at as u64);
    push_elem(&mut elems, from_index as u64);
    push_elem(&mut elems, api_key_index as u64);
    push_elem(&mut elems, to_index as u64);
    push_elem(&mut elems, asset_index as u64);
    push_elem(&mut elems, from_route as u64);
    push_elem(&mut elems, to_route as u64);
    push_elem(&mut elems, (amount as u64) & 0xFFFFFFFF);
    push_elem(&mut elems, (amount as u64) >> 32u64);
    push_elem(&mut elems, (usdc_fee as u64) & 0xFFFFFFFF);
    push_elem(&mut elems, (usdc_fee as u64) >> 32u64);
    assert(elems_view(elems@) =~= seq![
        fe(chain_id as u64),
        fe(12),
        fe(nonce as u64),
        fe(expired_at as u64),
        fe(from_index as u64),
        fe(api_key_index as u64),
        fe(to_index as u64),
        fe(asset_index as u64),
        fe(from_route as u64),
        fe(to_route as u64),
        fe((amount as u64) & 0xFFFFFFFF),
        fe((amount as u64) >> 32u64),
        fe((usdc_fee as u64) & 0xFFFFFFFF),
        fe((usdc_fee as u64) >> 32u64),
    ]);
    hash_to_quintic_extension(elems.as_slice()).to_bytes_le()
}

/// The Poseidon2 hash of a limit buy that is good till `order_expiry`, with
/// the nonce as its client order index and no trigger: the order that
/// signing is timed on.
pub fn build_create_order_hash(chain_id: u32, nonce: i64, account_index: i64, api_key_index: u8, market_index: u8, base_amount: i64, price: u32, order_expiry: i64) -> (r: Fp5)
    ensures
        r@ == sponge_hash(
            seq![
                fe(chain_id as u64),
                fe(14),
                fe(nonce as u64),
                fe(order_expiry as u64),
                fe(account_index as u64),
                fe(api_key_index as u64),
                fe(market_index as u64),
                fe(nonce as u64),
                fe(base_amount as u64),
                fe(price as u64),
                fe(0),
                fe(0),
                fe(1),
                fe(0),
                fe(0),
                fe(order_expiry as u64),
            ],
            5,
        ),
{
    let mut elems: Vec<GoldilocksField> = Vec::new();
    push_elem(&mut elems, chain_id as u64);
    push_elem(&mut elems, 14u64);
    push_elem(&mut elems, nonce as u64);
    push_elem(&mut elems, order_expiry as u64);
    push_elem(&mut elems, account_index as u64);
    push_elem(&mut elems, api_key_index as u64);
    push_elem(&mut elems, market_index as u64);
    push_elem(&mut elems, nonce as u64);
    push_elem(&mut elems, base_amount as u64);
    push_elem(&mut elems, price as u64);
    push_elem(&mut elems, 0u64);
    push_elem(&mut elems, 0u64);
    push_elem(&mut elems, 1u64);
    push_elem(&mut elems, 0u64);
    push_elem(&mut elems, 0u64);
    push_elem(&mut elems, order_expiry as u64);
    assert(elems_view(elems@) =~= seq![
        fe(chain_id as u64),
        fe(14),
        fe(nonce as u64),
        fe(order_expiry as u64),
        fe(account_index as u64),
        fe(api_key_index as u64),
        fe(market_index as u64),
        fe(nonce as u64),
        fe(base_amount as u64),
        fe(price as u64),
        fe(0),
        fe(0),
        fe(1),
        fe(0),
        fe(0),
        fe(order_expiry as u64),
    ]);
    hash_to_quintic_extension(elems.as_slice())
}

} // verus!
