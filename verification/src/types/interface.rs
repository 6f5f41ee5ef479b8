use vstd::prelude::*;
use crate::types::errors::TxError;

verus! {

/// The common order fields shared by order transactions.
#[derive(Debug, Clone, Default)]
pub struct OrderInfo {
    pub market_index: i16,
    pub client_order_index: i64,
    pub base_amount: i64,
    pub price: u32,
    pub is_ask: u8,
    pub order_type: u8,
    pub time_in_force: u8,
    pub reduce_only: u8,
    pub trigger_price: u32,
    pub order_expiry: i64,
}

/// What every transaction offers: its type, its signed hash, its validation
/// rule and the bytes that get signed.
pub trait TxInfo {
    /// The transaction type id.
    spec fn tx_type_spec(&self) -> u8;

    /// The hash recorded after signing.
    spec fn signed_hash_spec(&self) -> Seq<char>;

    /// The first rule the transaction breaks, or Ok.
    spec fn validation(&self) -> Result<(), TxError>;

    /// The bytes to sign for a chain, or why there are none.
    spec fn hash_result(&self, chain_id: u32) -> Result<Seq<u8>, TxError>;

    fn get_tx_type(&self) -> (r: u8)
        ensures
            r == self.tx_type_spec(),
    ;

    fn get_tx_hash(&self) -> (r: Option<&str>)
        ensures
            r matches Some(s) && s@ == self.signed_hash_spec(),
    ;

    fn validate(&self) -> (r: Result<(), TxError>)
        ensures
            r == self.validation(),
    ;

    fn hash(&self, chain_id: u32) -> (r: Result<Vec<u8>, TxError>)
        ensures
            match r {
                Ok(v) => self.hash_result(chain_id) == Ok::<Seq<u8>, TxError>(v@),
                Err(e) => self.hash_result(chain_id) == Err::<Seq<u8>, TxError>(e),
            },
    ;
}

} // verus!
