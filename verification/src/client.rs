use vstd::prelude::*;
use vstd::string::StringExecFns;
use vstd::string::StrSliceExecFns;
use vstd::string::StringSliceAdditionalSpecFns;
use crate::codec::{
    base64_encode, base64_std, hex_encode, hex_lower, hex_decodable, hex_decoded, i64_to_decimal, decimal_int,
    without_hex_prefix,
};
use crate::curve::scalar::{group_order, limbs_value, bytes_limbs};
use crate::field::quintic::{fp5_le_bytes, fp5_bytes_view, fp5_bytes_canonical};
use crate::signature::schnorr::commitment;
use crate::signer::key_manager::{KeyManager, is_signature_bytes};

verus! {

/// Connection settings of the example programs.
pub struct Config {
    pub base_url: String,
    pub chain_id: u32,
    pub account_index: i64,
    pub api_key_index: u8,
    pub private_key_hex: String,
}

/// The text with every trailing '/' removed.
pub open spec fn trim_trailing_slashes(s: Seq<char>) -> Seq<char>
    decreases s.len(),
{
    if s.len() > 0 && s.last() == '/' {
        trim_trailing_slashes(s.drop_last())
    } else {
        s
    }
}

/// Where the HTTP API of an exchange node is reached, and the chain it signs
/// for.
pub struct ApiClient {
    pub base_url: String,
    pub chain_id: u32,
}

impl ApiClient {
    /// A client for `base_url` without its trailing slashes.
    pub fn new(base_url: &str, chain_id: u32) -> (r: Self)
        ensures
            r.base_url@ == trim_trailing_slashes(base_url@),
            r.chain_id == chain_id,
    {
        let n = base_url.unicode_len();
        let mut k = n;
        assert(base_url@.subrange(0, n as int) =~= base_url@);
        while k > 0 && base_url.get_char(k - 1) == '/'
            invariant
                k <= n,
                n == base_url@.len(),
                trim_trailing_slashes(base_url@.subrange(0, k as int)) == trim_trailing_slashes(base_url@),
            decreases k,
        {
            assert(base_url@.subrange(0, k as int).drop_last() =~= base_url@.subrange(0, k - 1));
            k = k - 1;
        }
        let kept = base_url.substring_char(0, k);
        assert(base_url@.subrange(0, n as int) =~= base_url@);
        ApiClient { base_url: String::from_str(kept), chain_id }
    }

    /// The URL that answers the next nonce of an API key.
    pub fn next_nonce_url(&self, account_index: i64, api_key_index: u8) -> (r: String)
        ensures
            r@ == self.base_url@ + "/api/v1/nextNonce?account_index="@ + decimal_int(account_index as int)
                + "&api_key_index="@ + decimal_int(api_key_index as int),
    {
        let path = "/api/v1/nextNonce?account_index=";
        let key = "&api_key_index=";
        self.base_url.clone().concat(path).concat(i64_to_decimal(account_index).as_str()).concat(key).concat(
            i64_to_decimal(api_key_index as i64).as_str(),
        )
    }

    /// The URL that takes one signed transaction.
    pub fn send_tx_url(&self) -> (r: String)
        ensures
            r@ == self.base_url@ + "/api/v1/sendTx"@,
    {
        self.base_url.clone().concat("/api/v1/sendTx")
    }

    /// The URL that takes a batch of signed transactions.
    pub fn send_tx_batch_url(&self) -> (r: String)
        ensures
            r@ == self.base_url@ + "/api/v1/sendTxBatch"@,
    {
        self.base_url.clone().concat("/api/v1/sendTxBatch")
    }
}

/// The nonce in a reply to a nonce request, or the error that it is
/// missing.
pub fn nonce_from_reply(nonce: Option<i64>) -> (r: Result<i64, String>)
    ensures
        nonce matches Some(n) ==> r == Ok::<i64, String>(n),
        nonce is None ==> (r matches Err(e) && e@ == "no nonce in response"@),
{
    match nonce {
        Some(n) => Ok(n),
        None => Err(String::from_str("no nonce in response")),
    }
}

/// The transaction hash in a reply to a submission; without one, the reply's
/// message, or else "code " and its code (0 when it has none).
pub fn tx_hash_from_reply(tx_hash: Option<String>, message: Option<String>, code: Option<u16>) -> (r: Result<
    String,
    String,
>)
    ensures
        tx_hash matches Some(h) ==> (r matches Ok(t) && t@ == h@),
        tx_hash is None ==> (message matches Some(m) ==> (r matches Err(e) && e@ == m@)),
        tx_hash is None && message is None ==> (r matches Err(e) && e@ == "code "@ + decimal_int(
            match code {
                Some(c) => c as int,
                None => 0int,
            },
        )),
{
    match tx_hash {
        Some(h) => Ok(h),
        None => match message {
            Some(m) => Err(m),
            None => {
                let c: u16 = match code {
                    Some(c) => c,
                    None => 0,
                };
                Err(String::from_str("code ").concat(i64_to_decimal(c as i64).as_str()))
            },
        },
    }
}

/// Signs hashes of transactions and writes the signatures in base64.
pub struct Signer {
    km: KeyManager,
}

impl Signer {
    /// The key it signs with.
    pub closed spec fn key(self) -> KeyManager {
        self.km
    }

    /// A signer for a key of 80 hexadecimal digits with an optional "0x"
    /// prefix; fails as `KeyManager::from_hex` does.
    pub fn new(hex_key: &str) -> (r: Result<Self, String>)
        ensures
            r is Ok <==> hex_decodable(without_hex_prefix(hex_key.spec_bytes())) && without_hex_prefix(
                hex_key.spec_bytes(),
            ).len() == 80,
            r matches Ok(s) ==> s.key().secret()@ == limbs_value(
                bytes_limbs(hex_decoded(without_hex_prefix(hex_key.spec_bytes()))),
            ) % group_order(),
            !hex_decodable(without_hex_prefix(hex_key.spec_bytes())) ==> (r matches Err(e) && e@.subrange(0, 12)
                == "hex decode: "@),
            hex_decodable(without_hex_prefix(hex_key.spec_bytes())) && without_hex_prefix(hex_key.spec_bytes()).len()
                != 80 ==> (r matches Err(e) && e@ == "expected 40 bytes, got "@ + decimal_int(
                (without_hex_prefix(hex_key.spec_bytes()).len() / 2) as int,
            )),
    {
        match KeyManager::from_hex(hex_key) {
            Ok(km) => Ok(Signer { km }),
            Err(e) => Err(e),
        }
    }

    /// The public key's 40 bytes in hexadecimal.
    pub fn public_key_hex(&self) -> (r: String)
        ensures
            r@ == hex_lower(fp5_le_bytes(commitment(self.key().secret().0@))),
    {
        let pk = self.km.public_key_bytes();
        hex_encode(pk.as_slice())
    }

    /// Signs a 40-byte hash and writes the 80-byte signature in standard
    /// base64; a hash that is not five canonical field elements is refused.
    pub fn sign_base64(&self, hash: &[u8; 40]) -> (r: Result<String, String>)
        ensures
            r is Ok <==> fp5_bytes_canonical(hash@),
            r matches Err(e) ==> e@ == "sign: "@ + "invalid hashed message: "@
                + "non-canonical Goldilocks element in Fp5 bytes"@,
            r matches Ok(t) ==> exists|b: Seq<u8>|
                is_signature_bytes(b, fp5_bytes_view(hash@), self.key().secret()@) && t@ == base64_std(b),
    {
        match self.km.sign(hash) {
            Ok(sig) => {
                let t = base64_encode(sig.as_slice());
                assert(is_signature_bytes(sig@, fp5_bytes_view(hash@), self.key().secret()@) && t@ == base64_std(
                    sig@,
                ));
                Ok(t)
            },
            Err(e) => Err(String::from_str("sign: ").concat(e.as_str())),
        }
    }
}

/// A signed order creation as the HTTP API takes it; `sig` is the base64
/// signature.
pub struct CreateOrderTx {
    pub account_index: i64,
    pub api_key_index: u8,
    pub market_index: i16,
    pub client_order_index: i64,
    pub base_amount: i64,
    pub price: u32,
    pub is_ask: u8,
    pub order_type: u8,
    pub time_in_force: u8,
    pub reduce_only: u8,
    pub trigger_price: u32,
    pub order_expiry: i64,
    pub expired_at: i64,
    pub nonce: i64,
    pub sig: String,
}

/// A signed order cancellation as the HTTP API takes it.
pub struct CancelOrderTx {
    pub account_index: i64,
    pub api_key_index: u8,
    pub market_index: i16,
    pub index: i64,
    pub expired_at: i64,
    pub nonce: i64,
    pub sig: String,
}

/// A signed transfer as the HTTP API takes it.
pub struct TransferTx {
    pub from_account_index: i64,
    pub api_key_index: u8,
    pub to_account_index: i64,
    pub asset_index: i16,
    pub from_route_type: u8,
    pub to_route_type: u8,
    pub amount: i64,
    pub usdc_fee: i64,
    pub memo: [u8; 32],
    pub expired_at: i64,
    pub nonce: i64,
    pub sig: String,
}

} // verus!
