use vstd::prelude::*;
use vstd::string::StringExecFns;
use vstd::string::StringSliceAdditionalSpecFns;
use crate::curve::scalar::{Scalar, group_order, limbs_value, bytes_limbs, limbs_le_bytes};
use crate::field::goldilocks::{GoldilocksField, modulus};
use crate::field::quintic::{Fp5, fp5_le_bytes, le_word, fp5_bytes_view, fp5_bytes_canonical};
use crate::hash::poseidon2::{hash_to_quintic_extension, sponge_hash, elems_view};
use crate::signature::schnorr::{sign_hashed_message, public_key_from_secret, signed_with, commitment, random_bytes_64, scalar_from_random_bytes, Signature};
use crate::codec::{
    hex_encode, hex_decode, i64_to_decimal, strip_hex_prefix, hex_lower, hex_decodable, hex_decoded, decimal_int,
    decimal_nat, without_hex_prefix,
};

verus! {

/// The 80 bytes of a signature: s then e.
pub open spec fn signature_bytes(sig: Signature) -> Seq<u8> {
    limbs_le_bytes(sig.s.0@) + limbs_le_bytes(sig.e.0@)
}

/// `b` is the byte form of a signature of `msg` under the secret `sk`.
pub open spec fn is_signature_bytes(b: Seq<u8>, msg: Seq<nat>, sk: int) -> bool {
    exists|sig: Signature| signed_with(sig, msg, sk) && b == signature_bytes(sig)
}

/// The text "deadline:account:key" that an auth token signs.
pub open spec fn auth_text(deadline: i64, account_index: i64, api_key_index: u8) -> Seq<char> {
    decimal_int(deadline as int) + seq![':'] + decimal_int(account_index as int) + seq![':'] + decimal_int(
        api_key_index as int,
    )
}

/// The character codes of a text, as field elements.
pub open spec fn char_codes(s: Seq<char>) -> Seq<nat> {
    s.map_values(|c: char| c as nat)
}

/// Decimal text is made of the characters 0 to 9.
proof fn lemma_decimal_nat_digits(n: nat)
    ensures
        forall|i: int| 0 <= i < decimal_nat(n).len() ==> '0' <= #[trigger] decimal_nat(n)[i] <= '9',
    decreases n,
{
    if n >= 10 {
        lemma_decimal_nat_digits(n / 10);
        let s = decimal_nat(n / 10);
        assert forall|i: int| 0 <= i < decimal_nat(n).len() implies '0' <= #[trigger] decimal_nat(n)[i] <= '9' by {
            if i < s.len() {
                assert(decimal_nat(n)[i] == s[i]);
            }
        }
    }
}

/// Decimal text of an integer is ASCII.
proof fn lemma_decimal_int_ascii(n: int)
    ensures
        forall|i: int| 0 <= i < decimal_int(n).len() ==> '\0' <= #[trigger] decimal_int(n)[i] <= '\u{7f}',
{
    if n < 0 {
        lemma_decimal_nat_digits((-n) as nat);
        assert forall|i: int| 0 <= i < decimal_int(n).len() implies '\0' <= #[trigger] decimal_int(n)[i] <= '\u{7f}' by {
            if i > 0 {
                assert(decimal_int(n)[i] == decimal_nat((-n) as nat)[i - 1]);
            }
        }
    } else {
        lemma_decimal_nat_digits(n as nat);
    }
}

/// Decodes 80 hexadecimal digits into the 40 bytes of a key.
fn decode_key_hex(d: &[u8]) -> (r: Result<[u8; 40], String>)
    ensures
        r is Ok <==> hex_decodable(d@) && d@.len() == 80,
        r matches Ok(arr) ==> arr@ == hex_decoded(d@),
        !hex_decodable(d@) ==> (r matches Err(e) && e@.subrange(0, 12) == "hex decode: "@),
        hex_decodable(d@) && d@.len() != 80 ==> (r matches Err(e) && e@ == "expected 40 bytes, got "@ + decimal_int(
            (d@.len() / 2) as int,
        )),
{
    match hex_decode(d) {
        Err(e) => {
            let msg = String::from_str("hex decode: ").concat(e.as_str());
            proof {
                reveal_strlit("hex decode: ");
                assert(msg@.subrange(0, 12) =~= "hex decode: "@);
            }
            Err(msg)
        },
        Ok(bytes) => {
            if bytes.len() != 40 {
                assert(bytes@.len() == d@.len() / 2);
                assert(d@.len() == d.len());
                assert(d.len() <= usize::MAX);
                assert(usize::MAX == 0xFFFF_FFFF || usize::MAX == 0xFFFF_FFFF_FFFF_FFFF);
                assert(bytes.len() <= i64::MAX);
                let n = bytes.len() as i64;
                return Err(String::from_str("expected 40 bytes, got ").concat(i64_to_decimal(n).as_str()));
            }
            let mut arr = [0u8; 40];
            for i in 0..40
                invariant
                    bytes@.len() == 40,
                    forall|k: int| 0 <= k < i ==> #[trigger] arr@[k] == bytes@[k],
            {
                arr[i] = bytes[i];
            }
            assert(arr@ =~= bytes@);
            Ok(arr)
        },
    }
}

/// Holds a secret scalar below n and signs with it.
pub struct KeyManager {
    secret_key: Scalar,
}

impl KeyManager {
    #[verifier::type_invariant]
    spec fn inv(self) -> bool {
        self.secret_key@ < group_order()
    }

    /// The secret scalar.
    pub closed spec fn secret(self) -> Scalar {
        self.secret_key
    }

    /// Creates a key from 40 little-endian bytes, reduced mod n.
    pub fn from_bytes(bytes: &[u8; 40]) -> (r: Self)
        ensures
            r.secret()@ == limbs_value(bytes_limbs(bytes@)) % group_order(),
            limbs_value(bytes_limbs(bytes@)) < group_order() ==> r.secret().0@ == bytes_limbs(bytes@),
    {
        let s = Scalar::from_bytes_le(bytes);
        proof {
            vstd::arithmetic::div_mod::lemma_mod_bound(limbs_value(bytes_limbs(bytes@)), group_order());
        }
        Self { secret_key: s }
    }

    /// Creates a key from 80 hexadecimal digits, with an optional "0x"
    /// prefix.
    pub fn from_hex(hex_str: &str) -> (r: Result<Self, String>)
        ensures
            r is Ok <==> hex_decodable(without_hex_prefix(hex_str.spec_bytes())) && without_hex_prefix(
                hex_str.spec_bytes(),
            ).len() == 80,
            r matches Ok(km) ==> km.secret()@ == limbs_value(
                bytes_limbs(hex_decoded(without_hex_prefix(hex_str.spec_bytes()))),
            ) % group_order(),
            !hex_decodable(without_hex_prefix(hex_str.spec_bytes())) ==> (r matches Err(e) && e@.subrange(0, 12)
                == "hex decode: "@),
            hex_decodable(without_hex_prefix(hex_str.spec_bytes())) && without_hex_prefix(hex_str.spec_bytes()).len()
                != 80 ==> (r matches Err(e) && e@ == "expected 40 bytes, got "@ + decimal_int(
                (without_hex_prefix(hex_str.spec_bytes()).len() / 2) as int,
            )),
    {
        let b = strip_hex_prefix(hex_str.as_bytes());
        match decode_key_hex(b) {
            Ok(arr) => Ok(Self::from_bytes(&arr)),
            Err(e) => Err(e),
        }
    }

    /// Creates a key from 40 random bytes (of 64 drawn), reduced mod n.
    pub fn generate() -> (r: Self)
        ensures
            exists|b: Seq<u8>|
                b.len() == 64 && r.secret()@ == limbs_value(bytes_limbs(b.subrange(0, 40))) % group_order(),
            r.secret()@ < group_order(),
    {
        let bytes = random_bytes_64();
        let s = scalar_from_random_bytes(&bytes);
        Self { secret_key: s }
    }

    /// The public key, encoded as 40 bytes.
    pub fn public_key_bytes(&self) -> (r: [u8; 40])
        ensures
            r@ == fp5_le_bytes(commitment(self.secret().0@)),
    {
        public_key_from_secret(&self.secret_key).to_bytes_le()
    }

    /// The private key as 40 little-endian bytes.
    pub fn private_key_bytes(&self) -> (r: [u8; 40])
        ensures
            r@ == limbs_le_bytes(self.secret().0@),
    {
        self.secret_key.to_bytes_le()
    }

    /// Signs a hashed message given as 40 little-endian bytes.
    pub fn sign(&self, hashed_message: &[u8; 40]) -> (r: Result<[u8; 80], String>)
        ensures
            r is Ok <==> fp5_bytes_canonical(hashed_message@),
            r matches Err(e) ==> e@ == "invalid hashed message: "@ + "non-canonical Goldilocks element in Fp5 bytes"@,
            r matches Ok(b) ==> is_signature_bytes(b@, fp5_bytes_view(hashed_message@), self.secret()@),
    {
        proof {
            use_type_invariant(self);
        }
        match Fp5::from_bytes_le(hashed_message.as_slice()) {
            Err(e) => Err(String::from_str("invalid hashed message: ").concat(e)),
            Ok(msg) => {
                proof {
                    assert(msg@ =~= fp5_bytes_view(hashed_message@)) by {
                        vstd::arithmetic::div_mod::lemma_small_mod(le_word(hashed_message@, 0) as nat, modulus());
                        vstd::arithmetic::div_mod::lemma_small_mod(le_word(hashed_message@, 1) as nat, modulus());
                        vstd::arithmetic::div_mod::lemma_small_mod(le_word(hashed_message@, 2) as nat, modulus());
                        vstd::arithmetic::div_mod::lemma_small_mod(le_word(hashed_message@, 3) as nat, modulus());
                        vstd::arithmetic::div_mod::lemma_small_mod(le_word(hashed_message@, 4) as nat, modulus());
                    }
                }
                let sig = sign_hashed_message(&msg, &self.secret_key);
                let b = sig.to_bytes();
                assert(signed_with(sig, fp5_bytes_view(hashed_message@), self.secret()@) && b@ == signature_bytes(sig));
                Ok(b)
            },
        }
    }

    /// Signs a message already given as a quintic element.
    pub fn sign_fp5(&self, msg: &Fp5) -> (r: [u8; 80])
        ensures
            is_signature_bytes(r@, msg@, self.secret()@),
    {
        proof {
            use_type_invariant(self);
        }
        let sig = sign_hashed_message(msg, &self.secret_key);
        let b = sig.to_bytes();
        assert(signed_with(sig, msg@, self.secret()@) && b@ == signature_bytes(sig));
        b
    }

    /// Signs a list of hashed messages given as 40 little-endian bytes each;
    /// fails on the first that is not canonical.
    pub fn batch_sign_bytes(&self, messages: &[[u8; 40]]) -> (r: Result<Vec<[u8; 80]>, String>)
        ensures
            r is Ok <==> forall|i: int| 0 <= i < messages@.len() ==> fp5_bytes_canonical(#[trigger] messages@[i]@),
            r matches Err(e) ==> e@ == "non-canonical Goldilocks element in Fp5 bytes"@,
            r matches Ok(v) ==> v@.len() == messages@.len() && forall|i: int|
                0 <= i < messages@.len() ==> is_signature_bytes(
                    #[trigger] v@[i]@,
                    fp5_bytes_view(messages@[i]@),
                    self.secret()@,
                ),
    {
        let mut fps: Vec<Fp5> = Vec::new();
        for i in 0..messages.len()
            invariant
                fps@.len() == i,
                forall|k: int| 0 <= k < i ==> fp5_bytes_canonical(#[trigger] messages@[k]@),
                forall|k: int| 0 <= k < i ==> #[trigger] fps@[k]@ == fp5_bytes_view(messages@[k]@),
        {
            match Fp5::from_bytes_le(messages[i].as_slice()) {
                Ok(f) => {
                    proof {
                        let m = messages@[i as int]@;
                        assert(f@ =~= fp5_bytes_view(m)) by {
                            vstd::arithmetic::div_mod::lemma_small_mod(le_word(m, 0) as nat, modulus());
                            vstd::arithmetic::div_mod::lemma_small_mod(le_word(m, 1) as nat, modulus());
                            vstd::arithmetic::div_mod::lemma_small_mod(le_word(m, 2) as nat, modulus());
                            vstd::arithmetic::div_mod::lemma_small_mod(le_word(m, 3) as nat, modulus());
                            vstd::arithmetic::div_mod::lemma_small_mod(le_word(m, 4) as nat, modulus());
                        }
                    }
                    fps.push(f);
                },
                Err(e) => {
                    return Err(String::from_str(e));
                },
            }
        }
        let out = self.batch_sign(fps.as_slice());
        assert forall|k: int| 0 <= k < messages@.len() implies is_signature_bytes(
            #[trigger] out@[k]@,
            fp5_bytes_view(messages@[k]@),
            self.secret()@,
        ) by {
            assert(fps@[k]@ == fp5_bytes_view(messages@[k]@));
        }
        Ok(out)
    }

    /// Signs each hashed message in turn; the i-th signature is over the
    /// i-th message.
    pub fn batch_sign(&self, messages: &[Fp5]) -> (r: Vec<[u8; 80]>)
        ensures
            r@.len() == messages@.len(),
            forall|i: int|
                0 <= i < messages@.len() ==> is_signature_bytes(#[trigger] r@[i]@, messages@[i]@, self.secret()@),
    {
        let mut out: Vec<[u8; 80]> = Vec::new();
        for i in 0..messages.len()
            invariant
                out@.len() == i,
                forall|k: int| 0 <= k < i ==> is_signature_bytes(#[trigger] out@[k]@, messages@[k]@, self.secret()@),
        {
            let s = self.sign_fp5(&messages[i]);
            out.push(s);
        }
        out
    }

    /// An auth token "deadline:account:key:signature", the signature over the
    /// Poseidon2 hash of the character codes of "deadline:account:key",
    /// written in hexadecimal.
    pub fn create_auth_token(&self, deadline: i64, account_index: i64, api_key_index: u8) -> (r: Result<
        String,
        String,
    >)
        ensures
            r matches Ok(t) && exists|b: Seq<u8>|
                is_signature_bytes(
                    b,
                    sponge_hash(char_codes(auth_text(deadline, account_index, api_key_index)), 5),
                    self.secret()@,
                ) && t@ == auth_text(deadline, account_index, api_key_index) + seq![':'] + hex_lower(b),
    {
        let colon = ":";
        proof {
            reveal_strlit(":");
        }
        let auth_data = i64_to_decimal(deadline).concat(colon).concat(i64_to_decimal(account_index).as_str()).concat(
            colon,
        ).concat(i64_to_decimal(api_key_index as i64).as_str());
        let ghost text = auth_text(deadline, account_index, api_key_index);
        assert(auth_data@ =~= text);
        let bytes = auth_data.as_str().as_bytes();
        proof {
            lemma_decimal_int_ascii(deadline as int);
            lemma_decimal_int_ascii(account_index as int);
            lemma_decimal_int_ascii(api_key_index as int);
            assert(vstd::utf8::is_ascii_chars(text));
            vstd::utf8::is_ascii_chars_encode_utf8(text);
        }
        let mut elements: Vec<GoldilocksField> = Vec::new();
        for i in 0..bytes.len()
            invariant
                bytes@ == vstd::utf8::encode_utf8(text),
                bytes@.len() == text.len(),
                forall|k: int| 0 <= k < text.len() ==> #[trigger] bytes@[k] == text[k] as u8,
                forall|k: int| 0 <= k < text.len() ==> '\0' <= #[trigger] text[k] <= '\u{7f}',
                elements@.len() == i,
                forall|k: int| 0 <= k < i ==> #[trigger] elements@[k]@ == text[k] as nat,
        {
            proof {
                vstd::arithmetic::div_mod::lemma_small_mod(bytes@[i as int] as nat, modulus());
            }
            elements.push(GoldilocksField(bytes[i] as u64));
        }
        assert(elems_view(elements@) =~= char_codes(text));
        let hash = hash_to_quintic_extension(elements.as_slice());
        let sig = self.sign_fp5(&hash);
        let token = auth_data.concat(colon).concat(hex_encode(sig.as_slice()).as_str());
        Ok(token)
    }
}

/// `private_key_bytes` then `from_bytes` gives back the same secret.
pub proof fn lemma_private_key_roundtrip(km: KeyManager)
    requires
        km.secret()@ < group_order(),
    ensures
        limbs_value(bytes_limbs(limbs_le_bytes(km.secret().0@))) % group_order() == km.secret()@,
        bytes_limbs(limbs_le_bytes(km.secret().0@)) == km.secret().0@,
{
    crate::curve::scalar::lemma_scalar_bytes_roundtrip(km.secret().0@);
    vstd::arithmetic::div_mod::lemma_small_mod(km.secret()@ as nat, group_order() as nat);
}

} // verus!
