use vstd::prelude::*;
use vstd::utf8::{encode_utf8, is_ascii_chars, is_ascii_chars_encode_utf8};

verus! {

/// The lower-case hexadecimal digit for 0 <= d < 16.
pub open spec fn hex_char(d: int) -> char {
    if d < 10 {
        decimal_digit(d)
    } else if d == 10 {
        'a'
    } else if d == 11 {
        'b'
    } else if d == 12 {
        'c'
    } else if d == 13 {
        'd'
    } else if d == 14 {
        'e'
    } else {
        'f'
    }
}

/// Lower-case hexadecimal text of bytes: two digits per byte, high nibble
/// first.
pub open spec fn hex_lower(b: Seq<u8>) -> Seq<char> {
    Seq::new(
        2 * b.len(),
        |i: int|
            if i % 2 == 0 {
                hex_char(b[i / 2] as int / 16)
            } else {
                hex_char(b[i / 2] as int % 16)
            },
    )
}

/// The value of a hexadecimal digit in either case, or -1.
pub open spec fn hex_value(c: u8) -> int {
    if 48 <= c <= 57 {
        c - 48
    } else if 97 <= c <= 102 {
        c - 87
    } else if 65 <= c <= 70 {
        c - 55
    } else {
        -1
    }
}

/// An even number of hexadecimal digits.
pub open spec fn hex_decodable(b: Seq<u8>) -> bool {
    b.len() % 2 == 0 && forall|i: int| 0 <= i < b.len() ==> hex_value(#[trigger] b[i]) >= 0
}

/// The bytes that pairs of hexadecimal digits stand for.
pub open spec fn hex_decoded(b: Seq<u8>) -> Seq<u8> {
    Seq::new(b.len() / 2, |i: int| (16 * hex_value(b[2 * i]) + hex_value(b[2 * i + 1])) as u8)
}

/// A hexadecimal digit is ASCII and reads back as its value.
proof fn lemma_hex_char_value(d: int)
    requires
        0 <= d < 16,
    ensures
        '\0' <= hex_char(d) <= '\u{7f}',
        hex_value(hex_char(d) as u8) == d,
{
}

/// Hexadecimal text, taken as UTF-8 bytes, decodes back to the bytes it was
/// written from.
pub proof fn lemma_hex_roundtrip(b: Seq<u8>)
    ensures
        encode_utf8(hex_lower(b)).len() == 2 * b.len(),
        hex_decodable(encode_utf8(hex_lower(b))),
        hex_decoded(encode_utf8(hex_lower(b))) == b,
{
    let h = hex_lower(b);
    assert forall|i: int| 0 <= i < h.len() implies '\0' <= #[trigger] h[i] <= '\u{7f}' && hex_value(
        h[i] as u8,
    ) == (if i % 2 == 0 { b[i / 2] as int / 16 } else { b[i / 2] as int % 16 }) by {
        if i % 2 == 0 {
            lemma_hex_char_value(b[i / 2] as int / 16);
        } else {
            lemma_hex_char_value(b[i / 2] as int % 16);
        }
    }
    assert(is_ascii_chars(h));
    is_ascii_chars_encode_utf8(h);
    let t = encode_utf8(h);
    assert forall|i: int| 0 <= i < t.len() implies hex_value(#[trigger] t[i]) >= 0 by {
        assert(h[i] as u8 == t[i]);
    }
    assert forall|i: int| 0 <= i < b.len() implies #[trigger] hex_decoded(t)[i] == b[i] by {
        assert(h[2 * i] as u8 == t[2 * i]);
        assert(h[2 * i + 1] as u8 == t[2 * i + 1]);
        assert((2 * i) / 2 == i && (2 * i) % 2 == 0);
        assert((2 * i + 1) / 2 == i && (2 * i + 1) % 2 == 1);
        assert(16 * (b[i] as int / 16) + b[i] as int % 16 == b[i] as int);
    }
    assert(hex_decoded(t) =~= b);
}

/// The decimal digit for 0 <= d < 10.
pub open spec fn decimal_digit(d: int) -> char {
    if d == 0 {
        '0'
    } else if d == 1 {
        '1'
    } else if d == 2 {
        '2'
    } else if d == 3 {
        '3'
    } else if d == 4 {
        '4'
    } else if d == 5 {
        '5'
    } else if d == 6 {
        '6'
    } else if d == 7 {
        '7'
    } else if d == 8 {
        '8'
    } else {
        '9'
    }
}

/// Decimal text of a natural number, without leading zeros.
pub open spec fn decimal_nat(n: nat) -> Seq<char>
    decreases n,
{
    if n < 10 {
        seq![decimal_digit(n as int)]
    } else {
        decimal_nat(n / 10).push(decimal_digit((n % 10) as int))
    }
}

/// Decimal text of an integer, with a minus sign when negative.
pub open spec fn decimal_int(n: int) -> Seq<char> {
    if n < 0 {
        seq!['-'] + decimal_nat((-n) as nat)
    } else {
        decimal_nat(n as nat)
    }
}

/// `hex::encode`: lower-case hexadecimal text of the bytes, two digits per
/// byte, high nibble first.
#[verifier::external_body]
pub(crate) fn hex_encode(data: &[u8]) -> (r: String)
    ensures
        r@ == hex_lower(data@),
{
    hex::encode(data)
}

/// `hex::decode`: succeeds exactly on an even number of hexadecimal digits
/// of either case, with the bytes that the pairs stand for; on failure, the
/// text of `hex::FromHexError`'s `Display`, of which nothing is stated.
#[verifier::external_body]
pub(crate) fn hex_decode(data: &[u8]) -> (r: Result<Vec<u8>, String>)
    ensures
        r is Ok <==> hex_decodable(data@),
        r matches Ok(v) ==> v@ == hex_decoded(data@),
{
    match hex::decode(data) {
        Ok(v) => Ok(v),
        Err(e) => Err(e.to_string()),
    }
}

/// `u64::to_string`: decimal text.
#[verifier::external_body]
pub(crate) fn u64_to_decimal(n: u64) -> (r: String)
    ensures
        r@ == decimal_nat(n as nat),
{
    n.to_string()
}

/// `i64::to_string`: decimal text, with a minus sign when negative.
#[verifier::external_body]
pub(crate) fn i64_to_decimal(n: i64) -> (r: String)
    ensures
        r@ == decimal_int(n as int),
{
    n.to_string()
}

/// The standard base64 alphabet: A-Z, a-z, 0-9, '+', '/'.
pub open spec fn base64_alphabet() -> Seq<char> {
    seq![
        'A', 'B', 'C', 'D', 'E', 'F', 'G', 'H', 'I', 'J', 'K', 'L', 'M', 'N', 'O', 'P', 'Q', 'R', 'S',
        'T', 'U', 'V', 'W', 'X', 'Y', 'Z', 'a', 'b', 'c', 'd', 'e', 'f', 'g', 'h', 'i', 'j', 'k', 'l',
        'm', 'n', 'o', 'p', 'q', 'r', 's', 't', 'u', 'v', 'w', 'x', 'y', 'z', '0', '1', '2', '3', '4',
        '5', '6', '7', '8', '9', '+', '/',
    ]
}

/// Standard base64 with '=' padding: each group of three bytes becomes four
/// characters of six bits each, high bits first; a last group of one or two
/// bytes is padded with zero bits and then '='.
pub open spec fn base64_std(b: Seq<u8>) -> Seq<char>
    decreases b.len(),
{
    let a = base64_alphabet();
    let b0 = b[0] as int;
    let b1 = b[1] as int;
    let b2 = b[2] as int;
    if b.len() == 0 {
        Seq::empty()
    } else if b.len() == 1 {
        seq![a[b0 / 4], a[(b0 % 4) * 16], '=', '=']
    } else if b.len() == 2 {
        seq![a[b0 / 4], a[(b0 % 4) * 16 + b1 / 16], a[(b1 % 16) * 4], '=']
    } else {
        seq![a[b0 / 4], a[(b0 % 4) * 16 + b1 / 16], a[(b1 % 16) * 4 + b2 / 64], a[b2 % 64]] + base64_std(
            b.subrange(3, b.len() as int),
        )
    }
}

/// `base64::engine::general_purpose::STANDARD.encode`: the standard
/// alphabet with padding.  The length bound keeps the crate's computation
/// of the output length from overflowing.
#[verifier::external_body]
pub(crate) fn base64_encode(data: &[u8]) -> (r: String)
    requires
        data@.len() <= 0x1000_0000,
    ensures
        r@ == base64_std(data@),
{
    base64::Engine::encode(&base64::engine::general_purpose::STANDARD, data)
}

/// The bytes after an optional "0x" prefix.
pub open spec fn without_hex_prefix(b: Seq<u8>) -> Seq<u8> {
    if b.len() >= 2 && b[0] == 48 && b[1] == 120 {
        b.subrange(2, b.len() as int)
    } else {
        b
    }
}

/// `s.strip_prefix("0x").unwrap_or(s)`, on the bytes of a string.
pub fn strip_hex_prefix(b: &[u8]) -> (r: &[u8])
    ensures
        r@ == without_hex_prefix(b@),
{
    if b.len() >= 2 && b[0] == 48u8 && b[1] == 120u8 {
        let r = &b[2..b.len()];
        assert(r@ =~= b@.subrange(2, b@.len() as int));
        r
    } else {
        b
    }
}

} // verus!
