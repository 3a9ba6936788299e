use vstd::prelude::*;
use vstd::utf8::encode_utf8;
use crate::hex::{encode_lower, lower_hex};
use crate::numbers::{be_value, BigNum};

verus! {

/// The SHA-256 digest of a byte string, as computed by the `sha2` crate.
pub uninterp spec fn spec_sha256(data: Seq<u8>) -> Seq<u8>;

/// SHA-256 of the UTF-8 bytes of a text.
pub open spec fn text_digest(t: Seq<char>) -> Seq<u8> {
    spec_sha256(encode_utf8(t))
}

/// `sha2::Sha256::digest`: the 32-byte SHA-256 digest of `data`.
/// Trusted: the digest is named `spec_sha256`, a function of the input bytes alone;
/// nothing else is claimed of it.
#[verifier::external_body]
fn sha256_digest(data: &[u8]) -> (r: [u8; 32])
    ensures
        r@ == spec_sha256(data@),
{
    <sha2::Sha256 as sha2::Digest>::digest(data).into()
}

/// SHA-256 of the UTF-8 bytes of `input`, as 64 lower-case hex digits.
pub fn sha256_hex(input: &str) -> (res: String)
    ensures
        res@ == lower_hex(text_digest(input@)),
        res@.len() == 64,
{
    let bytes = input.as_bytes();
    let d = sha256_digest(bytes);
    encode_lower(&d)
}

/// `BigInt::from_hex(&sha256(text))`: the SHA-256 digest of the text read as a big-endian
/// integer (below 2^256).
pub fn hash_to_bignum(text: &str) -> (r: BigNum)
    ensures
        r@ == be_value(text_digest(text@)),
{
    let h = sha256_hex(text);
    proof {
        crate::hex::lemma_lower_hex_is_hex(text_digest(text@));
        crate::hex::lemma_lower_hex_value(text_digest(text@));
    }
    BigNum::from_hex(h.as_str())
}

} // verus!
