//! Text encodings that the key generation hashes with.

use vstd::prelude::*;
use crate::digest::text_digest;
use crate::hex::{lower_hex, upper_hex};

verus! {

/// SHA-256 of the UTF-8 bytes of `input` as 64 lower-case hex digits.
pub fn sha256(input: &str) -> (res: String)
    ensures
        res@ == lower_hex(text_digest(input@)),
        res@.len() == 64,
{
    crate::digest::sha256_hex(input)
}

/// Upper-case hex encoding of `data` (two characters per byte, high nibble first).
pub fn to_hex(data: &[u8]) -> (res: String)
    ensures
        res@ == upper_hex(data@),
        res@.len() == 2 * data@.len(),
{
    crate::hex::encode_upper(data)
}

} // verus!
