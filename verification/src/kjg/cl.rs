//! Helpers around the CL encryption library.

use vstd::prelude::*;
use crate::hex::upper_hex;

verus! {

/// Upper-case hex encoding of `data` (two characters per byte, high nibble first), the form in
/// which points are handed to the CL library.
pub fn to_hex(data: &[u8]) -> (res: String)
    ensures
        res@ == upper_hex(data@),
        res@.len() == 2 * data@.len(),
{
    crate::hex::encode_upper(data)
}

} // verus!
