use vstd::prelude::*;
use crate::text::dec;
use crate::gene::le_value;

verus! {

/// num-bigint's `BigUint::from_bytes_le`, shown with `to_string`: the
/// unsigned integer that `bytes` hold, least significant byte first (zero for
/// no bytes), in decimal with no leading zeros.
#[verifier::external_body]
fn biguint_le_decimal(bytes: &[u8]) -> (r: String)
    ensures
        r@ == dec(le_value(bytes@, 0, bytes@.len())),
{
    num_bigint::BigUint::from_bytes_le(bytes).to_string()
}

/// The decimal text of a big integer member: the unsigned integer its bytes
/// hold, least significant byte first.
pub fn bigint_text(bytes: &[u8]) -> (r: String)
    ensures
        r@ == dec(le_value(bytes@, 0, bytes@.len())),
{
    biguint_le_decimal(bytes)
}

} // verus!
