//! The fee policy: a fixed 2.5% platform cut, taken by integer floor
//! division, with the remainder of the gross amount passed on as the net
//! donation.

use vstd::prelude::*;
use vstd::arithmetic::div_mod::{lemma_div_is_ordered, lemma_div_multiples_vanish, lemma_div_pos_is_pos};
use vstd::arithmetic::mul::lemma_mul_inequality;

verus! {

/// Fee numerator: 250 parts ...
pub const FEE_PERCENTAGE: u64 = 250;

/// ... out of a base of 10000, i.e. 2.5%. Both constants are fixed for the
/// lifetime of the ledger; no operation changes them.
pub const PERCENTAGE_BASE: u64 = 10000;

/// The platform cut of a gross donation: `floor(gross * 250 / 10000)`.
pub open spec fn fee_of(gross: u64) -> int {
    (gross * FEE_PERCENTAGE) / (PERCENTAGE_BASE as int)
}

/// The net amount passed on to shelters: the gross minus the fee.
pub open spec fn net_of(gross: u64) -> int {
    gross - fee_of(gross)
}

/// The fee never exceeds the gross amount, so the net amount is never
/// negative and both parts fit in the gross amount's range.
pub proof fn lemma_fee_bounds(gross: u64)
    ensures
        0 <= fee_of(gross) <= gross,
        0 <= net_of(gross) <= gross,
{
    lemma_div_pos_is_pos(gross * FEE_PERCENTAGE, PERCENTAGE_BASE as int);
    lemma_mul_inequality(FEE_PERCENTAGE as int, PERCENTAGE_BASE as int, gross as int);
    lemma_div_is_ordered(gross * FEE_PERCENTAGE, gross * PERCENTAGE_BASE, PERCENTAGE_BASE as int);
    lemma_div_multiples_vanish(gross as int, PERCENTAGE_BASE as int);
}

/// Splits a gross donation into the platform fee and the net amount
/// credited onward. Callers reject a zero gross amount before splitting.
pub fn split(gross: u64) -> (r: (u64, u64))
    requires
        gross > 0,
    ensures
        r.0 == fee_of(gross),
        r.1 == net_of(gross),
        r.0 + r.1 == gross,
{
    proof {
        lemma_fee_bounds(gross);
    }
    let fee_wide: u128 = (gross as u128) * (FEE_PERCENTAGE as u128) / (PERCENTAGE_BASE as u128);
    let fee: u64 = fee_wide as u64;
    let net: u64 = gross - fee;
    (fee, net)
}

} // verus!
