use vstd::prelude::*;

pub mod accumulator;
pub mod accumulator_ledger;
pub mod conservation;
pub mod constants;
pub mod direct_split;
pub mod direct_split_ledger;
pub mod equivalence;
pub mod errors;
pub mod escrow;
pub mod events;
pub mod governance;
pub mod identity;
pub mod profit_distribution;
pub mod utils;

verus! {

/// The part of `amount` that `percentage` stands for when the whole is
/// `total_percentage`, rounded toward zero.
///
/// The whole must not be zero, and the product of amount and percentage must
/// fit the amount type.
pub fn calculate_percentage(amount: i128, percentage: u32, total_percentage: u32) -> (part: i128)
    requires
        total_percentage != 0,
        i128::MIN <= amount * percentage <= i128::MAX,
    ensures
        part == utils::quotient_toward_zero(amount * percentage, total_percentage as int),
{
    let numerator: i128 = amount * (percentage as i128);
    numerator / (total_percentage as i128)
}

} // verus!
