use vstd::prelude::*;

verus! {

/// Number of basis points that make up the whole (100%).
pub const BASIS_POINTS_TOTAL: u32 = 10000;

/// Quotient of `x` by a positive `d`, rounded toward zero.
pub open spec fn quotient_toward_zero(x: int, d: int) -> int
    recommends
        d > 0,
{
    if x >= 0 {
        x / d
    } else {
        -((-x) / d)
    }
}

/// The part of `amount` that `basis_points` stand for, rounded toward zero.
/// For a non-negative amount this is `floor(amount * basis_points / 10000)`.
pub open spec fn percentage_of(amount: int, basis_points: int) -> int {
    quotient_toward_zero(amount * basis_points, 10000)
}

/// Calculate percentage of an amount.
///
/// The product of the two arguments must fit the amount type.
pub fn calculate_percentage(amount: i128, basis_points: u32) -> (part: i128)
    requires
        i128::MIN <= amount * basis_points <= i128::MAX,
    ensures
        part == percentage_of(amount as int, basis_points as int),
{
    let product: i128 = amount * (basis_points as i128);
    product / 10000
}

/// Calculate fee from amount.
pub fn calculate_fee(amount: i128, fee_rate: u32) -> (fee: i128)
    requires
        i128::MIN <= amount * fee_rate <= i128::MAX,
    ensures
        fee == percentage_of(amount as int, fee_rate as int),
{
    calculate_percentage(amount, fee_rate)
}

/// Calculate proportional share.
pub fn calculate_share(total_amount: i128, share_percentage: u32) -> (share: i128)
    requires
        i128::MIN <= total_amount * share_percentage <= i128::MAX,
    ensures
        share == percentage_of(total_amount as int, share_percentage as int),
{
    calculate_percentage(total_amount, share_percentage)
}

/// Proportional share that reports an overflow of the product instead of
/// demanding that the caller rule it out.
pub fn checked_share(total_amount: i128, share_percentage: u32) -> (share: Option<i128>)
    ensures
        share.is_some() <==> i128::MIN <= total_amount * share_percentage <= i128::MAX,
        share.is_some() ==> share.unwrap() == percentage_of(
            total_amount as int,
            share_percentage as int,
        ),
{
    match total_amount.checked_mul(share_percentage as i128) {
        Some(_) => Some(calculate_share(total_amount, share_percentage)),
        None => None,
    }
}

/// Verify timestamp is in the future of `now`, the ledger's current time.
pub fn verify_future_timestamp(now: u64, timestamp: u64) -> (later: bool)
    ensures
        later == (timestamp > now),
{
    timestamp > now
}

/// Verify timestamp is not in the future of `now`, the ledger's current time.
pub fn verify_past_timestamp(now: u64, timestamp: u64) -> (passed: bool)
    ensures
        passed == (timestamp <= now),
{
    timestamp <= now
}

/// Validate basis points (must be <= 10000).
pub fn validate_basis_points(basis_points: u32) -> (valid: bool)
    ensures
        valid == (basis_points <= 10000),
{
    basis_points <= BASIS_POINTS_TOTAL
}

} // verus!
