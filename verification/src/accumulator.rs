use crate::errors::Error;
use crate::utils::quotient_toward_zero;
use vstd::prelude::*;

verus! {

/// Scale of the accumulator: it counts payment per basis point in units of
/// `1 / PRECISION`.
pub const PRECISION: i128 = 1_000_000_000_000;

/// What the pool records of one stakeholder.
#[derive(Copy, Clone, Debug, PartialEq, Eq, Structural)]
pub struct StakeholderInfo {
    /// Allocation in basis points, fixed at setup.
    pub shares: u32,
    /// The accumulator as it stood when the stakeholder last settled.
    pub accumulated_at_last_update: i128,
    /// Owed as of the last settlement.
    pub claimable_amount: i128,
}

/// By how much a deposit of `amount` raises the accumulator.
pub open spec fn accrual(amount: int) -> int {
    amount * PRECISION / 10000
}

/// Whether a deposit of `amount` is accepted by a pool whose accumulator
/// stands at `accumulator`: it is positive, and neither its scaled value nor
/// the raised accumulator leaves the range of the amount type.
pub open spec fn accrual_fits(accumulator: int, amount: int) -> bool {
    &&& amount > 0
    &&& amount * PRECISION <= i128::MAX
    &&& accumulator + accrual(amount) <= i128::MAX
}

/// The accumulator after a deposit of `amount`.
///
/// A non-positive amount and an overflow are invalid input.
pub fn accrue(accumulator: i128, amount: i128) -> (res: Result<i128, Error>)
    ensures
        match res {
            Ok(raised) => accrual_fits(accumulator as int, amount as int) && raised == accumulator
                + accrual(amount as int),
            Err(e) => e == Error::InvalidInput && !accrual_fits(accumulator as int, amount as int),
        },
{
    if amount <= 0 {
        return Err(Error::InvalidInput);
    }
    let scaled: i128 = match amount.checked_mul(PRECISION) {
        Some(product) => product,
        None => {
            assert(amount * PRECISION > i128::MAX) by (nonlinear_arith)
                requires
                    amount > 0,
                    PRECISION > 0,
                    !(i128::MIN <= amount * PRECISION <= i128::MAX),
            ;
            return Err(Error::InvalidInput);
        },
    };
    let delta: i128 = scaled / 10000;
    match accumulator.checked_add(delta) {
        Some(raised) => Ok(raised),
        None => Err(Error::InvalidInput),
    }
}

/// What a deposit of `amount` comes to in a pool whose accumulator stands at
/// `accumulator`: the amount is checked first, then whether the pool is
/// configured, then the arithmetic.
pub open spec fn deposit_check(configured: bool, accumulator: int, amount: int) -> Result<
    (),
    Error,
> {
    if amount <= 0 {
        Err(Error::InvalidInput)
    } else if !configured {
        Err(Error::NotInitialized)
    } else if !accrual_fits(accumulator, amount) {
        Err(Error::InvalidInput)
    } else {
        Ok(())
    }
}

/// Takes a deposit of `amount` into a pool and returns its accumulator as
/// raised by it. `configured` says whether the pool has its settlement asset.
pub fn deposit(configured: bool, accumulator: i128, amount: i128) -> (res: Result<i128, Error>)
    ensures
        match res {
            Ok(raised) => deposit_check(configured, accumulator as int, amount as int) is Ok
                && raised == accumulator + accrual(amount as int),
            Err(e) => deposit_check(configured, accumulator as int, amount as int) == Err::<
                (),
                Error,
            >(e),
        },
{
    if amount <= 0 {
        return Err(Error::InvalidInput);
    }
    if !configured {
        return Err(Error::NotInitialized);
    }
    accrue(accumulator, amount)
}

/// What has accrued to the stakeholder since it last settled, in a pool whose
/// accumulator stands at `accumulator`:
/// `shares * (accumulator - accumulated_at_last_update) / PRECISION`.
pub open spec fn pending_of(info: StakeholderInfo, accumulator: int) -> int {
    quotient_toward_zero(info.shares * (accumulator - info.accumulated_at_last_update), PRECISION as int)
}

/// What the stakeholder can claim: what it was owed at its last settlement
/// and what has accrued since.
pub open spec fn balance_of(info: StakeholderInfo, accumulator: int) -> int {
    info.claimable_amount + pending_of(info, accumulator)
}

/// Whether the balance can be computed within the range of the amount type:
/// the growth of the accumulator, its product with the shares, and the sum.
pub open spec fn balance_fits(info: StakeholderInfo, accumulator: int) -> bool {
    &&& i128::MIN <= accumulator - info.accumulated_at_last_update <= i128::MAX
    &&& i128::MIN <= info.shares * (accumulator - info.accumulated_at_last_update) <= i128::MAX
    &&& i128::MIN <= balance_of(info, accumulator) <= i128::MAX
}

/// What the stakeholder can claim from a pool whose accumulator stands at
/// `accumulator`. Changes nothing; an overflow is invalid input.
pub fn balance(info: &StakeholderInfo, accumulator: i128) -> (res: Result<i128, Error>)
    ensures
        match res {
            Ok(owed) => balance_fits(*info, accumulator as int) && owed == balance_of(
                *info,
                accumulator as int,
            ),
            Err(e) => e == Error::InvalidInput && !balance_fits(*info, accumulator as int),
        },
{
    let growth: i128 = match accumulator.checked_sub(info.accumulated_at_last_update) {
        Some(difference) => difference,
        None => {
            return Err(Error::InvalidInput);
        },
    };
    let scaled: i128 = match growth.checked_mul(info.shares as i128) {
        Some(product) => product,
        None => {
            assert(growth * info.shares == info.shares * growth) by (nonlinear_arith);
            return Err(Error::InvalidInput);
        },
    };
    assert(scaled == info.shares * growth) by (nonlinear_arith)
        requires
            scaled == growth * info.shares,
    ;
    let pending: i128 = scaled / PRECISION;
    match info.claimable_amount.checked_add(pending) {
        Some(owed) => Ok(owed),
        None => Err(Error::InvalidInput),
    }
}

/// The record of a stakeholder that has just settled at `accumulator`.
pub open spec fn settled_at(info: StakeholderInfo, accumulator: i128) -> StakeholderInfo {
    StakeholderInfo {
        shares: info.shares,
        accumulated_at_last_update: accumulator,
        claimable_amount: 0,
    }
}

/// Why the stakeholder cannot settle at `accumulator`, if it cannot.
pub open spec fn settlement_refusal(info: StakeholderInfo, accumulator: int) -> Option<Error> {
    if !balance_fits(info, accumulator) {
        Some(Error::InvalidInput)
    } else if balance_of(info, accumulator) <= 0 {
        Some(Error::NoClaimableAmount)
    } else {
        None
    }
}

/// Settles the stakeholder at `accumulator`: returns its record with nothing
/// owed and nothing pending, and the amount to pay out.
pub fn settle(info: &StakeholderInfo, accumulator: i128) -> (res: Result<
    (StakeholderInfo, i128),
    Error,
>)
    ensures
        match res {
            Ok((record, paid)) => settlement_refusal(*info, accumulator as int) is None && paid
                == balance_of(*info, accumulator as int) && record == settled_at(
                *info,
                accumulator,
            ),
            Err(e) => settlement_refusal(*info, accumulator as int) == Some(e),
        },
{
    let owed: i128 = match balance(info, accumulator) {
        Ok(owed) => owed,
        Err(e) => {
            return Err(e);
        },
    };
    if owed <= 0 {
        return Err(Error::NoClaimableAmount);
    }
    Ok(
        (
            StakeholderInfo {
                shares: info.shares,
                accumulated_at_last_update: accumulator,
                claimable_amount: 0,
            },
            owed,
        ),
    )
}

/// Whether the stakeholder has something to claim from a pool whose
/// accumulator stands at `accumulator`: a balance that is positive, or one
/// that cannot be computed within the range of the amount type. It has
/// nothing to claim exactly when a withdrawal would be refused for that.
pub open spec fn has_claim(info: StakeholderInfo, accumulator: int) -> bool {
    !balance_fits(info, accumulator) || balance_of(info, accumulator) > 0
}

/// Whether the stakeholder has something to claim from a pool whose
/// accumulator stands at `accumulator`.
pub fn holds_claim(info: &StakeholderInfo, accumulator: i128) -> (claims: bool)
    ensures
        claims == has_claim(*info, accumulator as int),
        claims == (settlement_refusal(*info, accumulator as int) != Some(Error::NoClaimableAmount)),
{
    match balance(info, accumulator) {
        Ok(owed) => owed > 0,
        Err(_) => true,
    }
}

/// A stakeholder that has just settled has nothing to claim until the
/// accumulator moves.
pub proof fn lemma_settled_has_nothing_to_claim(info: StakeholderInfo, accumulator: i128)
    ensures
        balance_fits(settled_at(info, accumulator), accumulator as int),
        balance_of(settled_at(info, accumulator), accumulator as int) == 0,
        settlement_refusal(settled_at(info, accumulator), accumulator as int) == Some(
            Error::NoClaimableAmount,
        ),
{
    let record = settled_at(info, accumulator);
    assert(record.shares * (accumulator - record.accumulated_at_last_update) == 0) by (nonlinear_arith)
        requires
            accumulator - record.accumulated_at_last_update == 0,
    ;
}

} // verus!
