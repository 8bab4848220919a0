use vstd::prelude::*;

use vstd::arithmetic::div_mod::{lemma_div_nonincreasing, lemma_div_pos_is_pos};

use crate::errors::OptionsError;
use crate::types::OptionType;

verus! {

/// All monetary quantities are integers scaled by this factor: a stored
/// value `v` stands for the real quantity `v / 10^7`.
pub const FIXED_POINT_SCALE: i128 = 10_000_000;

/// Premium is a flat `PREMIUM_RATE_NUM / PREMIUM_RATE_DEN` (2%) of the
/// strike-weighted notional.
pub const PREMIUM_RATE_NUM: i128 = 200;

pub const PREMIUM_RATE_DEN: i128 = 10_000;

/// Whole units in a fixed-point amount, floored, but never less than one:
/// an amount smaller than one whole unit is charged and paid as a full
/// unit. This is a deliberate policy of the venue, not a rounding artifact.
pub open spec fn spec_normalize(amount: int) -> int {
    if amount / (FIXED_POINT_SCALE as int) == 0 {
        1
    } else {
        amount / (FIXED_POINT_SCALE as int)
    }
}

/// Premium owed on a purchase: 2% of strike times whole units, floored.
pub open spec fn spec_premium(strike: int, amount: int) -> int {
    strike * spec_normalize(amount) * (PREMIUM_RATE_NUM as int) / (PREMIUM_RATE_DEN as int)
}

/// Collateral a pool must reserve to fully back an option, floored.
pub open spec fn spec_collateral(strike: int, amount: int) -> int {
    strike * amount / (FIXED_POINT_SCALE as int)
}

/// Intrinsic value of exercising now, before the collateral cap: the
/// favourable part of the spot-strike gap times whole units.
pub open spec fn spec_raw_payoff(opt_type: OptionType, strike: int, spot: int, amount: int) -> int {
    match opt_type {
        OptionType::Call => if spot > strike {
            (spot - strike) * spec_normalize(amount)
        } else {
            0
        },
        OptionType::Put => if spot < strike {
            (strike - spot) * spec_normalize(amount)
        } else {
            0
        },
    }
}

/// The premium chain `strike * units * rate` stays within `i128`.
pub open spec fn premium_fits(strike: int, amount: int) -> bool {
    &&& strike * spec_normalize(amount) <= i128::MAX
    &&& strike * spec_normalize(amount) * (PREMIUM_RATE_NUM as int) <= i128::MAX
}

/// The collateral product `strike * amount` stays within `i128`.
pub open spec fn collateral_fits(strike: int, amount: int) -> bool {
    strike * amount <= i128::MAX
}

/// The payoff chain `gap * units` stays within `i128`.
pub open spec fn payoff_fits(opt_type: OptionType, strike: int, spot: int, amount: int) -> bool {
    match opt_type {
        OptionType::Call => spot > strike ==> (spot - strike) * spec_normalize(amount)
            <= i128::MAX,
        OptionType::Put => spot < strike ==> {
            &&& strike - spot <= i128::MAX
            &&& (strike - spot) * spec_normalize(amount) <= i128::MAX
        },
    }
}

/// Whole units in `amount`, floored to at least one.
pub fn normalize_amount(amount: i128) -> (r: i128)
    requires
        amount > 0,
    ensures
        r == spec_normalize(amount as int),
        1 <= r <= amount,
{
    proof {
        lemma_div_nonincreasing(amount as int, FIXED_POINT_SCALE as int);
        lemma_div_pos_is_pos(amount as int, FIXED_POINT_SCALE as int);
    }
    let q = amount.checked_div(FIXED_POINT_SCALE).unwrap();
    if q == 0 {
        1
    } else {
        q
    }
}

/// Premium owed on a purchase, or `ArithmeticOverflow` exactly when the
/// multiply chain leaves `i128`.
pub fn premium_for(strike: i128, amount: i128) -> (r: Result<i128, OptionsError>)
    requires
        strike > 0,
        amount > 0,
    ensures
        r is Ok <==> premium_fits(strike as int, amount as int),
        r matches Ok(p) ==> p == spec_premium(strike as int, amount as int) && p >= 0,
        r matches Err(e) ==> e == OptionsError::ArithmeticOverflow,
{
    let units = normalize_amount(amount);
    let weighted = match strike.checked_mul(units) {
        Some(v) => v,
        None => {
            return Err(OptionsError::ArithmeticOverflow);
        },
    };
    let scaled = match weighted.checked_mul(PREMIUM_RATE_NUM) {
        Some(v) => v,
        None => {
            return Err(OptionsError::ArithmeticOverflow);
        },
    };
    proof {
        lemma_div_nonincreasing(scaled as int, PREMIUM_RATE_DEN as int);
        lemma_div_pos_is_pos(scaled as int, PREMIUM_RATE_DEN as int);
    }
    Ok(scaled.checked_div(PREMIUM_RATE_DEN).unwrap())
}

/// Collateral needed to fully back an option, or `ArithmeticOverflow`
/// exactly when `strike * amount` leaves `i128`.
pub fn collateral_for(strike: i128, amount: i128) -> (r: Result<i128, OptionsError>)
    requires
        strike > 0,
        amount > 0,
    ensures
        r is Ok <==> collateral_fits(strike as int, amount as int),
        r matches Ok(c) ==> c == spec_collateral(strike as int, amount as int) && c >= 0,
        r matches Err(e) ==> e == OptionsError::ArithmeticOverflow,
{
    let product = match strike.checked_mul(amount) {
        Some(v) => v,
        None => {
            return Err(OptionsError::ArithmeticOverflow);
        },
    };
    proof {
        lemma_div_nonincreasing(product as int, FIXED_POINT_SCALE as int);
        lemma_div_pos_is_pos(product as int, FIXED_POINT_SCALE as int);
    }
    Ok(product.checked_div(FIXED_POINT_SCALE).unwrap())
}

/// Intrinsic exercise value before the collateral cap, or
/// `ArithmeticOverflow` exactly when the gap-times-units product leaves
/// `i128`. The spot price comes from an oracle and may be any `i128`.
pub fn payoff_for(opt_type: OptionType, strike: i128, spot: i128, amount: i128) -> (r: Result<
    i128,
    OptionsError,
>)
    requires
        strike > 0,
        amount > 0,
    ensures
        r is Ok <==> payoff_fits(opt_type, strike as int, spot as int, amount as int),
        r matches Ok(p) ==> p == spec_raw_payoff(
            opt_type,
            strike as int,
            spot as int,
            amount as int,
        ) && p >= 0,
        r matches Err(e) ==> e == OptionsError::ArithmeticOverflow,
{
    let units = normalize_amount(amount);
    match opt_type {
        OptionType::Call => {
            if spot > strike {
                match (spot - strike).checked_mul(units) {
                    Some(v) => Ok(v),
                    None => Err(OptionsError::ArithmeticOverflow),
                }
            } else {
                Ok(0)
            }
        },
        OptionType::Put => {
            if spot < strike {
                let gap = match strike.checked_sub(spot) {
                    Some(v) => v,
                    None => {
                        return Err(OptionsError::ArithmeticOverflow);
                    },
                };
                match gap.checked_mul(units) {
                    Some(v) => Ok(v),
                    None => Err(OptionsError::ArithmeticOverflow),
                }
            } else {
                Ok(0)
            }
        },
    }
}

} // verus!
