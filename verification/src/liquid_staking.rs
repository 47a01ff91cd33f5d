//! The arithmetic behind liquid staking: unstaking against a reward ratio,
//! and setting that ratio from the sovereign account's holdings.
//!
//! The ratio is a fixed-point number with 64 fractional bits, held here as
//! its raw numerator (the represented value times `2^64`).  The chain-side
//! work around these decisions — reading storage, minting, burning and
//! transferring currency — is performed elsewhere on the outcome values
//! computed here; the token movements themselves are described exactly by
//! `UnstakePayout`.

use vstd::prelude::*;

verus! {

/// The scale of the fixed-point ratio: `2^64`, the value representing one.
pub const RATIO_ONE: u128 = 0x1_0000_0000_0000_0000;

/// The default ratio before any rewards arrive: exactly one.
pub const RATIO_DEFAULT_RAW: u128 = 0x1_0000_0000_0000_0000;

/// How much an account has staked: the amount it handed over, and the
/// amount after scaling by the ratio in force when it staked.
#[derive(Clone, Copy, PartialEq, Eq, Structural, Debug)]
pub struct StakeInfo {
    pub staked_without_ratio: u128,
    pub staked_with_ratio: u128,
}

/// Why an unstake or a ratio update is refused.
#[derive(Clone, Copy, PartialEq, Eq, Structural, Debug)]
pub enum StakingError {
    /// The account has nothing staked, or asks for more than it staked.
    NoRewardsAvailable,
    /// The ratio cannot be set while nothing is staked.
    NothingStakedToSetRatio,
}

/// The token movements an unstake decides on: either rewards are owed, so
/// the difference is minted to the account and its stake is paid out of the
/// pallet's funds, or the stake has lost value, so the loss is burned from
/// the pallet's funds and only the remainder is paid out.
#[derive(Clone, Copy, PartialEq, Eq, Structural, Debug)]
pub enum UnstakePayout {
    Deposit { minted: u128, transferred: u128 },
    Burn { slashed: u128, transferred: u128 },
}

/// Everything an accepted unstake changes: the account's remaining stake,
/// the new totals, and the payout to perform.
#[derive(Clone, Copy, PartialEq, Eq, Structural, Debug)]
pub struct UnstakeOutcome {
    pub staked: StakeInfo,
    pub total_staked: u128,
    pub total_staked_multiplier: u128,
    pub payout: UnstakePayout,
}

/// The integer `x / RATIO_ONE`, rounded up.
pub open spec fn ceil_to_integer(x: int) -> int {
    (x + (RATIO_ONE - 1)) / (RATIO_ONE as int)
}

/// The portion of an account's scaled stake that `amount` of its unscaled
/// stake stands for.
pub open spec fn scaled_portion(staked: StakeInfo, amount: int) -> int {
    amount * staked.staked_with_ratio / (staked.staked_without_ratio as int)
}

/// The tokens owed for a scaled portion under the given ratio: the portion
/// times the ratio, rounded up to whole tokens.
pub open spec fn tokens_for_portion(portion: int, ratio_raw: u128) -> int {
    ceil_to_integer(portion * ratio_raw)
}

/// Decides an unstake of `amount` for an account whose stake is `staked`
/// (absent when it never staked), under the current ratio and totals.
///
/// The bounds in `requires` are the machine limits of the arithmetic: each
/// names an input on which the computation cannot complete, so no
/// caller may present it.
pub fn unstake_split(
    staked: Option<StakeInfo>,
    amount: u128,
    ratio_raw: u128,
    total_staked: u128,
    total_staked_multiplier: u128,
) -> (r: Result<UnstakeOutcome, StakingError>)
    requires
        match staked {
            Some(s) => {
                &&& s.staked_without_ratio > 0
                &&& amount * s.staked_with_ratio <= u128::MAX
                &&& scaled_portion(s, amount as int) * ratio_raw + (RATIO_ONE - 1) <= u128::MAX
                &&& amount <= s.staked_without_ratio ==> {
                    &&& amount <= total_staked
                    &&& scaled_portion(s, amount as int) <= total_staked_multiplier
                }
            },
            None => true,
        },
    ensures
        match r {
            Ok(outcome) => {
                &&& staked matches Some(s) && amount <= s.staked_without_ratio
                &&& {
                    let s = staked->Some_0;
                    let portion = scaled_portion(s, amount as int);
                    let owed = tokens_for_portion(portion, ratio_raw);
                    &&& outcome.staked.staked_with_ratio == s.staked_with_ratio - portion
                    &&& outcome.staked.staked_without_ratio == s.staked_without_ratio - amount
                    &&& outcome.total_staked == total_staked - amount
                    &&& outcome.total_staked_multiplier == total_staked_multiplier - portion
                    &&& outcome.payout == (if owed > amount {
                        UnstakePayout::Deposit {
                            minted: (owed - amount) as u128,
                            transferred: amount,
                        }
                    } else {
                        UnstakePayout::Burn {
                            slashed: (amount - owed) as u128,
                            transferred: owed as u128,
                        }
                    })
                }
            },
            Err(e) => {
                &&& e == StakingError::NoRewardsAvailable
                &&& match staked {
                    Some(s) => amount > s.staked_without_ratio,
                    None => true,
                }
            },
        },
{
    let s = match staked {
        Some(s) => s,
        None => {
            return Err(StakingError::NoRewardsAvailable);
        },
    };
    if amount > s.staked_without_ratio {
        return Err(StakingError::NoRewardsAvailable);
    }
    let portion: u128 = amount * s.staked_with_ratio / s.staked_without_ratio;
    proof {
        assert(amount * s.staked_with_ratio / (s.staked_without_ratio as int)
            <= s.staked_with_ratio) by (nonlinear_arith)
            requires
                0 <= amount <= s.staked_without_ratio,
                s.staked_without_ratio > 0,
                s.staked_with_ratio >= 0,
        ;
    }
    let owed: u128 = (portion * ratio_raw + (RATIO_ONE - 1)) / RATIO_ONE;
    let payout = if owed > amount {
        UnstakePayout::Deposit { minted: owed - amount, transferred: amount }
    } else {
        UnstakePayout::Burn { slashed: amount - owed, transferred: owed }
    };
    Ok(
        UnstakeOutcome {
            staked: StakeInfo {
                staked_without_ratio: s.staked_without_ratio - amount,
                staked_with_ratio: s.staked_with_ratio - portion,
            },
            total_staked: total_staked - amount,
            total_staked_multiplier: total_staked_multiplier - portion,
            payout,
        },
    )
}

/// The raw ratio that sovereign holdings of `dot_in_sovereign` imply: the
/// holdings beyond what was minted locally — the rewards — divided by the
/// scaled total staked.
pub open spec fn implied_ratio(
    dot_in_sovereign: u128,
    total_issuance: u128,
    total_staked: u128,
    total_staked_multiplier: u128,
) -> int {
    (dot_in_sovereign - (total_issuance - total_staked)) * RATIO_ONE
        / (total_staked_multiplier as int)
}

/// Decides a ratio update from the sovereign account's holdings.  Nothing
/// staked is refused; otherwise the new raw ratio is the rewards — the
/// holdings minus what was minted locally — scaled and divided by the
/// scaled total staked.
///
/// The bounds in `requires` are the machine limits of the arithmetic:
/// inputs beyond them cannot be computed on.
pub fn compute_ratio(
    dot_in_sovereign: u128,
    total_issuance: u128,
    total_staked: u128,
    total_staked_multiplier: u128,
) -> (r: Result<u128, StakingError>)
    requires
        total_staked <= total_issuance,
        total_issuance - total_staked <= dot_in_sovereign,
        total_staked > 0 ==> total_staked_multiplier > 0,
        (dot_in_sovereign - (total_issuance - total_staked)) * RATIO_ONE <= u128::MAX,
    ensures
        match r {
            Ok(raw) => total_staked > 0 && raw == implied_ratio(
                dot_in_sovereign,
                total_issuance,
                total_staked,
                total_staked_multiplier,
            ),
            Err(e) => total_staked == 0 && e == StakingError::NothingStakedToSetRatio,
        },
{
    if total_staked == 0 {
        return Err(StakingError::NothingStakedToSetRatio);
    }
    let difference: u128 = dot_in_sovereign - (total_issuance - total_staked);
    Ok(difference * RATIO_ONE / total_staked_multiplier)
}

/// Unstaking pays the account's whole stake back when no rewards have
/// accrued: under the default ratio, a full unstake of a stake whose
/// scaled and unscaled amounts agree transfers exactly the staked amount
/// and burns nothing.
pub proof fn lemma_default_ratio_round_trip(staked: u128)
    requires
        staked > 0,
        staked * RATIO_ONE <= u128::MAX - (RATIO_ONE - 1),
    ensures
        ({
            let s = StakeInfo { staked_without_ratio: staked, staked_with_ratio: staked };
            &&& scaled_portion(s, staked as int) == staked
            &&& tokens_for_portion(staked as int, RATIO_DEFAULT_RAW) == staked
        }),
{
    let s = StakeInfo { staked_without_ratio: staked, staked_with_ratio: staked };
    assert(staked * s.staked_with_ratio / (s.staked_without_ratio as int) == staked as int)
        by (nonlinear_arith)
        requires
            staked > 0,
            s.staked_with_ratio == staked,
            s.staked_without_ratio == staked,
    ;
    assert((staked * RATIO_ONE + (RATIO_ONE - 1)) / (RATIO_ONE as int) == staked as int)
        by (nonlinear_arith)
        requires
            RATIO_ONE > 1,
            staked > 0,
    ;
}

} // verus!
