//! Tests of the liquid staking arithmetic: unstake decisions under
//! different reward ratios, and ratio updates from sovereign holdings.

use trace_filter_cache::liquid_staking::{
    compute_ratio, unstake_split, StakeInfo, StakingError, UnstakeOutcome, UnstakePayout,
    RATIO_DEFAULT_RAW, RATIO_ONE,
};

#[test]
fn full_unstake_under_default_ratio_returns_the_stake() {
    let staked = StakeInfo { staked_without_ratio: 100, staked_with_ratio: 100 };
    let got = unstake_split(Some(staked), 100, RATIO_DEFAULT_RAW, 100, 100).unwrap();
    assert_eq!(
        got,
        UnstakeOutcome {
            staked: StakeInfo { staked_without_ratio: 0, staked_with_ratio: 0 },
            total_staked: 0,
            total_staked_multiplier: 0,
            payout: UnstakePayout::Burn { slashed: 0, transferred: 100 },
        }
    );
}

#[test]
fn unstake_with_rewards_mints_the_difference() {
    // A ratio of one and a half: every scaled token is owed 1.5 tokens.
    let ratio = RATIO_ONE + RATIO_ONE / 2;
    let staked = StakeInfo { staked_without_ratio: 100, staked_with_ratio: 100 };
    let got = unstake_split(Some(staked), 40, ratio, 100, 100).unwrap();
    assert_eq!(got.staked, StakeInfo { staked_without_ratio: 60, staked_with_ratio: 60 });
    assert_eq!(got.total_staked, 60);
    assert_eq!(got.total_staked_multiplier, 60);
    assert_eq!(got.payout, UnstakePayout::Deposit { minted: 20, transferred: 40 });
}

#[test]
fn unstake_after_slash_burns_the_loss() {
    // A ratio of one half: every scaled token is owed only half a token.
    let ratio = RATIO_ONE / 2;
    let staked = StakeInfo { staked_without_ratio: 100, staked_with_ratio: 100 };
    let got = unstake_split(Some(staked), 40, ratio, 100, 100).unwrap();
    assert_eq!(got.payout, UnstakePayout::Burn { slashed: 20, transferred: 20 });
}

#[test]
fn owed_tokens_round_up() {
    // One third: unstaking one token is owed ceil(1/3) = 1 token.
    let ratio = RATIO_ONE / 3;
    let staked = StakeInfo { staked_without_ratio: 3, staked_with_ratio: 3 };
    let got = unstake_split(Some(staked), 1, ratio, 3, 3).unwrap();
    assert_eq!(got.payout, UnstakePayout::Burn { slashed: 0, transferred: 1 });
}

#[test]
fn unstaking_without_a_stake_is_refused() {
    assert_eq!(
        unstake_split(None, 10, RATIO_DEFAULT_RAW, 100, 100),
        Err(StakingError::NoRewardsAvailable)
    );
    let staked = StakeInfo { staked_without_ratio: 5, staked_with_ratio: 5 };
    assert_eq!(
        unstake_split(Some(staked), 10, RATIO_DEFAULT_RAW, 100, 100),
        Err(StakingError::NoRewardsAvailable)
    );
}

#[test]
fn ratio_follows_the_sovereign_rewards() {
    // Holdings of 150 against 200 issued of which 100 are staked: the 50
    // excess tokens over 100 scaled staked give a ratio of one half.
    assert_eq!(compute_ratio(150, 200, 100, 100), Ok(RATIO_ONE / 2));
    // No rewards yet: the ratio is one.
    assert_eq!(compute_ratio(100, 100, 100, 100), Ok(RATIO_ONE));
}

#[test]
fn ratio_cannot_be_set_while_nothing_is_staked() {
    assert_eq!(compute_ratio(100, 100, 0, 0), Err(StakingError::NothingStakedToSetRatio));
}
