//! Tests of the staking genesis build: endowments, bonds reserved at
//! genesis, and the candidate and nominator roles that result.

use trace_filter_cache::staking::{GenesisAccount, GenesisStaker, StakingLedger};

fn endowed(accounts: &[(u64, u128)]) -> Vec<GenesisAccount> {
    accounts.iter().map(|&(account, balance)| GenesisAccount { account, balance }).collect()
}

fn staker(account: u64, target: Option<u64>, bond: u128) -> GenesisStaker {
    GenesisStaker { account, target, bond }
}

fn two_validators_four_nominators() -> StakingLedger {
    let balances = endowed(&[
        (1, 1000),
        (2, 300),
        (3, 100),
        (4, 100),
        (5, 100),
        (6, 100),
        (7, 100),
        (8, 9),
        (9, 4),
    ]);
    let stakers = vec![
        staker(1, None, 500),
        staker(2, None, 200),
        staker(3, Some(1), 100),
        staker(4, Some(1), 100),
        staker(5, Some(2), 100),
        staker(6, Some(2), 100),
    ];
    StakingLedger::build(&balances, &stakers)
}

fn five_validators_five_nominators() -> StakingLedger {
    let balances = endowed(&[
        (1, 100),
        (2, 100),
        (3, 100),
        (4, 100),
        (5, 100),
        (6, 100),
        (7, 100),
        (8, 100),
        (9, 100),
        (10, 100),
    ]);
    let stakers = vec![
        staker(1, None, 20),
        staker(2, None, 20),
        staker(3, None, 20),
        staker(4, None, 20),
        staker(5, None, 10),
        staker(6, Some(1), 10),
        staker(7, Some(2), 10),
        staker(8, Some(3), 10),
        staker(9, Some(4), 10),
        staker(10, Some(5), 10),
    ];
    StakingLedger::build(&balances, &stakers)
}

#[test]
fn geneses() {
    let ledger = two_validators_four_nominators();
    // validators
    assert_eq!(ledger.reserved_balance(1), 500);
    assert_eq!(ledger.free_balance(1), 500);
    assert!(ledger.is_candidate(1));
    assert_eq!(ledger.reserved_balance(2), 200);
    assert_eq!(ledger.free_balance(2), 100);
    assert!(ledger.is_candidate(2));
    // nominators
    for x in 3..7 {
        assert!(ledger.is_nominator(x));
        assert_eq!(ledger.free_balance(x), 0);
        assert_eq!(ledger.reserved_balance(x), 100);
    }
    // uninvolved
    for x in 7..10 {
        assert!(!ledger.is_nominator(x));
    }
    assert_eq!(ledger.free_balance(7), 100);
    assert_eq!(ledger.reserved_balance(7), 0);
    assert_eq!(ledger.free_balance(8), 9);
    assert_eq!(ledger.reserved_balance(8), 0);
    assert_eq!(ledger.free_balance(9), 4);
    assert_eq!(ledger.reserved_balance(9), 0);

    let ledger = five_validators_five_nominators();
    // validators
    for x in 1..5 {
        assert!(ledger.is_candidate(x));
        assert_eq!(ledger.free_balance(x), 80);
        assert_eq!(ledger.reserved_balance(x), 20);
    }
    assert!(ledger.is_candidate(5));
    assert_eq!(ledger.free_balance(5), 90);
    assert_eq!(ledger.reserved_balance(5), 10);
    // nominators
    for x in 6..11 {
        assert!(ledger.is_nominator(x));
        assert_eq!(ledger.free_balance(x), 90);
        assert_eq!(ledger.reserved_balance(x), 10);
    }
}

#[test]
fn unknown_accounts_hold_nothing_and_have_no_role() {
    let ledger = two_validators_four_nominators();
    assert_eq!(ledger.free_balance(99), 0);
    assert_eq!(ledger.reserved_balance(99), 0);
    assert!(!ledger.is_candidate(99));
    assert!(!ledger.is_nominator(99));
}

#[test]
fn genesis_conserves_each_endowment() {
    let ledger = five_validators_five_nominators();
    for x in 1..11 {
        assert_eq!(ledger.free_balance(x) + ledger.reserved_balance(x), 100);
    }
}
