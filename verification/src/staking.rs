//! A model of the staking genesis build.
//!
//! A chain starts from a genesis configuration: endowed accounts, and the
//! stakers among them — validator candidates, who bond on their own behalf,
//! and nominators, who bond behind a validator.  Building the genesis
//! reserves each staker's bond out of its endowment; an account that stakes
//! nothing keeps its whole endowment free.

use vstd::prelude::*;

verus! {

/// One endowed account of the genesis configuration.
#[derive(Clone, Copy, PartialEq, Eq, Debug)]
pub struct GenesisAccount {
    pub account: u64,
    pub balance: u128,
}

/// One staker of the genesis configuration: a validator candidate when
/// `target` is absent, a nominator of `target` otherwise.
#[derive(Clone, Copy, PartialEq, Eq, Debug)]
pub struct GenesisStaker {
    pub account: u64,
    pub target: Option<u64>,
    pub bond: u128,
}

/// One account's state after the genesis build.
#[derive(Clone, Copy, PartialEq, Eq, Debug)]
pub struct AccountState {
    pub account: u64,
    pub free: u128,
    pub reserved: u128,
    pub candidate: bool,
    pub nominator: bool,
}

/// Whether some staker entry names the account.
pub open spec fn has_staker(stakers: Seq<GenesisStaker>, a: u64) -> bool {
    exists|i: int| 0 <= i < stakers.len() && (#[trigger] stakers[i]).account == a
}

/// The position of the staker entry naming the account.
pub open spec fn staker_index(stakers: Seq<GenesisStaker>, a: u64) -> int {
    choose|i: int| 0 <= i < stakers.len() && (#[trigger] stakers[i]).account == a
}

/// The staker entry naming the account.
pub open spec fn staker_of(stakers: Seq<GenesisStaker>, a: u64) -> GenesisStaker {
    stakers[staker_index(stakers, a)]
}

/// Whether the accounts of `stakers` are distinct.
pub open spec fn stakers_distinct(stakers: Seq<GenesisStaker>) -> bool {
    forall|i: int, j: int|
        0 <= i < j < stakers.len() ==> (#[trigger] stakers[i]).account != (
        #[trigger] stakers[j]).account
}

/// With distinct accounts, position `i` is the position its own account is
/// found at.
pub proof fn lemma_staker_at(stakers: Seq<GenesisStaker>, i: int)
    requires
        stakers_distinct(stakers),
        0 <= i < stakers.len(),
    ensures
        has_staker(stakers, stakers[i].account),
        staker_index(stakers, stakers[i].account) == i,
        staker_of(stakers, stakers[i].account) == stakers[i],
{
    assert(has_staker(stakers, stakers[i].account));
}

/// A well-formed genesis configuration: endowed accounts distinct, staker
/// accounts distinct, and every staker endowed with at least its bond.
pub open spec fn genesis_wf(balances: Seq<GenesisAccount>, stakers: Seq<GenesisStaker>) -> bool {
    &&& forall|i: int, j: int|
        0 <= i < j < balances.len() ==> (#[trigger] balances[i]).account != (
        #[trigger] balances[j]).account
    &&& stakers_distinct(stakers)
    &&& forall|i: int|
        0 <= i < stakers.len() ==> exists|j: int|
            0 <= j < balances.len() && (#[trigger] stakers[i]).account == (
            #[trigger] balances[j]).account && stakers[i].bond <= balances[j].balance
}

/// The state the genesis build owes an endowed account: its bond, if it
/// stakes, is moved from free to reserved, and its role follows its staker
/// entry's target.
pub open spec fn expected_state(acct: GenesisAccount, stakers: Seq<GenesisStaker>) -> AccountState {
    if has_staker(stakers, acct.account) {
        let s = staker_of(stakers, acct.account);
        AccountState {
            account: acct.account,
            free: (acct.balance - s.bond) as u128,
            reserved: s.bond,
            candidate: s.target is None,
            nominator: s.target is Some,
        }
    } else {
        AccountState {
            account: acct.account,
            free: acct.balance,
            reserved: 0,
            candidate: false,
            nominator: false,
        }
    }
}

/// Whether some built state names the account.
pub open spec fn has_account(s: Seq<AccountState>, a: u64) -> bool {
    exists|i: int| 0 <= i < s.len() && (#[trigger] s[i]).account == a
}

/// The position of the built state naming the account.
pub open spec fn account_index(s: Seq<AccountState>, a: u64) -> int {
    choose|i: int| 0 <= i < s.len() && (#[trigger] s[i]).account == a
}

/// The built state naming the account.
pub open spec fn state_of(s: Seq<AccountState>, a: u64) -> AccountState {
    s[account_index(s, a)]
}

/// The chain state after the genesis build.
pub struct StakingLedger {
    pub accounts: Vec<AccountState>,
}

impl StakingLedger {
    /// The ledger's invariant: one state per account.
    pub open spec fn wf(self) -> bool {
        forall|i: int, j: int|
            0 <= i < j < self.accounts@.len() ==> (#[trigger] self.accounts@[i]).account != (
            #[trigger] self.accounts@[j]).account
    }

    /// What an unknown account reads as: nothing free, nothing reserved, no
    /// role.
    pub open spec fn spec_state(self, a: u64) -> AccountState {
        if has_account(self.accounts@, a) {
            state_of(self.accounts@, a)
        } else {
            AccountState { account: a, free: 0, reserved: 0, candidate: false, nominator: false }
        }
    }

    /// Builds the genesis state: one state per endowed account, each owed
    /// `expected_state` — bond reserved, remainder free, role from the
    /// staker entry.
    pub fn build(balances: &Vec<GenesisAccount>, stakers: &Vec<GenesisStaker>) -> (r: StakingLedger)
        requires
            genesis_wf(balances@, stakers@),
        ensures
            r.wf(),
            r.accounts@.len() == balances@.len(),
            forall|i: int|
                0 <= i < balances@.len() ==> (#[trigger] r.accounts@[i]) == expected_state(
                    balances@[i],
                    stakers@,
                ),
    {
        let mut accounts: Vec<AccountState> = Vec::new();
        let mut i: usize = 0;
        while i < balances.len()
            invariant
                i <= balances.len(),
                genesis_wf(balances@, stakers@),
                accounts@.len() == i,
                forall|j: int|
                    0 <= j < i ==> (#[trigger] accounts@[j]) == expected_state(
                        balances@[j],
                        stakers@,
                    ),
            decreases balances.len() - i,
        {
            let acct = balances[i];
            let state = match Self::find_staker(stakers, acct.account) {
                Some(s_idx) => {
                    let s = stakers[s_idx];
                    proof {
                        lemma_staker_at(stakers@, s_idx as int);
                        let j = choose|j: int|
                            0 <= j < balances@.len() && (#[trigger] stakers@[s_idx as int]).account
                                == balances@[j].account && stakers@[s_idx as int].bond
                                <= balances@[j].balance;
                        if j != i {
                            assert(balances@[j].account != balances@[i as int].account);
                        }
                    }
                    AccountState {
                        account: acct.account,
                        free: acct.balance - s.bond,
                        reserved: s.bond,
                        candidate: s.target.is_none(),
                        nominator: s.target.is_some(),
                    }
                },
                None => AccountState {
                    account: acct.account,
                    free: acct.balance,
                    reserved: 0,
                    candidate: false,
                    nominator: false,
                },
            };
            accounts.push(state);
            i = i + 1;
        }
        let r = StakingLedger { accounts };
        proof {
            assert forall|p: int, q: int| 0 <= p < q < r.accounts@.len() implies (
            #[trigger] r.accounts@[p]).account != (#[trigger] r.accounts@[q]).account by {
                assert(r.accounts@[p].account == balances@[p].account);
                assert(r.accounts@[q].account == balances@[q].account);
            }
        }
        r
    }

    /// The position of the staker entry naming the account, if any.
    fn find_staker(stakers: &Vec<GenesisStaker>, a: u64) -> (r: Option<usize>)
        ensures
            match r {
                Some(i) => i < stakers@.len() && stakers@[i as int].account == a,
                None => !has_staker(stakers@, a),
            },
    {
        let mut i: usize = 0;
        while i < stakers.len()
            invariant
                i <= stakers.len(),
                forall|j: int| 0 <= j < i ==> (#[trigger] stakers@[j]).account != a,
            decreases stakers.len() - i,
        {
            if stakers[i].account == a {
                return Some(i);
            }
            i = i + 1;
        }
        None
    }

    /// The position of the built state naming the account, if any.
    fn find_account(&self, a: u64) -> (r: Option<usize>)
        ensures
            match r {
                Some(i) => i < self.accounts@.len() && self.accounts@[i as int].account == a,
                None => !has_account(self.accounts@, a),
            },
    {
        let mut i: usize = 0;
        while i < self.accounts.len()
            invariant
                i <= self.accounts.len(),
                forall|j: int| 0 <= j < i ==> (#[trigger] self.accounts@[j]).account != a,
            decreases self.accounts.len() - i,
        {
            if self.accounts[i].account == a {
                return Some(i);
            }
            i = i + 1;
        }
        None
    }

    /// The account's state as read by every query below.
    fn read_state(&self, a: u64) -> (r: AccountState)
        requires
            self.wf(),
        ensures
            r == self.spec_state(a),
    {
        match self.find_account(a) {
            Some(i) => {
                proof {
                    assert(has_account(self.accounts@, a));
                    let j = account_index(self.accounts@, a);
                    if j != i {
                        assert(self.accounts@[j].account != self.accounts@[i as int].account);
                    }
                }
                self.accounts[i]
            },
            None => AccountState { account: a, free: 0, reserved: 0, candidate: false, nominator: false },
        }
    }

    /// The account's free balance; an unknown account has none.
    pub fn free_balance(&self, a: u64) -> (r: u128)
        requires
            self.wf(),
        ensures
            r == self.spec_state(a).free,
    {
        self.read_state(a).free
    }

    /// The account's reserved balance; an unknown account has none.
    pub fn reserved_balance(&self, a: u64) -> (r: u128)
        requires
            self.wf(),
        ensures
            r == self.spec_state(a).reserved,
    {
        self.read_state(a).reserved
    }

    /// Whether the account is a validator candidate.
    pub fn is_candidate(&self, a: u64) -> (r: bool)
        requires
            self.wf(),
        ensures
            r == self.spec_state(a).candidate,
    {
        self.read_state(a).candidate
    }

    /// Whether the account is a nominator.
    pub fn is_nominator(&self, a: u64) -> (r: bool)
        requires
            self.wf(),
        ensures
            r == self.spec_state(a).nominator,
    {
        self.read_state(a).nominator
    }
}

/// The genesis build conserves every endowment: each built state's free and
/// reserved amounts sum to the account's endowed balance.
pub proof fn lemma_genesis_conserves_balances(
    balances: Seq<GenesisAccount>,
    stakers: Seq<GenesisStaker>,
    i: int,
)
    requires
        genesis_wf(balances, stakers),
        0 <= i < balances.len(),
    ensures
        expected_state(balances[i], stakers).free + expected_state(balances[i], stakers).reserved
            == balances[i].balance,
{
    if has_staker(stakers, balances[i].account) {
        let k = staker_index(stakers, balances[i].account);
        let j = choose|j: int|
            0 <= j < balances.len() && (#[trigger] stakers[k]).account == balances[j].account
                && stakers[k].bond <= balances[j].balance;
        if j != i {
            assert(balances[j].account != balances[i].account);
        }
    }
}

} // verus!
