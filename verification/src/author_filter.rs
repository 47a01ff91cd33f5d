//! Eligible-author selection.
//!
//! At each height a pseudorandom subset of the staked accounts is eligible
//! to author.  The randomness beacon's 32 bytes come from outside; given
//! them, the selection is deterministic: when no more accounts are staked
//! than the bound, all of them are eligible; otherwise one account is drawn
//! per round by reading a byte of the randomness as an index into what
//! remains of the staked list.

use vstd::prelude::*;

verus! {

/// The most accounts eligible to author at one height.  It must stay below
/// the 32 bytes of randomness a draw reads from.
pub const MAX_ELIGIBLE: usize = 3;

/// The accounts drawn from round `i` on: each round removes the account at
/// the position the round's randomness byte selects, modulo how many are
/// left.
pub open spec fn spec_draw(randomness: Seq<u8>, staked: Seq<u64>, i: nat) -> Seq<u64>
    decreases staked.len(),
{
    if i >= MAX_ELIGIBLE || staked.len() == 0 {
        Seq::empty()
    } else {
        let idx = (randomness[i as int] as int) % (staked.len() as int);
        seq![staked[idx]] + spec_draw(randomness, staked.remove(idx), i + 1)
    }
}

/// The eligible subset of the staked accounts for one beacon value: all of
/// them when at most `MAX_ELIGIBLE` are staked, else `MAX_ELIGIBLE` drawn
/// one by one.
pub open spec fn spec_select_eligible(randomness: Seq<u8>, staked: Seq<u64>) -> Seq<u64> {
    if staked.len() <= MAX_ELIGIBLE {
        staked
    } else {
        spec_draw(randomness, staked, 0)
    }
}

/// Reduces the staked accounts to the subset eligible to author under the
/// given 32-byte randomness beacon value.
pub fn select_eligible(randomness: &Vec<u8>, staked: Vec<u64>) -> (r: Vec<u64>)
    requires
        randomness@.len() == 32,
    ensures
        r@ == spec_select_eligible(randomness@, staked@),
{
    if staked.len() <= MAX_ELIGIBLE {
        return staked;
    }
    let ghost orig = staked@;
    let mut remaining = staked;
    let mut eligible: Vec<u64> = Vec::new();
    let mut i: usize = 0;
    while i < MAX_ELIGIBLE
        invariant
            i <= MAX_ELIGIBLE,
            randomness@.len() == 32,
            remaining@.len() == orig.len() - i,
            orig.len() > MAX_ELIGIBLE,
            spec_draw(randomness@, orig, 0) == eligible@ + spec_draw(
                randomness@,
                remaining@,
                i as nat,
            ),
        decreases MAX_ELIGIBLE - i,
    {
        let ghost before = remaining@;
        let idx = (randomness[i] as usize) % remaining.len();
        let chosen = remaining.remove(idx);
        eligible.push(chosen);
        i = i + 1;
        proof {
            assert(spec_draw(randomness@, before, (i - 1) as nat) == seq![before[idx as int]]
                + spec_draw(randomness@, before.remove(idx as int), i as nat));
            assert(eligible@ + spec_draw(randomness@, remaining@, i as nat) =~= spec_draw(
                randomness@,
                orig,
                0,
            ));
        }
    }
    proof {
        assert(spec_draw(randomness@, remaining@, i as nat) =~= Seq::<u64>::empty());
        assert(eligible@ =~= spec_draw(randomness@, orig, 0));
    }
    eligible
}

/// Whether the account is eligible to author: membership in the current
/// eligible set.
pub fn can_author(account: u64, eligible: &Vec<u64>) -> (r: bool)
    ensures
        r == eligible@.contains(account),
{
    let mut i: usize = 0;
    while i < eligible.len()
        invariant
            i <= eligible.len(),
            forall|j: int| 0 <= j < i ==> eligible@[j] != account,
        decreases eligible.len() - i,
    {
        if eligible[i] == account {
            return true;
        }
        i = i + 1;
    }
    false
}

/// Every eligible account was staked: a draw only ever moves accounts out
/// of the staked list, so selection invents no account.
pub proof fn lemma_draw_members_staked(randomness: Seq<u8>, staked: Seq<u64>, i: nat)
    ensures
        forall|k: int|
            0 <= k < spec_draw(randomness, staked, i).len() ==> staked.contains(
                #[trigger] spec_draw(randomness, staked, i)[k],
            ),
    decreases staked.len(),
{
    if i < MAX_ELIGIBLE && staked.len() > 0 {
        let idx = (randomness[i as int] as int) % (staked.len() as int);
        let rest = staked.remove(idx);
        lemma_draw_members_staked(randomness, rest, i + 1);
        let d = spec_draw(randomness, staked, i);
        assert forall|k: int| 0 <= k < d.len() implies staked.contains(#[trigger] d[k]) by {
            if k == 0 {
                assert(d[0] == staked[idx]);
            } else {
                assert(d[k] == spec_draw(randomness, rest, i + 1)[k - 1]);
                assert(rest.contains(d[k]));
                let j = choose|j: int| 0 <= j < rest.len() && rest[j] == d[k];
                if j < idx {
                    assert(staked[j] == rest[j]);
                } else {
                    assert(staked[j + 1] == rest[j]);
                }
            }
        }
    }
}

} // verus!
