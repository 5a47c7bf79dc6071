//! Governance: the stake-weighted tally of a proposal and the settlement of
//! proposals whose voting period has ended.
use vstd::prelude::*;
use crate::tally::Address;

verus! {

/// A delegator's vote, counted with the power it delegates to `validator`.
#[derive(Clone, Copy, Debug, PartialEq, Eq, Structural)]
pub struct DelegatorVote {
    pub delegator: Address,
    pub validator: Address,
    pub power: u64,
}

/// The votes cast on one proposal.
#[derive(Clone, Debug)]
pub struct Votes {
    /// Validators that voted yay, with their voting power.
    pub yay_validators: Vec<(Address, u64)>,
    /// Delegators that voted yay.
    pub yay_delegators: Vec<DelegatorVote>,
    /// Delegators that voted nay. They add nothing to the yay power.
    pub nay_delegators: Vec<DelegatorVote>,
}

/// The sum of the powers of the yay validators.
pub open spec fn validators_power(yay_validators: Seq<(Address, u64)>) -> nat
    decreases yay_validators.len(),
{
    if yay_validators.len() == 0 {
        0
    } else {
        validators_power(yay_validators.drop_last()) + yay_validators.last().1 as nat
    }
}

/// The sum of the powers of the delegator votes `ds`.
pub open spec fn delegators_power(ds: Seq<DelegatorVote>) -> nat
    decreases ds.len(),
{
    if ds.len() == 0 {
        0
    } else {
        delegators_power(ds.drop_last()) + ds.last().power as nat
    }
}

/// The yay power of a proposal: the powers of the yay validators and of the
/// yay delegators. Nay votes add nothing to it.
pub open spec fn yay_power(yay_validators: Seq<(Address, u64)>, yay_delegators: Seq<DelegatorVote>) -> nat {
    validators_power(yay_validators) + delegators_power(yay_delegators)
}

/// A proposal passes iff its yay power is more than two thirds of the total
/// stake.
pub open spec fn tally_accepts(votes: Votes, total_stake: nat) -> bool {
    3 * yay_power(votes.yay_validators@, votes.yay_delegators@) > 2 * total_stake
}

const MAX_POWER: u128 = 0xffff_ffff_ffff_ffff;

fn sum_validators(yay_validators: &Vec<(Address, u64)>) -> (r: u128)
    ensures
        r == validators_power(yay_validators@),
        r <= yay_validators@.len() * MAX_POWER,
{
    let mut sum: u128 = 0;
    let mut i: usize = 0;
    while i < yay_validators.len()
        invariant
            i <= yay_validators.len(),
            sum == validators_power(yay_validators@.take(i as int)),
            sum <= i * MAX_POWER,
        decreases yay_validators.len() - i,
    {
        assert(yay_validators@.take(i + 1).drop_last() =~= yay_validators@.take(i as int));
        sum = sum + yay_validators[i].1 as u128;
        i += 1;
    }
    assert(yay_validators@.take(i as int) =~= yay_validators@);
    sum
}

fn sum_delegators(ds: &Vec<DelegatorVote>) -> (r: u128)
    ensures
        r == delegators_power(ds@),
        r <= ds@.len() * MAX_POWER,
{
    let mut sum: u128 = 0;
    let mut i: usize = 0;
    while i < ds.len()
        invariant
            i <= ds.len(),
            sum == delegators_power(ds@.take(i as int)),
            sum <= i * MAX_POWER,
        decreases ds.len() - i,
    {
        assert(ds@.take(i + 1).drop_last() =~= ds@.take(i as int));
        sum = sum + ds[i].power as u128;
        i += 1;
    }
    assert(ds@.take(i as int) =~= ds@);
    sum
}

/// Decides a proposal: `true` iff the summed power of the yay validators
/// and yay delegators is more than two thirds of `total_stake`.
pub fn compute_tally(votes: &Votes, total_stake: u64) -> (r: bool)
    ensures
        r == tally_accepts(*votes, total_stake as nat),
{
    let validators = sum_validators(&votes.yay_validators);
    let delegators = sum_delegators(&votes.yay_delegators);
    let yay = match validators.checked_add(delegators) {
        Some(y) => y,
        None => {
            // more than u128::MAX, far above any two thirds of a u64 stake
            return true;
        },
    };
    let bound = (2 * total_stake as u128) / 3;
    proof {
        let x = yay as int;
        let t = 2 * total_stake as int;
        assert(3 * x > t <==> x > t / 3) by (nonlinear_arith)
            requires
                t >= 0,
        ;
    }
    yay > bound
}

/// With no vote cast, a proposal is rejected, whatever the stake.
pub proof fn lemma_no_votes_rejected(votes: Votes, total_stake: nat)
    requires
        votes.yay_validators@.len() == 0,
        votes.yay_delegators@.len() == 0,
        votes.nay_delegators@.len() == 0,
    ensures
        !tally_accepts(votes, total_stake),
{
}

} // verus!
