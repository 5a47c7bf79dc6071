//! Tally of the votes cast on one subject, and the merge of new votes into it.
use vstd::prelude::*;

verus! {

/// On-chain identity of a validator or a delegator.
#[derive(Clone, Copy, Debug, PartialEq, Eq, Structural)]
pub struct Address {
    pub id: u64,
}

/// A voter, together with the block height the vote is attributed to.
#[derive(Clone, Copy, Debug, PartialEq, Eq, Structural)]
pub struct VoterId {
    pub address: Address,
    pub height: u64,
}

/// The storage locations of one tally.
#[derive(Clone, Copy, Debug, PartialEq, Eq, Structural)]
pub enum TallyKey {
    Body,
    Seen,
    SeenBy,
    VotingPower,
    VotingStartedEpoch,
}

/// The set of tally locations written by one update.
#[derive(Clone, Copy, Debug, PartialEq, Eq, Structural)]
pub struct ChangedKeys {
    pub body: bool,
    pub seen: bool,
    pub seen_by: bool,
    pub voting_power: bool,
    pub voting_started_epoch: bool,
}

impl ChangedKeys {
    pub open spec fn nothing() -> ChangedKeys {
        ChangedKeys {
            body: false,
            seen: false,
            seen_by: false,
            voting_power: false,
            voting_started_epoch: false,
        }
    }

    pub open spec fn everything() -> ChangedKeys {
        ChangedKeys {
            body: true,
            seen: true,
            seen_by: true,
            voting_power: true,
            voting_started_epoch: true,
        }
    }

    pub open spec fn has(self, key: TallyKey) -> bool {
        match key {
            TallyKey::Body => self.body,
            TallyKey::Seen => self.seen,
            TallyKey::SeenBy => self.seen_by,
            TallyKey::VotingPower => self.voting_power,
            TallyKey::VotingStartedEpoch => self.voting_started_epoch,
        }
    }

    pub open spec fn is_empty_spec(self) -> bool {
        !self.body && !self.seen && !self.seen_by && !self.voting_power
            && !self.voting_started_epoch
    }

    /// No location changed.
    pub fn none() -> (r: ChangedKeys)
        ensures
            r == ChangedKeys::nothing(),
    {
        ChangedKeys {
            body: false,
            seen: false,
            seen_by: false,
            voting_power: false,
            voting_started_epoch: false,
        }
    }

    pub fn is_empty(&self) -> (r: bool)
        ensures
            r == self.is_empty_spec(),
    {
        !self.body && !self.seen && !self.seen_by && !self.voting_power
            && !self.voting_started_epoch
    }

    pub fn contains(&self, key: TallyKey) -> (r: bool)
        ensures
            r == self.has(key),
    {
        match key {
            TallyKey::Body => self.body,
            TallyKey::Seen => self.seen,
            TallyKey::SeenBy => self.seen_by,
            TallyKey::VotingPower => self.voting_power,
            TallyKey::VotingStartedEpoch => self.voting_started_epoch,
        }
    }
}

/// Accumulated votes on one subject.
#[derive(Clone, Debug)]
pub struct Tally {
    /// Whether the accumulated power has passed two thirds of the total.
    pub seen: bool,
    /// The voters counted so far, each once.
    pub seen_by: Vec<VoterId>,
    /// The sum of the voting powers of `seen_by`.
    pub voting_power: u64,
}

/// Mathematical model of a [`Tally`].
pub struct TallyView {
    pub seen: bool,
    pub seen_by: Seq<VoterId>,
    pub voting_power: nat,
}

impl View for Tally {
    type V = TallyView;

    open spec fn view(&self) -> TallyView {
        TallyView { seen: self.seen, seen_by: self.seen_by@, voting_power: self.voting_power as nat }
    }
}

impl Tally {
    /// Each voter is counted once.
    pub open spec fn wf(&self) -> bool {
        self.seen_by@.no_duplicates()
    }

    /// A copy of this tally.
    pub fn duplicate(&self) -> (r: Tally)
        ensures
            r@ == self@,
    {
        let mut seen_by: Vec<VoterId> = Vec::new();
        let mut i: usize = 0;
        while i < self.seen_by.len()
            invariant
                i <= self.seen_by.len(),
                seen_by@ == self.seen_by@.take(i as int),
            decreases self.seen_by.len() - i,
        {
            seen_by.push(self.seen_by[i]);
            i += 1;
            assert(seen_by@ =~= self.seen_by@.take(i as int));
        }
        assert(self.seen_by@.take(i as int) =~= self.seen_by@);
        Tally { seen: self.seen, seen_by, voting_power: self.voting_power }
    }
}

pub open spec fn option_view(t: Option<Tally>) -> Option<TallyView> {
    match t {
        Some(t) => Some(t@),
        None => None,
    }
}

/// Strict two-thirds supermajority of `power` over `total`.
pub open spec fn quorum(power: nat, total: nat) -> bool {
    3 * power > 2 * total
}

/// Whether `power` is a strict two-thirds supermajority of `total`.
pub fn has_quorum(power: u64, total: u64) -> (r: bool)
    ensures
        r == quorum(power as nat, total as nat),
{
    (power as u128) * 3 > (total as u128) * 2
}

/// The voters of `existing` followed by those of `votes` that were not counted
/// yet, in order of first occurrence.
pub open spec fn merged_voters(existing: Seq<VoterId>, votes: Seq<(VoterId, u64)>) -> Seq<VoterId>
    decreases votes.len(),
{
    if votes.len() == 0 {
        existing
    } else {
        let prev = merged_voters(existing, votes.drop_last());
        if prev.contains(votes.last().0) {
            prev
        } else {
            prev.push(votes.last().0)
        }
    }
}

/// The power that `votes` add to a tally counted by `existing`: each new voter
/// counts once, with the power of its first occurrence.
pub open spec fn added_power(existing: Seq<VoterId>, votes: Seq<(VoterId, u64)>) -> nat
    decreases votes.len(),
{
    if votes.len() == 0 {
        0
    } else {
        let prev = merged_voters(existing, votes.drop_last());
        added_power(existing, votes.drop_last()) + if prev.contains(votes.last().0) {
            0
        } else {
            votes.last().1 as nat
        }
    }
}

/// The outcome of merging `votes` into `existing`: the new tally and the
/// locations written, or `None` where the power would not fit in a `u64`.
pub open spec fn merge_result(
    existing: Option<TallyView>,
    votes: Seq<(VoterId, u64)>,
    total: nat,
) -> Option<(TallyView, ChangedKeys)> {
    match existing {
        None => {
            let power = added_power(Seq::empty(), votes);
            if power > u64::MAX {
                None
            } else {
                Some(
                    (
                        TallyView {
                            seen: quorum(power, total),
                            seen_by: merged_voters(Seq::empty(), votes),
                            voting_power: power,
                        },
                        ChangedKeys::everything(),
                    ),
                )
            }
        },
        Some(t) => {
            if t.seen {
                Some((t, ChangedKeys::nothing()))
            } else if merged_voters(t.seen_by, votes).len() == t.seen_by.len() {
                Some((t, ChangedKeys::nothing()))
            } else {
                let power = t.voting_power + added_power(t.seen_by, votes);
                if power > u64::MAX {
                    None
                } else {
                    let seen = quorum(power, total);
                    Some(
                        (
                            TallyView {
                                seen,
                                seen_by: merged_voters(t.seen_by, votes),
                                voting_power: power,
                            },
                            ChangedKeys {
                                body: false,
                                seen,
                                seen_by: true,
                                voting_power: true,
                                voting_started_epoch: false,
                            },
                        ),
                    )
                }
            }
        },
    }
}

proof fn lemma_merged_voters_distinct(existing: Seq<VoterId>, votes: Seq<(VoterId, u64)>)
    requires
        existing.no_duplicates(),
    ensures
        merged_voters(existing, votes).no_duplicates(),
    decreases votes.len(),
{
    if votes.len() > 0 {
        lemma_merged_voters_distinct(existing, votes.drop_last());
        let prev = merged_voters(existing, votes.drop_last());
        if !prev.contains(votes.last().0) {
            let next = prev.push(votes.last().0);
            assert forall|i: int, j: int| 0 <= i < next.len() && 0 <= j < next.len() && i != j implies next[i] != next[j] by {
                if i == prev.len() as int {
                    assert(prev[j] == next[j]);
                } else if j == prev.len() as int {
                    assert(prev[i] == next[i]);
                }
            }
        }
    }
}

/// Every voter of `votes` is among the merged voters.
proof fn lemma_merged_voters_cover(existing: Seq<VoterId>, votes: Seq<(VoterId, u64)>)
    ensures
        forall|x: VoterId| existing.contains(x) ==> merged_voters(existing, votes).contains(x),
        forall|j: int| 0 <= j < votes.len() ==> merged_voters(existing, votes).contains(#[trigger] votes[j].0),
    decreases votes.len(),
{
    if votes.len() > 0 {
        let dl = votes.drop_last();
        lemma_merged_voters_cover(existing, dl);
        let prev = merged_voters(existing, dl);
        let next = merged_voters(existing, votes);
        assert forall|x: VoterId| prev.contains(x) implies next.contains(x) by {
            if !prev.contains(votes.last().0) {
                let k = choose|k: int| 0 <= k < prev.len() && prev[k] == x;
                assert(next[k] == x);
            }
        }
        assert(next.contains(votes.last().0)) by {
            if !prev.contains(votes.last().0) {
                assert(next[prev.len() as int] == votes.last().0);
            }
        }
        assert forall|j: int| 0 <= j < votes.len() implies next.contains(#[trigger] votes[j].0) by {
            if j < votes.len() - 1 {
                assert(dl[j] == votes[j]);
                assert(prev.contains(dl[j].0));
            }
        }
    }
}

proof fn lemma_merged_voters_grow(existing: Seq<VoterId>, votes: Seq<(VoterId, u64)>)
    ensures
        merged_voters(existing, votes).len() >= existing.len(),
        merged_voters(existing, votes).subrange(0, existing.len() as int) == existing,
    decreases votes.len(),
{
    if votes.len() > 0 {
        lemma_merged_voters_grow(existing, votes.drop_last());
        let prev = merged_voters(existing, votes.drop_last());
        if !prev.contains(votes.last().0) {
            assert(prev.push(votes.last().0).subrange(0, existing.len() as int) =~= prev.subrange(
                0,
                existing.len() as int,
            ));
        }
    }
}

proof fn lemma_no_new_voters(existing: Seq<VoterId>, votes: Seq<(VoterId, u64)>)
    requires
        merged_voters(existing, votes).len() == existing.len(),
    ensures
        merged_voters(existing, votes) == existing,
        added_power(existing, votes) == 0,
    decreases votes.len(),
{
    lemma_merged_voters_grow(existing, votes);
    assert(merged_voters(existing, votes).subrange(0, existing.len() as int) =~= merged_voters(existing, votes));
    if votes.len() > 0 {
        lemma_merged_voters_grow(existing, votes.drop_last());
        lemma_no_new_voters(existing, votes.drop_last());
    }
}

proof fn lemma_merged_voters_prefix(existing: Seq<VoterId>, votes: Seq<(VoterId, u64)>, i: int)
    requires
        0 <= i <= votes.len(),
    ensures
        merged_voters(existing, votes.take(i)).len() <= merged_voters(existing, votes).len(),
    decreases votes.len(),
{
    if i < votes.len() {
        lemma_merged_voters_prefix(existing, votes.drop_last(), i);
        assert(votes.drop_last().take(i) =~= votes.take(i));
    } else {
        assert(votes.take(i) =~= votes);
    }
}

proof fn lemma_added_power_monotone(existing: Seq<VoterId>, votes: Seq<(VoterId, u64)>, i: int)
    requires
        0 <= i <= votes.len(),
    ensures
        added_power(existing, votes.take(i)) <= added_power(existing, votes),
    decreases votes.len(),
{
    if i < votes.len() {
        lemma_added_power_monotone(existing, votes.drop_last(), i);
        assert(votes.drop_last().take(i) =~= votes.take(i));
    } else {
        assert(votes.take(i) =~= votes);
    }
}

/// Whether `id` is among `voters`.
fn contains_voter(voters: &Vec<VoterId>, id: VoterId) -> (r: bool)
    ensures
        r == voters@.contains(id),
{
    let mut i: usize = 0;
    while i < voters.len()
        invariant
            i <= voters.len(),
            forall|j: int| 0 <= j < i ==> voters@[j] != id,
        decreases voters.len() - i,
    {
        if voters[i] == id {
            return true;
        }
        i += 1;
    }
    false
}

/// Merges a batch of new votes into the tally of a subject.
///
/// A voter already counted, or repeated in the batch, counts once, with the
/// power of its first occurrence. A tally that is already seen is returned
/// unchanged with no changed location. `None` where the accumulated power
/// would not fit in a `u64`.
pub fn merge(existing: Option<Tally>, new_votes: &Vec<(VoterId, u64)>, total_voting_power: u64) -> (r: Option<(Tally, ChangedKeys)>)
    requires
        existing is Some ==> existing.unwrap().wf(),
    ensures
        r is Some ==> r.unwrap().0.wf(),
        match r {
            Some((t, c)) => merge_result(option_view(existing), new_votes@, total_voting_power as nat) == Some((t@, c)),
            None => merge_result(option_view(existing), new_votes@, total_voting_power as nat) is None,
        },
{
    let fresh = existing.is_none();
    let (mut seen_by, mut power) = match existing {
        Some(t) => {
            if t.seen {
                return Some((t, ChangedKeys::none()));
            }
            (t.seen_by, t.voting_power)
        },
        None => (Vec::new(), 0u64),
    };
    let base_len = seen_by.len();
    let ghost base_voters = seen_by@;
    let ghost base_power = power as nat;
    let mut i: usize = 0;
    while i < new_votes.len()
        invariant
            i <= new_votes.len(),
            fresh == existing is None,
            existing is Some ==> !existing.unwrap().seen && base_voters == existing.unwrap().seen_by@
                && base_power == existing.unwrap().voting_power,
            existing is None ==> base_voters == Seq::<VoterId>::empty() && base_power == 0,
            seen_by@ == merged_voters(base_voters, new_votes@.take(i as int)),
            power as nat == base_power + added_power(base_voters, new_votes@.take(i as int)),
        decreases new_votes.len() - i,
    {
        let (id, amount) = new_votes[i];
        assert(new_votes@.take(i + 1).drop_last() =~= new_votes@.take(i as int));
        if !contains_voter(&seen_by, id) {
            match power.checked_add(amount) {
                Some(p) => {
                    power = p;
                },
                None => {
                    proof {
                        lemma_added_power_monotone(base_voters, new_votes@, i + 1);
                        lemma_merged_voters_prefix(base_voters, new_votes@, i + 1);
                        lemma_merged_voters_grow(base_voters, new_votes@.take(i as int));
                        assert(new_votes@.take(i + 1).last() == (id, amount));
                        assert(merged_voters(base_voters, new_votes@.take(i + 1)) == seen_by@.push(id));
                        assert(added_power(base_voters, new_votes@.take(i + 1)) == added_power(base_voters, new_votes@.take(i as int)) + amount);
                    }
                    return None;
                },
            }
            seen_by.push(id);
        }
        i += 1;
    }
    assert(new_votes@.take(new_votes.len() as int) =~= new_votes@);
    proof {
        lemma_merged_voters_distinct(base_voters, new_votes@);
    }
    if !fresh && seen_by.len() == base_len {
        proof {
            lemma_no_new_voters(base_voters, new_votes@);
        }
        let t = Tally { seen: false, seen_by, voting_power: power };
        assert(t@ == option_view(existing).unwrap());
        return Some((t, ChangedKeys::none()));
    }
    let seen = has_quorum(power, total_voting_power);
    let changed = if fresh {
        ChangedKeys {
            body: true,
            seen: true,
            seen_by: true,
            voting_power: true,
            voting_started_epoch: true,
        }
    } else {
        ChangedKeys {
            body: false,
            seen,
            seen_by: true,
            voting_power: true,
            voting_started_epoch: false,
        }
    };
    Some((Tally { seen, seen_by, voting_power: power }, changed))
}


/// The tally after merging each batch of `batches` in turn, starting from
/// `start`. A batch whose merge would overflow leaves the tally as it was.
pub open spec fn merge_all(
    start: Option<TallyView>,
    batches: Seq<Seq<(VoterId, u64)>>,
    total: nat,
) -> Option<TallyView>
    decreases batches.len(),
{
    if batches.len() == 0 {
        start
    } else {
        let prev = merge_all(start, batches.drop_last(), total);
        match merge_result(prev, batches.last(), total) {
            Some((t, _)) => Some(t),
            None => prev,
        }
    }
}

/// Merging any batch into a seen tally leaves it unchanged and changes no
/// location.
pub proof fn lemma_merge_seen_is_noop(t: TallyView, votes: Seq<(VoterId, u64)>, total: nat)
    requires
        t.seen,
    ensures
        merge_result(Some(t), votes, total) == Some((t, ChangedKeys::nothing())),
{
}

/// Once seen, a tally stays seen, and unchanged, whatever batches follow.
pub proof fn lemma_seen_is_final(t: TallyView, batches: Seq<Seq<(VoterId, u64)>>, total: nat)
    requires
        t.seen,
    ensures
        merge_all(Some(t), batches, total) == Some(t),
    decreases batches.len(),
{
    if batches.len() > 0 {
        lemma_seen_is_final(t, batches.drop_last(), total);
    }
}

/// A tally built by merges is seen as soon as its voting power is more than
/// two thirds of the total.
pub proof fn lemma_quorum_is_seen(
    start: Option<TallyView>,
    batches: Seq<Seq<(VoterId, u64)>>,
    total: nat,
)
    requires
        start is Some ==> (quorum(start.unwrap().voting_power, total) ==> start.unwrap().seen),
    ensures
        merge_all(start, batches, total) is Some ==> (quorum(
            merge_all(start, batches, total).unwrap().voting_power,
            total,
        ) ==> merge_all(start, batches, total).unwrap().seen),
    decreases batches.len(),
{
    if batches.len() > 0 {
        lemma_quorum_is_seen(start, batches.drop_last(), total);
    }
}


/// The summed power of `voters`, each with its power in `powers`.
pub open spec fn voters_power(voters: Seq<VoterId>, powers: Map<VoterId, u64>) -> nat
    decreases voters.len(),
{
    if voters.len() == 0 {
        0
    } else {
        voters_power(voters.drop_last(), powers) + powers[voters.last()] as nat
    }
}

/// Every vote of `votes` carries its voter's power in `powers`.
pub open spec fn powers_agree(votes: Seq<(VoterId, u64)>, powers: Map<VoterId, u64>) -> bool {
    forall|j: int| 0 <= j < votes.len() ==> powers.contains_key(#[trigger] votes[j].0) && powers[votes[j].0] == votes[j].1
}

/// Every voter of every batch of `batches` is among `voters`.
pub open spec fn counts_all(voters: Seq<VoterId>, batches: Seq<Seq<(VoterId, u64)>>) -> bool {
    forall|b: int, j: int| 0 <= b < batches.len() && 0 <= j < batches[b].len() ==> voters.contains(#[trigger] batches[b][j].0)
}

/// Each merge of the batches of `batches` in turn fits in a `u64`.
pub open spec fn merges_fit(start: Option<TallyView>, batches: Seq<Seq<(VoterId, u64)>>, total: nat) -> bool
    decreases batches.len(),
{
    batches.len() == 0 || (merges_fit(start, batches.drop_last(), total) && merge_result(
        merge_all(start, batches.drop_last(), total),
        batches.last(),
        total,
    ) is Some)
}

proof fn lemma_added_power_sum(existing: Seq<VoterId>, votes: Seq<(VoterId, u64)>, powers: Map<VoterId, u64>)
    requires
        powers_agree(votes, powers),
    ensures
        voters_power(existing, powers) + added_power(existing, votes) == voters_power(
            merged_voters(existing, votes),
            powers,
        ),
    decreases votes.len(),
{
    if votes.len() > 0 {
        let dl = votes.drop_last();
        assert forall|j: int| 0 <= j < dl.len() implies powers.contains_key(#[trigger] dl[j].0) && powers[dl[j].0] == dl[j].1 by {
            assert(dl[j] == votes[j]);
        }
        lemma_added_power_sum(existing, dl, powers);
        let prev = merged_voters(existing, dl);
        if !prev.contains(votes.last().0) {
            assert(prev.push(votes.last().0).drop_last() =~= prev);
            assert(powers_agree(votes, powers) ==> powers[votes[votes.len() - 1].0] == votes[votes.len() - 1].1);
        }
    }
}

/// The law behind quorum: after merging a sequence of batches from nothing,
/// where each voter always votes with the same power, a tally that is not seen
/// counts every voter of every batch exactly once, its power is their summed
/// power, and that power is at most two thirds of the total. So once the
/// summed power of the distinct voters of the batches is more than two thirds
/// of the total, the tally is seen.
pub proof fn lemma_unseen_tally_counts_every_voter(
    batches: Seq<Seq<(VoterId, u64)>>,
    total: nat,
    powers: Map<VoterId, u64>,
)
    requires
        batches.len() > 0,
        forall|b: int| 0 <= b < batches.len() ==> powers_agree(#[trigger] batches[b], powers),
        merges_fit(None, batches, total),
    ensures
        merge_all(None, batches, total) is Some,
        merge_all(None, batches, total).unwrap().seen_by.no_duplicates(),
        !merge_all(None, batches, total).unwrap().seen ==> {
            let t = merge_all(None, batches, total).unwrap();
            &&& counts_all(t.seen_by, batches)
            &&& t.voting_power == voters_power(t.seen_by, powers)
            &&& !quorum(t.voting_power, total)
        },
    decreases batches.len(),
{
    let dl = batches.drop_last();
    let last = batches.last();
    assert(powers_agree(batches[batches.len() - 1], powers));
    lemma_merged_voters_cover(Seq::empty(), last);
    if dl.len() == 0 {
        lemma_merged_voters_distinct(Seq::empty(), last);
        lemma_added_power_sum(Seq::empty(), last, powers);
        let t = merge_all(None, batches, total).unwrap();
        assert forall|b: int, j: int| 0 <= b < batches.len() && 0 <= j < batches[b].len() implies t.seen_by.contains(#[trigger] batches[b][j].0) by {
            assert(b == 0);
            assert(last[j] == batches[b][j]);
        }
    } else {
        assert forall|b: int| 0 <= b < dl.len() implies powers_agree(#[trigger] dl[b], powers) by {
            assert(dl[b] == batches[b]);
        }
        lemma_unseen_tally_counts_every_voter(dl, total, powers);
        let prev = merge_all(None, dl, total).unwrap();
        if !prev.seen {
            let merged = merged_voters(prev.seen_by, last);
            lemma_merged_voters_cover(prev.seen_by, last);
            lemma_merged_voters_distinct(prev.seen_by, last);
            lemma_added_power_sum(prev.seen_by, last, powers);
            if merged.len() == prev.seen_by.len() {
                lemma_no_new_voters(prev.seen_by, last);
            }
            let t = merge_all(None, batches, total).unwrap();
            assert forall|b: int, j: int| 0 <= b < batches.len() && 0 <= j < batches[b].len() implies t.seen_by.contains(#[trigger] batches[b][j].0) by {
                if b < dl.len() {
                    assert(dl[b][j] == batches[b][j]);
                    assert(prev.seen_by.contains(dl[b][j].0));
                } else {
                    assert(last[j] == batches[b][j]);
                }
            }
        }
    }
}

} // verus!
