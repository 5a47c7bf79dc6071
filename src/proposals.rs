//! Settlement of governance proposals whose voting period has ended.
//!
//! The ledger drives each proposal through these steps: it checks the stored
//! proposal with [`voting_end_epoch`], tallies the votes cast up to that
//! epoch, runs the proposal's code where [`must_run_code`] says so, and hands
//! the outcome to [`GovernanceOutcome::conclude_proposal`], which records the
//! event, the list the proposal goes to and the transfer of its funds, and
//! says what to do with the write log.
use vstd::prelude::*;
use crate::tally::Address;

verus! {

/// The outcome of a proposal's tally, as events report it.
#[derive(Clone, Copy, Debug, PartialEq, Eq, Structural)]
pub enum TallyResult {
    Passed,
    Rejected,
    Failed,
}

/// The votes or the stake of a proposal could not be read.
#[derive(Clone, Copy, Debug, PartialEq, Eq, Structural)]
pub enum TallyError {
    UnreadableVotes,
    UnreadableStake,
}

/// What applying a proposal's code as a transaction gave.
#[derive(Clone, Copy, Debug, PartialEq, Eq, Structural)]
pub enum CodeRun {
    /// The transaction ran and was accepted.
    Accepted,
    /// The transaction ran and was rejected.
    Rejected,
    /// The transaction could not be applied.
    Errored,
}

/// The event emitted for one settled proposal.
#[derive(Clone, Copy, Debug, PartialEq, Eq, Structural)]
pub struct ProposalEvent {
    pub proposal_id: u64,
    pub tally_result: TallyResult,
    pub has_proposal_code: bool,
    pub proposal_code_exit_status: bool,
}

/// Where the escrowed funds of a proposal go.
#[derive(Clone, Copy, Debug, PartialEq, Eq, Structural)]
pub enum FundsDestination {
    Author,
    SlashFund,
}

/// What becomes of the write log after a proposal's code ran.
#[derive(Clone, Copy, Debug, PartialEq, Eq, Structural)]
pub enum WriteLogAction {
    /// No code ran: nothing to commit or discard.
    Untouched,
    Commit,
    Discard,
}

/// Which list of the block's result a proposal goes to.
#[derive(Clone, Copy, Debug, PartialEq, Eq, Structural)]
pub enum Listing {
    Passed,
    Rejected,
    Unlisted,
}

/// Everything that settling one proposal decides.
#[derive(Clone, Copy, Debug, PartialEq, Eq, Structural)]
pub struct Settlement {
    pub event: ProposalEvent,
    pub listing: Listing,
    pub destination: FundsDestination,
    pub write_log: WriteLogAction,
}

/// A proposal whose voting period ended, as read from storage.
#[derive(Clone, Copy, Debug, PartialEq, Eq, Structural)]
pub struct PendingProposal {
    pub id: u64,
    pub funds: Option<u64>,
    pub end_epoch: Option<u64>,
    pub author: Option<Address>,
}

/// A stored proposal lacks a field. Such a proposal is skipped.
#[derive(Clone, Copy, Debug, PartialEq, Eq, Structural)]
pub enum ProposalError {
    MissingFunds,
    MissingEndEpoch,
    MissingAuthor,
}

/// One transfer of escrowed funds out of the governance account.
#[derive(Clone, Copy, Debug, PartialEq, Eq, Structural)]
pub struct Transfer {
    pub proposal_id: u64,
    pub to: Address,
    pub amount: u64,
}

/// A settlement spelled out field by field.
pub open spec fn settlement(
    id: u64,
    tally_result: TallyResult,
    has_code: bool,
    exit_status: bool,
    listing: Listing,
    destination: FundsDestination,
    write_log: WriteLogAction,
) -> Settlement {
    Settlement {
        event: ProposalEvent {
            proposal_id: id,
            tally_result,
            has_proposal_code: has_code,
            proposal_code_exit_status: exit_status,
        },
        listing,
        destination,
        write_log,
    }
}

/// The settlement of proposal `id`, given its tally and, where it passed, what
/// running its code gave (`None`: it has no code).
pub open spec fn settlement_of(
    id: u64,
    tally: Result<bool, TallyError>,
    code: Option<CodeRun>,
) -> Settlement {
    match tally {
        Ok(true) => match code {
            Some(CodeRun::Accepted) => settlement(
                id,
                TallyResult::Passed,
                true,
                true,
                Listing::Passed,
                FundsDestination::Author,
                WriteLogAction::Commit,
            ),
            Some(_) => settlement(
                id,
                TallyResult::Passed,
                true,
                false,
                Listing::Rejected,
                FundsDestination::SlashFund,
                WriteLogAction::Discard,
            ),
            None => settlement(
                id,
                TallyResult::Passed,
                false,
                false,
                Listing::Passed,
                FundsDestination::Author,
                WriteLogAction::Untouched,
            ),
        },
        Ok(false) => settlement(
            id,
            TallyResult::Rejected,
            true,
            true,
            Listing::Rejected,
            FundsDestination::SlashFund,
            WriteLogAction::Untouched,
        ),
        Err(_) => settlement(
            id,
            TallyResult::Failed,
            false,
            false,
            Listing::Unlisted,
            FundsDestination::SlashFund,
            WriteLogAction::Untouched,
        ),
    }
}

/// Whether the proposal's code must run: it passed the vote and has code.
pub fn must_run_code(tally: &Result<bool, TallyError>, has_code: bool) -> (r: bool)
    ensures
        r == (*tally == Ok::<bool, TallyError>(true) && has_code),
{
    match tally {
        Ok(true) => has_code,
        _ => false,
    }
}

/// Settles proposal `id`. `code` is what running its code gave, `None` where
/// it has none; it is only read where the proposal passed the vote.
pub fn settle_proposal(id: u64, tally: &Result<bool, TallyError>, code: Option<CodeRun>) -> (r: Settlement)
    ensures
        r == settlement_of(id, *tally, code),
{
    let (tally_result, has_code, exit_status, listing, destination, write_log) = match tally {
        Ok(true) => match code {
            Some(CodeRun::Accepted) => (
                TallyResult::Passed,
                true,
                true,
                Listing::Passed,
                FundsDestination::Author,
                WriteLogAction::Commit,
            ),
            Some(_) => (
                TallyResult::Passed,
                true,
                false,
                Listing::Rejected,
                FundsDestination::SlashFund,
                WriteLogAction::Discard,
            ),
            None => (
                TallyResult::Passed,
                false,
                false,
                Listing::Passed,
                FundsDestination::Author,
                WriteLogAction::Untouched,
            ),
        },
        Ok(false) => (
            TallyResult::Rejected,
            true,
            true,
            Listing::Rejected,
            FundsDestination::SlashFund,
            WriteLogAction::Untouched,
        ),
        Err(_) => (
            TallyResult::Failed,
            false,
            false,
            Listing::Unlisted,
            FundsDestination::SlashFund,
            WriteLogAction::Untouched,
        ),
    };
    Settlement {
        event: ProposalEvent {
            proposal_id: id,
            tally_result,
            has_proposal_code: has_code,
            proposal_code_exit_status: exit_status,
        },
        listing,
        destination,
        write_log,
    }
}

/// The epoch whose votes decide `p`, or why `p` is malformed.
pub fn voting_end_epoch(p: &PendingProposal) -> (r: Result<u64, ProposalError>)
    ensures
        r == match (p.funds, p.end_epoch) {
            (None, _) => Err(ProposalError::MissingFunds),
            (Some(_), None) => Err(ProposalError::MissingEndEpoch),
            (Some(_), Some(e)) => Ok::<u64, ProposalError>(e),
        },
{
    match (p.funds, p.end_epoch) {
        (None, _) => Err(ProposalError::MissingFunds),
        (Some(_), None) => Err(ProposalError::MissingEndEpoch),
        (Some(_), Some(e)) => Ok(e),
    }
}

/// Why `p`, given its tally, cannot be settled, if it can't: it lacks funds
/// or an end epoch, or it passed the vote and lacks an author.
pub open spec fn proposal_defect(p: PendingProposal, tally: Result<bool, TallyError>) -> Option<ProposalError> {
    if p.funds is None {
        Some(ProposalError::MissingFunds)
    } else if p.end_epoch is None {
        Some(ProposalError::MissingEndEpoch)
    } else if tally == Ok::<bool, TallyError>(true) && p.author is None {
        Some(ProposalError::MissingAuthor)
    } else {
        None
    }
}

/// Checks that `p` can be settled given its tally. A proposal that cannot is
/// skipped before its code runs.
pub fn check_proposal(p: &PendingProposal, tally: &Result<bool, TallyError>) -> (r: Result<(), ProposalError>)
    ensures
        match proposal_defect(*p, *tally) {
            Some(e) => r == Err::<(), ProposalError>(e),
            None => r is Ok,
        },
{
    if let Err(e) = voting_end_epoch(p) {
        return Err(e);
    }
    let passed = match tally {
        Ok(true) => true,
        _ => false,
    };
    if passed && p.author.is_none() {
        return Err(ProposalError::MissingAuthor);
    }
    Ok(())
}

/// `s` is strictly increasing.
pub open spec fn strictly_ascending(s: Seq<u64>) -> bool {
    forall|i: int, j: int| 0 <= i < j < s.len() ==> s[i] < s[j]
}

/// The order in which the pending proposals `ids` are settled: each id once,
/// ascending.
pub fn proposal_order(ids: &Vec<u64>) -> (r: Vec<u64>)
    ensures
        strictly_ascending(r@),
        r@.to_set() == ids@.to_set(),
{
    let mut r: Vec<u64> = Vec::new();
    let mut i: usize = 0;
    while i < ids.len()
        invariant
            i <= ids.len(),
            strictly_ascending(r@),
            r@.to_set() == ids@.take(i as int).to_set(),
        decreases ids.len() - i,
    {
        let id = ids[i];
        let mut k: usize = 0;
        while k < r.len() && r[k] < id
            invariant
                k <= r.len(),
                forall|j: int| 0 <= j < k ==> r@[j] < id,
            decreases r.len() - k,
        {
            k += 1;
        }
        let ghost before = r@;
        if k == r.len() || r[k] != id {
            r.insert(k, id);
            assert(r@ == before.insert(k as int, id));
            assert forall|a: int, b: int| 0 <= a < b < r@.len() implies r@[a] < r@[b] by {
                if b < k {
                } else if b == k {
                } else if a < k {
                    assert(r@[b] == before[b - 1]);
                    if k < before.len() {
                        assert(before[k as int] > id);
                        assert(before[k as int] <= before[b - 1]);
                    }
                } else if a == k {
                    assert(before[k as int] > id);
                } else {
                }
            }
            assert(r@.to_set() =~= before.to_set().insert(id)) by {
                assert forall|x: u64| r@.contains(x) implies before.to_set().insert(id).contains(x) by {
                    let j = choose|j: int| 0 <= j < r@.len() && r@[j] == x;
                    if j < k {
                        assert(before[j] == x);
                    } else if j > k {
                        assert(before[j - 1] == x);
                    }
                }
                assert forall|x: u64| before.to_set().insert(id).contains(x) implies r@.contains(x) by {
                    if x == id {
                        assert(r@[k as int] == id);
                    } else {
                        let j = choose|j: int| 0 <= j < before.len() && before[j] == x;
                        if j < k {
                            assert(r@[j] == x);
                        } else {
                            assert(r@[j + 1] == x);
                        }
                    }
                }
            }
        } else {
            assert(r@.to_set() =~= before.to_set().insert(id)) by {
                assert(r@[k as int] == id);
            }
        }
        assert(ids@.take(i + 1) =~= ids@.take(i as int).push(id));
        assert(ids@.take(i as int).push(id).to_set() =~= ids@.take(i as int).to_set().insert(id)) by {
            assert forall|x: u64| ids@.take(i as int).push(id).contains(x) implies ids@.take(i as int).to_set().insert(id).contains(x) by {
                let j = choose|j: int| 0 <= j < i + 1 && ids@.take(i as int).push(id)[j] == x;
                if j < i {
                    assert(ids@.take(i as int)[j] == x);
                }
            }
            assert forall|x: u64| ids@.take(i as int).to_set().insert(id).contains(x) implies ids@.take(i as int).push(id).contains(x) by {
                if x == id {
                    assert(ids@.take(i as int).push(id)[i as int] == id);
                } else {
                    let j = choose|j: int| 0 <= j < i && ids@.take(i as int)[j] == x;
                    assert(ids@.take(i as int).push(id)[j] == x);
                }
            }
        }
        i += 1;
    }
    assert(ids@.take(i as int) =~= ids@);
    r
}

/// The ids of the proposals that passed and of those rejected in one block.
#[derive(Clone, Debug)]
pub struct ProposalsResult {
    pub passed: Vec<u64>,
    pub rejected: Vec<u64>,
}

impl ProposalsResult {
    /// No proposal yet.
    pub fn new() -> (r: ProposalsResult)
        ensures
            r.passed@.len() == 0,
            r.rejected@.len() == 0,
    {
        ProposalsResult { passed: Vec::new(), rejected: Vec::new() }
    }
}

/// What settling the proposals of one block produced, in order.
#[derive(Clone, Debug)]
pub struct GovernanceOutcome {
    pub result: ProposalsResult,
    pub events: Vec<ProposalEvent>,
    pub transfers: Vec<Transfer>,
}

/// The address that funds sent to `destination` reach.
pub open spec fn recipient(destination: FundsDestination, author: Option<Address>, slash_fund: Address) -> Address {
    match destination {
        FundsDestination::Author => author.unwrap(),
        FundsDestination::SlashFund => slash_fund,
    }
}

impl GovernanceOutcome {
    /// Nothing settled yet.
    pub fn new() -> (r: GovernanceOutcome)
        ensures
            r.result.passed@.len() == 0,
            r.result.rejected@.len() == 0,
            r.events@.len() == 0,
            r.transfers@.len() == 0,
    {
        GovernanceOutcome { result: ProposalsResult::new(), events: Vec::new(), transfers: Vec::new() }
    }

    /// Settles proposal `p` given its tally and what running its code gave
    /// (`None`: it has no code), and returns what to do with the write log.
    ///
    /// A proposal without funds or end epoch, or one that passed the vote
    /// without an author, is skipped with an error and leaves no trace.
    /// Otherwise exactly one event and exactly one transfer of all its funds
    /// are recorded: to the author where it passed and its code, if any, was
    /// accepted, and to `slash_fund` otherwise.
    pub fn conclude_proposal(
        &mut self,
        p: &PendingProposal,
        tally: &Result<bool, TallyError>,
        code: Option<CodeRun>,
        slash_fund: Address,
    ) -> (r: Result<WriteLogAction, ProposalError>)
        ensures
            proposal_defect(*p, *tally) is Some ==> r == Err::<WriteLogAction, ProposalError>(
                proposal_defect(*p, *tally).unwrap(),
            ),
            r is Err ==> *final(self) == *old(self),
            proposal_defect(*p, *tally) is None ==> ({
                let s = settlement_of(p.id, *tally, code);
                &&& r == Ok::<WriteLogAction, ProposalError>(s.write_log)
                &&& final(self).events@ == old(self).events@.push(s.event)
                &&& final(self).transfers@ == old(self).transfers@.push(
                    Transfer {
                        proposal_id: p.id,
                        to: recipient(s.destination, p.author, slash_fund),
                        amount: p.funds.unwrap(),
                    },
                )
                &&& final(self).result.passed@ == if s.listing == Listing::Passed {
                    old(self).result.passed@.push(p.id)
                } else {
                    old(self).result.passed@
                }
                &&& final(self).result.rejected@ == if s.listing == Listing::Rejected {
                    old(self).result.rejected@.push(p.id)
                } else {
                    old(self).result.rejected@
                }
            }),
    {
        if let Err(e) = check_proposal(p, tally) {
            return Err(e);
        }
        let funds = p.funds.unwrap();
        let s = settle_proposal(p.id, tally, code);
        let to = match s.destination {
            FundsDestination::Author => p.author.unwrap(),
            FundsDestination::SlashFund => slash_fund,
        };
        match s.listing {
            Listing::Passed => self.result.passed.push(p.id),
            Listing::Rejected => self.result.rejected.push(p.id),
            Listing::Unlisted => {},
        }
        self.events.push(s.event);
        self.transfers.push(Transfer { proposal_id: p.id, to, amount: funds });
        Ok(s.write_log)
    }
}

/// The funds of a settled proposal go to its author iff it passed the vote
/// and its code, if any, was accepted; to the slashing fund otherwise.
pub proof fn lemma_funds_destination(id: u64, tally: Result<bool, TallyError>, code: Option<CodeRun>)
    ensures
        (settlement_of(id, tally, code).destination == FundsDestination::Author) <==> (tally == Ok::<
            bool,
            TallyError,
        >(true) && (code is None || code == Some(CodeRun::Accepted))),
        (settlement_of(id, tally, code).destination == FundsDestination::Author) <==> (settlement_of(
            id,
            tally,
            code,
        ).listing == Listing::Passed),
{
}

} // verus!
