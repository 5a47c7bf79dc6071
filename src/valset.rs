//! Aggregation of validator-set-update votes into a tally and a proof.
use vstd::prelude::*;
use crate::signatures::{insert_batch, Proof, Signature, SignerKey, VotingPowers};
use crate::tally::{merge, merge_result, option_view, Address, ChangedKeys, Tally, VoterId};

verus! {

/// A batch of signed validator-set-update votes, one per validator.
#[derive(Clone, Debug)]
pub struct VextDigest {
    /// The signature of each voting validator.
    pub signatures: Vec<(Address, Signature)>,
    /// The payload that was signed.
    pub voting_powers: VotingPowers,
}

/// A validator of the signing epoch, as the proof-of-stake queries give it.
#[derive(Clone, Copy, Debug, PartialEq, Eq, Structural)]
pub struct ValidatorInfo {
    pub address: Address,
    pub voting_power: u64,
    /// The registered cross-chain signing key, if any.
    pub signing_key: Option<SignerKey>,
}

/// What the ledger knows of the signing epoch.
#[derive(Clone, Debug)]
pub struct EpochValidators {
    /// The first block height of the epoch, where it is still known.
    pub start_height: Option<u64>,
    pub total_voting_power: u64,
    pub validators: Vec<ValidatorInfo>,
}

/// The stored tally and proof of one validator set update.
#[derive(Clone, Debug)]
pub struct ValsetUpdRecord {
    pub tally: Tally,
    pub proof: Proof,
}

impl ValsetUpdRecord {
    pub open spec fn wf(&self) -> bool {
        self.tally.wf() && self.proof.wf()
    }
}

/// The effect of applying a vote batch.
#[derive(Clone, Copy, Debug, PartialEq, Eq, Structural)]
pub struct TxResult {
    pub changed_keys: ChangedKeys,
}

/// Why a vote batch could not be applied. Each of them means that the
/// node's own state is inconsistent and must abort the block.
#[derive(Clone, Copy, Debug, PartialEq, Eq, Structural)]
pub enum ValsetError {
    /// The first height of the signing epoch is no longer known.
    UnknownEpochStart,
    /// A voter is not a validator of the signing epoch.
    UnknownValidator,
    /// A voting validator has no registered signing key.
    MissingSigningKey,
    /// The accumulated voting power does not fit in a `u64`.
    VotingPowerOverflow,
}

/// The first validator of `vals` with address `a`.
pub open spec fn find_validator(vals: Seq<ValidatorInfo>, a: Address) -> Option<ValidatorInfo>
    decreases vals.len(),
{
    if vals.len() == 0 {
        None
    } else if vals[0].address == a {
        Some(vals[0])
    } else {
        find_validator(vals.drop_first(), a)
    }
}

/// Every signer of `sigs` is a validator of `vals`.
pub open spec fn all_validators(sigs: Seq<(Address, Signature)>, vals: Seq<ValidatorInfo>) -> bool {
    forall|i: int| 0 <= i < sigs.len() ==> (#[trigger] find_validator(vals, sigs[i].0)) is Some
}

/// Every signer of `sigs` has a registered signing key in `vals`.
pub open spec fn all_keyed(sigs: Seq<(Address, Signature)>, vals: Seq<ValidatorInfo>) -> bool {
    forall|i: int|
        0 <= i < sigs.len() ==> #[trigger] find_validator(vals, sigs[i].0) is Some
            && find_validator(vals, sigs[i].0).unwrap().signing_key is Some
}

/// The votes of `sigs`, attributed to `height`, each with its validator's power.
pub open spec fn votes_of(sigs: Seq<(Address, Signature)>, vals: Seq<ValidatorInfo>, height: u64) -> Seq<(VoterId, u64)> {
    sigs.map_values(|p: (Address, Signature)|
        (VoterId { address: p.0, height }, find_validator(vals, p.0).unwrap().voting_power))
}

/// The signatures of `sigs`, each under its validator's signing key.
pub open spec fn resolved_signatures(sigs: Seq<(Address, Signature)>, vals: Seq<ValidatorInfo>) -> Seq<(SignerKey, Signature)> {
    sigs.map_values(|p: (Address, Signature)|
        (find_validator(vals, p.0).unwrap().signing_key.unwrap(), p.1))
}

/// The voters of a digest: each signer, attributed to `height`.
pub open spec fn voters_of(sigs: Seq<(Address, Signature)>, height: u64) -> Seq<VoterId> {
    sigs.map_values(|p: (Address, Signature)| VoterId { address: p.0, height })
}

/// The voters of `ext`, each attributed to `height`, in the digest's order.
pub fn get_voters(ext: &VextDigest, height: u64) -> (r: Vec<VoterId>)
    ensures
        r@ == voters_of(ext.signatures@, height),
{
    let mut r: Vec<VoterId> = Vec::new();
    let mut i: usize = 0;
    while i < ext.signatures.len()
        invariant
            i <= ext.signatures.len(),
            r@ == voters_of(ext.signatures@.take(i as int), height),
        decreases ext.signatures.len() - i,
    {
        r.push(VoterId { address: ext.signatures[i].0, height });
        i += 1;
        assert(r@ =~= voters_of(ext.signatures@.take(i as int), height));
    }
    assert(ext.signatures@.take(i as int) =~= ext.signatures@);
    r
}

/// The first validator of `vals` with address `a`.
fn lookup_validator(vals: &Vec<ValidatorInfo>, a: Address) -> (r: Option<ValidatorInfo>)
    ensures
        r == find_validator(vals@, a),
{
    let mut i: usize = 0;
    assert(vals@.subrange(0, vals@.len() as int) =~= vals@);
    while i < vals.len()
        invariant
            i <= vals.len(),
            find_validator(vals@, a) == find_validator(vals@.subrange(i as int, vals@.len() as int), a),
        decreases vals.len() - i,
    {
        assert(vals@.subrange(i as int, vals@.len() as int).drop_first() =~= vals@.subrange(
            i + 1,
            vals@.len() as int,
        ));
        if vals[i].address == a {
            return Some(vals[i]);
        }
        i += 1;
    }
    None
}

/// The votes of the digest with their powers, or `None` where a signer is no
/// validator.
fn weighted_votes(sigs: &Vec<(Address, Signature)>, vals: &Vec<ValidatorInfo>, height: u64) -> (r: Option<Vec<(VoterId, u64)>>)
    ensures
        match r {
            Some(v) => all_validators(sigs@, vals@) && v@ == votes_of(sigs@, vals@, height),
            None => !all_validators(sigs@, vals@),
        },
{
    let mut r: Vec<(VoterId, u64)> = Vec::new();
    let mut i: usize = 0;
    while i < sigs.len()
        invariant
            i <= sigs.len(),
            all_validators(sigs@.take(i as int), vals@),
            r@ == votes_of(sigs@.take(i as int), vals@, height),
        decreases sigs.len() - i,
    {
        let a = sigs[i].0;
        match lookup_validator(vals, a) {
            Some(v) => {
                r.push((VoterId { address: a, height }, v.voting_power));
            },
            None => {
                assert(find_validator(vals@, sigs@[i as int].0) is None);
                return None;
            },
        }
        i += 1;
        assert(r@ =~= votes_of(sigs@.take(i as int), vals@, height));
        assert forall|k: int| 0 <= k < i implies (#[trigger] find_validator(vals@, sigs@.take(i as int)[k].0)) is Some by {
            assert(sigs@.take(i as int)[k] == sigs@[k]);
            if k < i - 1 {
                assert(sigs@.take(i - 1)[k] == sigs@[k]);
            }
        }
    }
    assert(sigs@.take(i as int) =~= sigs@);
    Some(r)
}

/// The signatures of the digest under their signing keys, or `None` where a
/// signer has no registered key.
fn signing_batch(sigs: &Vec<(Address, Signature)>, vals: &Vec<ValidatorInfo>) -> (r: Option<Vec<(SignerKey, Signature)>>)
    ensures
        match r {
            Some(v) => all_keyed(sigs@, vals@) && v@ == resolved_signatures(sigs@, vals@),
            None => !all_keyed(sigs@, vals@),
        },
{
    let mut r: Vec<(SignerKey, Signature)> = Vec::new();
    let mut i: usize = 0;
    while i < sigs.len()
        invariant
            i <= sigs.len(),
            all_keyed(sigs@.take(i as int), vals@),
            r@ == resolved_signatures(sigs@.take(i as int), vals@),
        decreases sigs.len() - i,
    {
        let (a, sig) = sigs[i];
        match lookup_validator(vals, a) {
            Some(ValidatorInfo { signing_key: Some(key), .. }) => {
                r.push((key, sig));
            },
            _ => {
                assert(!(find_validator(vals@, sigs@[i as int].0) is Some
                    && find_validator(vals@, sigs@[i as int].0).unwrap().signing_key is Some));
                return None;
            },
        }
        i += 1;
        assert(r@ =~= resolved_signatures(sigs@.take(i as int), vals@));
        assert forall|k: int| 0 <= k < i implies #[trigger] find_validator(vals@, sigs@.take(i as int)[k].0) is Some
            && find_validator(vals@, sigs@.take(i as int)[k].0).unwrap().signing_key is Some by {
            assert(sigs@.take(i as int)[k] == sigs@[k]);
            if k < i - 1 {
                assert(sigs@.take(i - 1)[k] == sigs@[k]);
            }
        }
    }
    assert(sigs@.take(i as int) =~= sigs@);
    Some(r)
}

/// The tally stored in `record`, if any.
pub open spec fn stored_tally(record: Option<ValsetUpdRecord>) -> Option<crate::tally::TallyView> {
    match record {
        Some(rec) => Some(rec.tally@),
        None => None,
    }
}

/// The height that the votes of a batch are attributed to: the second block
/// of the signing epoch.
pub open spec fn vote_height(epoch: EpochValidators) -> u64 {
    (epoch.start_height.unwrap() + 1) as u64
}

/// The merge of the batch `ext` into the tally stored in `record`.
pub open spec fn merged(
    record: Option<ValsetUpdRecord>,
    ext: VextDigest,
    epoch: EpochValidators,
) -> Option<(crate::tally::TallyView, ChangedKeys)> {
    merge_result(
        stored_tally(record),
        votes_of(ext.signatures@, epoch.validators@, vote_height(epoch)),
        epoch.total_voting_power as nat,
    )
}

/// What applying the batch `ext` to `record` returns.
pub open spec fn aggregate_outcome(
    record: Option<ValsetUpdRecord>,
    ext: VextDigest,
    epoch: EpochValidators,
) -> Result<ChangedKeys, ValsetError> {
    let sigs = ext.signatures@;
    let vals = epoch.validators@;
    if sigs.len() == 0 {
        Ok(ChangedKeys::nothing())
    } else if epoch.start_height is None {
        Err(ValsetError::UnknownEpochStart)
    } else if !all_validators(sigs, vals) {
        Err(ValsetError::UnknownValidator)
    } else {
        match merged(record, ext, epoch) {
            None => Err(ValsetError::VotingPowerOverflow),
            Some((_, changed)) => {
                if !changed.is_empty_spec() && !all_keyed(sigs, vals) {
                    Err(ValsetError::MissingSigningKey)
                } else {
                    Ok(changed)
                }
            },
        }
    }
}

/// Applies a batch of validator-set-update votes to the stored tally and
/// proof of the next epoch's validator set.
///
/// An empty batch, or one applied to a tally that is already seen, changes
/// nothing. Otherwise the votes are attributed to the second block height of
/// the signing epoch, merged into the tally, and their signatures attached to
/// the proof under each validator's signing key. A new record starts with the
/// batch's payload.
pub fn aggregate_votes(
    record: &mut Option<ValsetUpdRecord>,
    ext: VextDigest,
    epoch: &EpochValidators,
) -> (r: Result<TxResult, ValsetError>)
    requires
        (*old(record)) is Some ==> old(record).unwrap().wf(),
        epoch.start_height is Some ==> epoch.start_height.unwrap() < u64::MAX,
    ensures
        (*final(record)) is Some ==> final(record).unwrap().wf(),
        match r {
            Ok(res) => aggregate_outcome(*old(record), ext, *epoch) == Ok::<ChangedKeys, ValsetError>(
                res.changed_keys,
            ),
            Err(e) => aggregate_outcome(*old(record), ext, *epoch) == Err::<ChangedKeys, ValsetError>(e),
        },
        (r is Err || r.unwrap().changed_keys.is_empty_spec()) ==> *final(record) == *old(record),
        (r is Ok && !r.unwrap().changed_keys.is_empty_spec()) ==> {
            &&& (*final(record)) is Some
            &&& Some((final(record).unwrap().tally@, r.unwrap().changed_keys)) == merged(*old(record), ext, *epoch)
            &&& final(record).unwrap().proof.payload == match *old(record) {
                Some(rec) => rec.proof.payload,
                None => ext.voting_powers,
            }
            &&& final(record).unwrap().proof.signature_map() == insert_batch(
                match *old(record) {
                    Some(rec) => rec.proof.signature_map(),
                    None => Map::empty(),
                },
                resolved_signatures(ext.signatures@, epoch.validators@),
            )
        },
{
    if ext.signatures.len() == 0 {
        return Ok(TxResult { changed_keys: ChangedKeys::none() });
    }
    let start = match epoch.start_height {
        Some(h) => h,
        None => {
            return Err(ValsetError::UnknownEpochStart);
        },
    };
    let height = start + 1;
    let votes = match weighted_votes(&ext.signatures, &epoch.validators, height) {
        Some(v) => v,
        None => {
            return Err(ValsetError::UnknownValidator);
        },
    };
    let existing = match record {
        Some(rec) => Some(rec.tally.duplicate()),
        None => None,
    };
    let (tally, changed) = match merge(existing, &votes, epoch.total_voting_power) {
        Some(m) => m,
        None => {
            return Err(ValsetError::VotingPowerOverflow);
        },
    };
    if changed.is_empty() {
        return Ok(TxResult { changed_keys: changed });
    }
    let batch = match signing_batch(&ext.signatures, &epoch.validators) {
        Some(b) => b,
        None => {
            return Err(ValsetError::MissingSigningKey);
        },
    };
    let mut proof = match record.take() {
        Some(rec) => rec.proof,
        None => Proof::new(ext.voting_powers),
    };
    proof.attach_signature_batch(&batch);
    *record = Some(ValsetUpdRecord { tally, proof });
    Ok(TxResult { changed_keys: changed })
}


/// A validator-set-update vote extension, to be signed with the validator's
/// hot key.
#[derive(Clone, Debug)]
pub struct Vext {
    pub voting_powers: VotingPowers,
    pub validator_addr: Address,
    pub signing_epoch: u64,
}

/// The vote extension a validator signs on the next epoch's validator set,
/// where one must be sent now: the voting powers of the next epoch, signed
/// during the current one.
pub fn sign_validator_set_update(
    must_send: bool,
    current_epoch: u64,
    validator_addr: Address,
    next_epoch_powers: VotingPowers,
) -> (r: Option<Vext>)
    ensures
        !must_send ==> r is None,
        must_send ==> r == Some(
            Vext { voting_powers: next_epoch_powers, validator_addr, signing_epoch: current_epoch },
        ),
{
    if must_send {
        Some(Vext { voting_powers: next_epoch_powers, validator_addr, signing_epoch: current_epoch })
    } else {
        None
    }
}

/// Applying a batch to a record whose tally is seen changes nothing: it
/// returns no changed location, wherever the batch's voters are known.
pub proof fn lemma_seen_record_is_noop(
    record: ValsetUpdRecord,
    ext: VextDigest,
    epoch: EpochValidators,
)
    requires
        record.tally.seen,
        ext.signatures@.len() == 0 || (epoch.start_height is Some && all_validators(
            ext.signatures@,
            epoch.validators@,
        )),
    ensures
        aggregate_outcome(Some(record), ext, epoch) == Ok::<ChangedKeys, ValsetError>(
            ChangedKeys::nothing(),
        ),
{
}


/// A digest with no signature changes nothing: applying it returns no
/// changed location, whatever is stored and whatever is known of the epoch.
pub proof fn lemma_empty_digest_is_noop(record: Option<ValsetUpdRecord>, ext: VextDigest, epoch: EpochValidators)
    requires
        ext.signatures@.len() == 0,
    ensures
        aggregate_outcome(record, ext, epoch) == Ok::<ChangedKeys, ValsetError>(ChangedKeys::nothing()),
{
}

/// Two distinct validators whose summed power is more than two thirds of the
/// total confirm a new validator set update in a single batch: the batch
/// changes the stored record, the tally is seen, and the proof holds one
/// signature under each of their signing keys.
pub proof fn lemma_two_validators_confirm(ext: VextDigest, epoch: EpochValidators)
    requires
        ext.signatures@.len() == 2,
        ext.signatures@[0].0 != ext.signatures@[1].0,
        epoch.start_height is Some,
        all_keyed(ext.signatures@, epoch.validators@),
        find_validator(epoch.validators@, ext.signatures@[0].0).unwrap().signing_key
            != find_validator(epoch.validators@, ext.signatures@[1].0).unwrap().signing_key,
        find_validator(epoch.validators@, ext.signatures@[0].0).unwrap().voting_power
            + find_validator(epoch.validators@, ext.signatures@[1].0).unwrap().voting_power <= u64::MAX,
        crate::tally::quorum(
            (find_validator(epoch.validators@, ext.signatures@[0].0).unwrap().voting_power
                + find_validator(epoch.validators@, ext.signatures@[1].0).unwrap().voting_power) as nat,
            epoch.total_voting_power as nat,
        ),
    ensures
        aggregate_outcome(None, ext, epoch) is Ok,
        !aggregate_outcome(None, ext, epoch).unwrap().is_empty_spec(),
        merged(None, ext, epoch).unwrap().0.seen,
        insert_batch(Map::empty(), resolved_signatures(ext.signatures@, epoch.validators@)).dom().len() == 2,
{
    let sigs = ext.signatures@;
    let vals = epoch.validators@;
    let votes = votes_of(sigs, vals, vote_height(epoch));
    assert(all_validators(sigs, vals)) by {
        assert forall|i: int| 0 <= i < sigs.len() implies (#[trigger] find_validator(vals, sigs[i].0)) is Some by {
            assert(find_validator(vals, sigs[i].0) is Some);
        }
    }
    let first = votes.drop_last();
    assert(first.drop_last().len() == 0);
    assert(first.last() == votes[0]);
    assert(votes.last() == votes[1]);
    assert(votes[0].0 != votes[1].0);
    let one = crate::tally::merged_voters(Seq::empty(), first);
    assert(crate::tally::merged_voters(Seq::empty(), first.drop_last()) == Seq::<VoterId>::empty());
    assert(!Seq::<VoterId>::empty().contains(first.last().0));
    assert(one == Seq::<VoterId>::empty().push(votes[0].0));
    assert(crate::tally::added_power(Seq::empty(), first.drop_last()) == 0);
    assert(crate::tally::added_power(Seq::empty(), first) == votes[0].1);
    assert(!one.contains(votes[1].0)) by {
        if one.contains(votes[1].0) {
            let k = choose|k: int| 0 <= k < one.len() && one[k] == votes[1].0;
            assert(k == 0);
        }
    }
    assert(crate::tally::added_power(Seq::empty(), votes) == votes[0].1 + votes[1].1);
    assert(votes[0].1 == find_validator(vals, sigs[0].0).unwrap().voting_power);
    assert(votes[1].1 == find_validator(vals, sigs[1].0).unwrap().voting_power);
    let batch = resolved_signatures(sigs, vals);
    let m0 = Map::<SignerKey, Signature>::empty();
    assert(batch.drop_last().drop_last().len() == 0);
    assert(insert_batch(m0, batch.drop_last().drop_last()) == m0);
    assert(batch.drop_last().last() == batch[0]);
    assert(batch.last() == batch[1]);
    assert(insert_batch(m0, batch.drop_last()) == m0.insert(batch[0].0, batch[0].1));
    assert(insert_batch(m0, batch) == m0.insert(batch[0].0, batch[0].1).insert(batch[1].0, batch[1].1));
    assert(insert_batch(m0, batch).dom() =~= set![batch[0].0, batch[1].0]);
    assert(set![batch[0].0, batch[1].0].len() == 2) by {
        assert(set![batch[0].0].len() == 1);
        assert(!set![batch[0].0].contains(batch[1].0));
    }
}

} // verus!
