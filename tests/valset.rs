use vote_tally::signatures::{Signature, SignerKey, VotingPowers};
use vote_tally::tally::{Address, TallyKey, VoterId};
use vote_tally::valset::{
    aggregate_votes, get_voters, sign_validator_set_update, EpochValidators, ValidatorInfo,
    ValsetError, ValsetUpdRecord, VextDigest,
};

fn addr(id: u64) -> Address {
    Address { id }
}

fn key_of(id: u64) -> SignerKey {
    SignerKey { hot: 1000 + id, cold: 2000 + id }
}

fn sig(value: u128) -> Signature {
    Signature { value }
}

fn validator(id: u64, power: u64) -> ValidatorInfo {
    ValidatorInfo { address: addr(id), voting_power: power, signing_key: Some(key_of(id)) }
}

fn epoch(validators: Vec<ValidatorInfo>) -> EpochValidators {
    let total = validators.iter().map(|v| v.voting_power).sum();
    EpochValidators { start_height: Some(10), total_voting_power: total, validators }
}

fn digest(signers: &[u64]) -> VextDigest {
    VextDigest {
        signatures: signers.iter().map(|&id| (addr(id), sig(id as u128 * 7))).collect(),
        voting_powers: VotingPowers { entries: Vec::new() },
    }
}

fn signer_keys(record: &ValsetUpdRecord) -> Vec<SignerKey> {
    record.proof.signatures.iter().map(|(k, _)| *k).collect()
}

#[test]
fn test_seen_has_complete_proof() {
    let validators = epoch(vec![validator(1, 100)]);
    let mut record = None;
    let tx_result = aggregate_votes(&mut record, digest(&[1]), &validators).expect("Test failed");

    assert!(!tx_result.changed_keys.is_empty());
    assert!(tx_result.changed_keys.contains(TallyKey::Body));
    assert!(tx_result.changed_keys.contains(TallyKey::Seen));
    assert!(tx_result.changed_keys.contains(TallyKey::SeenBy));
    assert!(tx_result.changed_keys.contains(TallyKey::VotingPower));

    let record = record.expect("Test failed");
    assert!(record.tally.seen);
    assert!(record.proof.payload.entries.is_empty());
    let mut proof_sigs = signer_keys(&record);
    assert_eq!(proof_sigs.len(), 1);
    let addr_book = proof_sigs.pop().expect("Test failed");
    assert_eq!(addr_book, key_of(1));

    // the only validator holds all the stake: more than two thirds
    assert!(3 * record.tally.voting_power > 2 * validators.total_voting_power);
}

#[test]
fn test_not_seen_has_incomplete_proof() {
    // the first validator has exactly 2/3 of the total stake
    let validators = epoch(vec![validator(1, 50_000), validator(2, 25_000)]);
    let mut record = None;
    let tx_result = aggregate_votes(&mut record, digest(&[1]), &validators).expect("Test failed");

    assert!(!tx_result.changed_keys.is_empty());
    assert!(tx_result.changed_keys.contains(TallyKey::Body));
    assert!(tx_result.changed_keys.contains(TallyKey::Seen));
    assert!(tx_result.changed_keys.contains(TallyKey::SeenBy));
    assert!(tx_result.changed_keys.contains(TallyKey::VotingPower));

    let record = record.expect("Test failed");
    assert!(!record.tally.seen);
    assert!(record.proof.payload.entries.is_empty());
    let mut proof_sigs = signer_keys(&record);
    assert_eq!(proof_sigs.len(), 1);
    let addr_book = proof_sigs.pop().expect("Test failed");
    assert_eq!(addr_book, key_of(1));

    assert!(3 * record.tally.voting_power <= 2 * validators.total_voting_power);
}

#[test]
fn empty_digest_changes_nothing() {
    let validators = epoch(vec![validator(1, 100)]);
    let mut record = None;
    let r = aggregate_votes(&mut record, digest(&[]), &validators).expect("empty digest");
    assert!(r.changed_keys.is_empty());
    assert!(record.is_none());

    aggregate_votes(&mut record, digest(&[1]), &validators).unwrap();
    let before = record.clone().unwrap();
    let r = aggregate_votes(&mut record, digest(&[]), &validators).unwrap();
    assert!(r.changed_keys.is_empty());
    let after = record.unwrap();
    assert_eq!(after.tally.seen_by, before.tally.seen_by);
    assert_eq!(after.tally.voting_power, before.tally.voting_power);
    assert_eq!(after.proof.signatures, before.proof.signatures);
}

#[test]
fn two_validators_over_two_thirds_confirm_in_one_batch() {
    let validators = epoch(vec![validator(1, 40), validator(2, 40), validator(3, 20)]);
    let mut record = None;
    let r = aggregate_votes(&mut record, digest(&[1, 2]), &validators).unwrap();
    assert!(!r.changed_keys.is_empty());
    let record = record.unwrap();
    assert!(record.tally.seen);
    assert_eq!(record.tally.voting_power, 80);
    assert_eq!(record.proof.signatures.len(), 2);
    assert_eq!(signer_keys(&record), vec![key_of(1), key_of(2)]);
}

#[test]
fn votes_are_attributed_to_second_block_of_epoch() {
    let validators = epoch(vec![validator(1, 40), validator(2, 40), validator(3, 20)]);
    let mut record = None;
    aggregate_votes(&mut record, digest(&[2]), &validators).unwrap();
    let record = record.unwrap();
    assert_eq!(record.tally.seen_by, vec![VoterId { address: addr(2), height: 11 }]);
}

#[test]
fn resubmitting_to_seen_tally_changes_nothing() {
    let validators = epoch(vec![validator(1, 40), validator(2, 40), validator(3, 20)]);
    let mut record = None;
    aggregate_votes(&mut record, digest(&[1, 2]), &validators).unwrap();
    let before = record.clone().unwrap();
    let r = aggregate_votes(&mut record, digest(&[1, 2]), &validators).unwrap();
    assert!(r.changed_keys.is_empty());
    let r = aggregate_votes(&mut record, digest(&[3]), &validators).unwrap();
    assert!(r.changed_keys.is_empty());
    let after = record.unwrap();
    assert!(after.tally.seen);
    assert_eq!(after.tally.seen_by, before.tally.seen_by);
    assert_eq!(after.proof.signatures, before.proof.signatures);
}

#[test]
fn later_batch_crosses_quorum() {
    let validators = epoch(vec![validator(1, 40), validator(2, 40), validator(3, 20)]);
    let mut record = None;
    let r = aggregate_votes(&mut record, digest(&[1]), &validators).unwrap();
    assert!(r.changed_keys.contains(TallyKey::VotingStartedEpoch));
    assert!(!record.as_ref().unwrap().tally.seen);

    // the same voter again adds nothing
    let r = aggregate_votes(&mut record, digest(&[1]), &validators).unwrap();
    assert!(r.changed_keys.is_empty());
    assert_eq!(record.as_ref().unwrap().tally.voting_power, 40);

    let r = aggregate_votes(&mut record, digest(&[3]), &validators).unwrap();
    assert!(r.changed_keys.contains(TallyKey::SeenBy));
    assert!(r.changed_keys.contains(TallyKey::VotingPower));
    assert!(!r.changed_keys.contains(TallyKey::Seen));
    assert!(!r.changed_keys.contains(TallyKey::Body));
    assert!(!record.as_ref().unwrap().tally.seen);

    let r = aggregate_votes(&mut record, digest(&[2]), &validators).unwrap();
    assert!(r.changed_keys.contains(TallyKey::Seen));
    let record = record.unwrap();
    assert!(record.tally.seen);
    assert_eq!(record.tally.voting_power, 100);
    assert_eq!(signer_keys(&record), vec![key_of(1), key_of(3), key_of(2)]);
}

#[test]
fn unknown_epoch_start_is_an_error() {
    let mut validators = epoch(vec![validator(1, 100)]);
    validators.start_height = None;
    let mut record = None;
    assert_eq!(
        aggregate_votes(&mut record, digest(&[1]), &validators).unwrap_err(),
        ValsetError::UnknownEpochStart
    );
    assert!(record.is_none());
}

#[test]
fn vote_of_non_validator_is_an_error() {
    let validators = epoch(vec![validator(1, 100)]);
    let mut record = None;
    assert_eq!(
        aggregate_votes(&mut record, digest(&[1, 9]), &validators).unwrap_err(),
        ValsetError::UnknownValidator
    );
    assert!(record.is_none());
}

#[test]
fn validator_without_signing_key_is_an_error() {
    let mut v2 = validator(2, 50);
    v2.signing_key = None;
    let validators = epoch(vec![validator(1, 50), v2]);
    let mut record = None;
    assert_eq!(
        aggregate_votes(&mut record, digest(&[2]), &validators).unwrap_err(),
        ValsetError::MissingSigningKey
    );
    assert!(record.is_none());
}

#[test]
fn overflowing_voting_power_is_an_error() {
    let validators = EpochValidators {
        start_height: Some(0),
        total_voting_power: u64::MAX,
        validators: vec![validator(1, u64::MAX), validator(2, 1)],
    };
    let mut record = None;
    assert_eq!(
        aggregate_votes(&mut record, digest(&[1, 2]), &validators).unwrap_err(),
        ValsetError::VotingPowerOverflow
    );
    assert!(record.is_none());
}

#[test]
fn get_voters_uses_given_height() {
    let voters = get_voters(&digest(&[4, 5]), 77);
    assert_eq!(
        voters,
        vec![VoterId { address: addr(4), height: 77 }, VoterId { address: addr(5), height: 77 }]
    );
}

#[test]
fn validator_set_update_is_signed_only_when_due() {
    let powers = VotingPowers { entries: vec![(key_of(1), 30), (key_of(2), 70)] };
    assert!(sign_validator_set_update(false, 3, addr(1), powers.clone()).is_none());
    let vext = sign_validator_set_update(true, 3, addr(1), powers).unwrap();
    assert_eq!(vext.signing_epoch, 3);
    assert_eq!(vext.validator_addr, addr(1));
    assert_eq!(vext.voting_powers.entries, vec![(key_of(1), 30), (key_of(2), 70)]);
}
