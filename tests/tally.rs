use vote_tally::signatures::{Proof, Signature, SignerKey, VotingPowers};
use vote_tally::tally::{has_quorum, merge, Address, ChangedKeys, Tally, TallyKey, VoterId};

fn voter(id: u64) -> VoterId {
    VoterId { address: Address { id }, height: 5 }
}

fn key(id: u64) -> SignerKey {
    SignerKey { hot: id, cold: id + 100 }
}

#[test]
fn quorum_is_strict_two_thirds() {
    assert!(!has_quorum(2, 3));
    assert!(has_quorum(3, 4));
    assert!(!has_quorum(0, 0));
    assert!(has_quorum(1, 0));
    assert!(has_quorum(u64::MAX, u64::MAX));
}

#[test]
fn first_merge_counts_each_voter_once() {
    let votes = vec![(voter(1), 10), (voter(2), 20), (voter(1), 99)];
    let (tally, changed) = merge(None, &votes, 100).unwrap();
    assert_eq!(tally.seen_by, vec![voter(1), voter(2)]);
    assert_eq!(tally.voting_power, 30);
    assert!(!tally.seen);
    assert!(changed.contains(TallyKey::Body));
    assert!(changed.contains(TallyKey::VotingStartedEpoch));
}

#[test]
fn same_address_at_other_height_is_another_voter() {
    let other = VoterId { address: Address { id: 1 }, height: 6 };
    let (tally, _) = merge(None, &vec![(voter(1), 10), (other, 10)], 100).unwrap();
    assert_eq!(tally.voting_power, 20);
}

#[test]
fn merge_into_seen_tally_is_noop() {
    let seen = Tally { seen: true, seen_by: vec![voter(1)], voting_power: 90 };
    let (tally, changed) = merge(Some(seen), &vec![(voter(2), 10)], 100).unwrap();
    assert!(tally.seen);
    assert_eq!(tally.seen_by, vec![voter(1)]);
    assert_eq!(tally.voting_power, 90);
    assert!(changed.is_empty());
    assert_eq!(changed, ChangedKeys {
        body: false,
        seen: false,
        seen_by: false,
        voting_power: false,
        voting_started_epoch: false,
    });
}

#[test]
fn merge_crosses_quorum_and_stays_seen() {
    let start = Tally { seen: false, seen_by: vec![voter(1)], voting_power: 50 };
    let (tally, changed) = merge(Some(start), &vec![(voter(1), 50), (voter(2), 20)], 100).unwrap();
    assert_eq!(tally.voting_power, 70);
    assert!(tally.seen);
    assert!(changed.contains(TallyKey::Seen));
    assert!(!changed.contains(TallyKey::Body));
    let (tally, changed) = merge(Some(tally), &vec![(voter(3), 30)], 1000).unwrap();
    assert!(tally.seen);
    assert_eq!(tally.voting_power, 70);
    assert!(changed.is_empty());
}

#[test]
fn merge_of_known_voters_only_changes_nothing() {
    let start = Tally { seen: false, seen_by: vec![voter(1)], voting_power: 10 };
    let (tally, changed) = merge(Some(start), &vec![(voter(1), 10)], 100).unwrap();
    assert!(changed.is_empty());
    assert_eq!(tally.voting_power, 10);
}

#[test]
fn merge_overflow_is_none() {
    let start = Tally { seen: false, seen_by: vec![voter(1)], voting_power: u64::MAX };
    assert!(merge(Some(start), &vec![(voter(2), 1)], 100).is_none());
}

#[test]
fn duplicate_signatures_keep_the_last() {
    let mut proof = Proof::new(VotingPowers { entries: vec![(key(1), 5)] });
    proof.attach_signature_batch(&vec![
        (key(1), Signature { value: 1 }),
        (key(2), Signature { value: 2 }),
        (key(1), Signature { value: 3 }),
    ]);
    assert_eq!(
        proof.signatures,
        vec![(key(1), Signature { value: 3 }), (key(2), Signature { value: 2 })]
    );
    proof.attach_signature_batch(&vec![(key(2), Signature { value: 4 }), (key(3), Signature { value: 5 })]);
    assert_eq!(
        proof.signatures,
        vec![
            (key(1), Signature { value: 3 }),
            (key(2), Signature { value: 4 }),
            (key(3), Signature { value: 5 }),
        ]
    );
    assert_eq!(proof.payload.entries, vec![(key(1), 5)]);
}
