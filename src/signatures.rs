//! A multi-signature proof: a fixed payload and one signature per signing key.
use vstd::prelude::*;

verus! {

/// The pair of cross-chain addresses a validator signs with.
#[derive(Clone, Copy, Debug, PartialEq, Eq, Structural)]
pub struct SignerKey {
    pub hot: u64,
    pub cold: u64,
}

/// An opaque signature, bound to the key that made it.
#[derive(Clone, Copy, Debug, PartialEq, Eq, Structural)]
pub struct Signature {
    pub value: u128,
}

/// The signed payload: the voting power of each signing key of the next
/// validator set.
#[derive(Clone, Debug)]
pub struct VotingPowers {
    pub entries: Vec<(SignerKey, u64)>,
}

/// A payload and the signatures collected on it so far.
#[derive(Clone, Debug)]
pub struct Proof {
    pub payload: VotingPowers,
    pub signatures: Vec<(SignerKey, Signature)>,
}

/// No signing key occurs twice in `sigs`.
pub open spec fn keys_unique(sigs: Seq<(SignerKey, Signature)>) -> bool {
    forall|i: int, j: int| 0 <= i < j < sigs.len() ==> sigs[i].0 != sigs[j].0
}

/// `m` after inserting each pair of `batch` in turn: for a key that occurs
/// several times, the last of its signatures stays.
pub open spec fn insert_batch(
    m: Map<SignerKey, Signature>,
    batch: Seq<(SignerKey, Signature)>,
) -> Map<SignerKey, Signature>
    decreases batch.len(),
{
    if batch.len() == 0 {
        m
    } else {
        insert_batch(m, batch.drop_last()).insert(batch.last().0, batch.last().1)
    }
}

proof fn lemma_replace_signature(sigs: Seq<(SignerKey, Signature)>, j: int, sig: Signature)
    requires
        keys_unique(sigs),
        0 <= j < sigs.len(),
    ensures
        keys_unique(sigs.update(j, (sigs[j].0, sig))),
        insert_batch(Map::empty(), sigs.update(j, (sigs[j].0, sig))) == insert_batch(
            Map::empty(),
            sigs,
        ).insert(sigs[j].0, sig),
    decreases sigs.len(),
{
    let updated = sigs.update(j, (sigs[j].0, sig));
    let rest = insert_batch(Map::empty(), sigs.drop_last());
    if j == sigs.len() - 1 {
        assert(updated.drop_last() =~= sigs.drop_last());
        assert(rest.insert(sigs[j].0, sig) =~= rest.insert(sigs[j].0, sigs[j].1).insert(
            sigs[j].0,
            sig,
        ));
    } else {
        assert(updated.drop_last() =~= sigs.drop_last().update(j, (sigs[j].0, sig)));
        lemma_replace_signature(sigs.drop_last(), j, sig);
        assert(sigs.last().0 != sigs[j].0);
        assert(rest.insert(sigs[j].0, sig).insert(sigs.last().0, sigs.last().1) =~= rest.insert(
            sigs.last().0,
            sigs.last().1,
        ).insert(sigs[j].0, sig));
    }
}

impl Proof {
    /// The index of the signature held for `key`, if any.
    fn position_of(&self, key: SignerKey) -> (r: Option<usize>)
        ensures
            match r {
                Some(j) => j < self.signatures@.len() && self.signatures@[j as int].0 == key,
                None => forall|k: int| 0 <= k < self.signatures@.len() ==> self.signatures@[k].0 != key,
            },
    {
        let mut i: usize = 0;
        while i < self.signatures.len()
            invariant
                i <= self.signatures.len(),
                forall|k: int| 0 <= k < i ==> self.signatures@[k].0 != key,
            decreases self.signatures.len() - i,
        {
            if self.signatures[i].0 == key {
                return Some(i);
            }
            i += 1;
        }
        None
    }

    /// The collected signatures, by signing key.
    pub open spec fn signature_map(&self) -> Map<SignerKey, Signature> {
        insert_batch(Map::empty(), self.signatures@)
    }

    pub open spec fn wf(&self) -> bool {
        keys_unique(self.signatures@)
    }

    /// A proof of `payload` with no signature yet.
    pub fn new(payload: VotingPowers) -> (r: Proof)
        ensures
            r.wf(),
            r.payload == payload,
            r.signatures@.len() == 0,
            r.signature_map() == Map::<SignerKey, Signature>::empty(),
    {
        Proof { payload, signatures: Vec::new() }
    }

    /// Adds a batch of signatures. A key already present, or repeated in the
    /// batch, keeps the last signature given for it.
    pub fn attach_signature_batch(&mut self, batch: &Vec<(SignerKey, Signature)>)
        requires
            old(self).wf(),
        ensures
            final(self).wf(),
            final(self).payload == old(self).payload,
            final(self).signature_map() == insert_batch(old(self).signature_map(), batch@),
    {
        let mut i: usize = 0;
        while i < batch.len()
            invariant
                i <= batch.len(),
                self.wf(),
                self.payload == old(self).payload,
                self.signature_map() == insert_batch(old(self).signature_map(), batch@.take(i as int)),
            decreases batch.len() - i,
        {
            let (key, sig) = batch[i];
            assert(batch@.take(i + 1).drop_last() =~= batch@.take(i as int));
            match self.position_of(key) {
                Some(j) => {
                    proof {
                        lemma_replace_signature(self.signatures@, j as int, sig);
                    }
                    self.signatures.set(j, (key, sig));
                },
                None => {
                    let ghost before = self.signatures@;
                    self.signatures.push((key, sig));
                    assert(self.signatures@.drop_last() =~= before);
                },
            }
            i += 1;
        }
        assert(batch@.take(batch.len() as int) =~= batch@);
    }
}


proof fn lemma_batch_domain(m: Map<SignerKey, Signature>, batch: Seq<(SignerKey, Signature)>)
    ensures
        m.dom().finite() ==> insert_batch(m, batch).dom().finite(),
        forall|k: SignerKey|
            #![trigger insert_batch(m, batch).dom().contains(k)]
            insert_batch(m, batch).dom().contains(k) <==> (m.dom().contains(k) || exists|j: int|
                0 <= j < batch.len() && batch[j].0 == k),
    decreases batch.len(),
{
    if batch.len() > 0 {
        lemma_batch_domain(m, batch.drop_last());
        assert forall|k: SignerKey|
            insert_batch(m, batch).dom().contains(k) <==> (m.dom().contains(k) || exists|j: int|
                0 <= j < batch.len() && batch[j].0 == k) by {
            let dl = batch.drop_last();
            assert(insert_batch(m, batch) == insert_batch(m, dl).insert(batch.last().0, batch.last().1));
            assert(insert_batch(m, dl).dom().contains(k) <==> (m.dom().contains(k) || exists|j: int|
                0 <= j < dl.len() && dl[j].0 == k));
            if exists|j: int| 0 <= j < batch.len() && batch[j].0 == k {
                let j = choose|j: int| 0 <= j < batch.len() && batch[j].0 == k;
                if j < batch.len() - 1 {
                    assert(batch.drop_last()[j].0 == k);
                }
            }
            if exists|j: int| 0 <= j < batch.len() - 1 && batch.drop_last()[j].0 == k {
                let j = choose|j: int| 0 <= j < batch.len() - 1 && batch.drop_last()[j].0 == k;
                assert(batch[j].0 == k);
            }
        }
    }
}

proof fn lemma_last_write(m: Map<SignerKey, Signature>, batch: Seq<(SignerKey, Signature)>, i: int)
    requires
        0 <= i < batch.len(),
        forall|j: int| i < j < batch.len() ==> batch[j].0 != batch[i].0,
    ensures
        insert_batch(m, batch)[batch[i].0] == batch[i].1,
    decreases batch.len(),
{
    if i < batch.len() - 1 {
        lemma_last_write(m, batch.drop_last(), i);
    }
}

proof fn lemma_unique_count(sigs: Seq<(SignerKey, Signature)>)
    requires
        keys_unique(sigs),
    ensures
        insert_batch(Map::empty(), sigs).dom().len() == sigs.len(),
    decreases sigs.len(),
{
    if sigs.len() > 0 {
        let rest = sigs.drop_last();
        lemma_unique_count(rest);
        lemma_batch_domain(Map::empty(), rest);
        assert(!insert_batch(Map::empty(), rest).dom().contains(sigs.last().0)) by {
            if insert_batch(Map::empty(), rest).dom().contains(sigs.last().0) {
                let j = choose|j: int| 0 <= j < rest.len() && rest[j].0 == sigs.last().0;
                assert(sigs[j].0 == sigs[sigs.len() - 1].0);
            }
        }
    }
}

/// A well-formed proof holds exactly one signature per signing key that ever
/// signed it: its entries are as many as the distinct keys, and after a batch
/// each key of the batch holds the last signature the batch gave for it.
pub proof fn lemma_one_signature_per_key(p: Proof, batch: Seq<(SignerKey, Signature)>)
    requires
        p.wf(),
    ensures
        p.signature_map().dom().finite(),
        p.signature_map().dom().len() == p.signatures@.len(),
        forall|k: SignerKey|
            #![trigger insert_batch(p.signature_map(), batch).dom().contains(k)]
            insert_batch(p.signature_map(), batch).dom().contains(k) <==> (p.signature_map().dom().contains(k)
                || exists|j: int| 0 <= j < batch.len() && batch[j].0 == k),
        forall|i: int|
            0 <= i < batch.len() && (forall|j: int| i < j < batch.len() ==> batch[j].0 != batch[i].0)
                ==> #[trigger] insert_batch(p.signature_map(), batch)[batch[i].0] == batch[i].1,
{
    lemma_batch_domain(Map::empty(), p.signatures@);
    lemma_unique_count(p.signatures@);
    lemma_batch_domain(p.signature_map(), batch);
    assert forall|i: int|
        0 <= i < batch.len() && (forall|j: int| i < j < batch.len() ==> batch[j].0 != batch[i].0)
            implies #[trigger] insert_batch(p.signature_map(), batch)[batch[i].0] == batch[i].1 by {
        lemma_last_write(p.signature_map(), batch, i);
    }
}

} // verus!
