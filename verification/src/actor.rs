//! The section's distributed authority: it opens a pending-endorsement
//! accumulator per proposed transfer, absorbs the replicas' signature
//! shares as they arrive — in any order, with duplicates — and once the
//! section threshold of distinct signers is reached, combines them into
//! the agreement proof that alone moves money.

use vstd::prelude::*;

use crate::churn::ChurnCoordinator;
use crate::types::{
    Credit, CreditAgreementProof, Error, PublicKey, SectionKeys, SectionSignature, SignatureShare,
    SignedTransfer, TransferAgreementProof, TransferValidated,
};

verus! {

/// One transfer's endorsement collector: the proposed transfer, the section
/// key its shares count toward, and the distinct shares gathered so far.
pub struct PendingAgreement {
    pub signed_transfer: SignedTransfer,
    /// The section key in force when collection began.
    pub key: PublicKey,
    /// Shares gathered so far; pairwise distinct signers, all under `key`.
    pub shares: Vec<SignatureShare>,
}

/// Whether some share among `shares` was signed by share index `idx`.
pub open spec fn share_from(shares: Seq<SignatureShare>, idx: u64) -> bool {
    exists|i: int| 0 <= i < shares.len() && (#[trigger] shares[i]).signer_index == idx
}

/// A collector is well formed when its shares carry pairwise distinct
/// signer indices, all under the collector's key.
pub open spec fn pa_wf(pa: PendingAgreement) -> bool {
    &&& forall|i: int, j: int|
        0 <= i < j < pa.shares@.len() ==> (#[trigger] pa.shares@[i]).signer_index
            != (#[trigger] pa.shares@[j]).signer_index
    &&& forall|i: int| 0 <= i < pa.shares@.len() ==> (#[trigger] pa.shares@[i]).key == pa.key
}

/// Whether some collector among `ps` is keyed by transfer id `id`.
pub open spec fn has_pending(ps: Seq<PendingAgreement>, id: u64) -> bool {
    exists|i: int|
        0 <= i < ps.len() && (#[trigger] ps[i]).signed_transfer.transfer.id == id
}

/// Index of the collector keyed by transfer id `id` among `ps`.
pub open spec fn pending_index(ps: Seq<PendingAgreement>, id: u64) -> int {
    choose|i: int| 0 <= i < ps.len() && (#[trigger] ps[i]).signed_transfer.transfer.id == id
}

/// No two collectors among `ps` share a transfer id.
pub open spec fn unique_pending(ps: Seq<PendingAgreement>) -> bool {
    forall|i: int, j: int|
        0 <= i < j < ps.len() ==> (#[trigger] ps[i]).signed_transfer.transfer.id
            != (#[trigger] ps[j]).signed_transfer.transfer.id
}

/// With unique ids, any index holding a collector for `id` is the index
/// the specification functions name.
pub proof fn lemma_pending_at(ps: Seq<PendingAgreement>, id: u64, i: int)
    requires
        unique_pending(ps),
        0 <= i < ps.len(),
        ps[i].signed_transfer.transfer.id == id,
    ensures
        has_pending(ps, id),
        pending_index(ps, id) == i,
{
    assert(has_pending(ps, id));
    let j = pending_index(ps, id);
    if i < j {
        assert(ps[i].signed_transfer.transfer.id != ps[j].signed_transfer.transfer.id);
    } else if j < i {
        assert(ps[j].signed_transfer.transfer.id != ps[i].signed_transfer.transfer.id);
    }
}

/// The section's aggregating authority: its open endorsement collectors.
pub struct SectionActor {
    pub pending: Vec<PendingAgreement>,
}

impl SectionActor {
    /// Well-formedness: ids unique, every collector well formed.
    pub open spec fn wf(self) -> bool {
        &&& unique_pending(self.pending@)
        &&& forall|i: int| 0 <= i < self.pending@.len() ==> pa_wf(#[trigger] self.pending@[i])
    }

    /// An actor with no collection under way.
    pub fn new() -> (a: SectionActor)
        ensures
            a.wf(),
            a.pending@.len() == 0,
    {
        SectionActor { pending: Vec::new() }
    }

    /// Index of the collector for transfer id `id`, if one is open.
    fn find_pending(&self, id: u64) -> (r: Option<usize>)
        ensures
            match r {
                Some(i) => i < self.pending@.len()
                    && self.pending@[i as int].signed_transfer.transfer.id == id,
                None => !has_pending(self.pending@, id),
            },
    {
        let n = self.pending.len();
        let mut i: usize = 0;
        while i < n
            invariant
                i <= n,
                n == self.pending@.len(),
                forall|j: int|
                    0 <= j < i ==> (#[trigger] self.pending@[j]).signed_transfer.transfer.id
                        != id,
            decreases n - i,
        {
            if self.pending[i].signed_transfer.transfer.id == id {
                return Some(i);
            }
            i += 1;
        }
        None
    }

    /// Open a collector for a proposed transfer and (outside this crate)
    /// broadcast it to the replica set. Never blocks: completion is
    /// observed when the aggregated proof is produced. During a churn,
    /// proposals past the grace deadline are refused with a retriable
    /// stale-key rejection; a proposal already collecting is a harmless
    /// repeat.
    pub fn propose(&mut self, st: &SignedTransfer, churn: &ChurnCoordinator, now: u64) -> (r:
        Result<(), Error>)
        requires
            old(self).wf(),
        ensures
            final(self).wf(),
            r is Ok <==> churn.spec_accepting(now),
            r matches Err(e) ==> e == Error::StaleSectionKey && *final(self) == *old(self),
            r is Ok ==> if has_pending(old(self).pending@, st.transfer.id) {
                *final(self) == *old(self)
            } else {
                &&& final(self).pending@.drop_last() == old(self).pending@
                &&& final(self).pending@.len() == old(self).pending@.len() + 1
                &&& final(self).pending@.last().signed_transfer == *st
                &&& final(self).pending@.last().key == churn.keys.current.public_key
                &&& final(self).pending@.last().shares@ == Seq::<SignatureShare>::empty()
            },
    {
        if !churn.accepting_proposals(now) {
            return Err(Error::StaleSectionKey);
        }
        match self.find_pending(st.transfer.id) {
            Some(i) => {
                proof {
                    lemma_pending_at(self.pending@, st.transfer.id, i as int);
                }
                Ok(())
            },
            None => {
                let pa = PendingAgreement {
                    signed_transfer: *st,
                    key: churn.keys.current.public_key,
                    shares: Vec::new(),
                };
                self.pending.push(pa);
                proof {
                    assert(self.pending@.drop_last() =~= old(self).pending@);
                }
                Ok(())
            },
        }
    }

    /// Absorb one replica's endorsement. A share under a key other than
    /// the one in force is rejected; a share for a different transfer than
    /// the collector's is an invalid endorsement; a duplicate signer is
    /// ignored. The collector for an id with no open collector is created
    /// on the spot (shares may outrun the proposal), and one left over
    /// from before a key change is restarted under the new key. Once the
    /// distinct signers reach the section threshold, the shares combine
    /// into the agreement proof and the collector closes.
    pub fn receive_validation(&mut self, v: &TransferValidated, churn: &ChurnCoordinator) -> (r:
        Result<Option<TransferAgreementProof>, Error>)
        requires
            old(self).wf(),
            churn.wf(),
        ensures
            final(self).wf(),
            r is Err <==> (v.replica_sig.key != churn.keys.current.public_key || (has_pending(
                old(self).pending@,
                v.signed_transfer.transfer.id,
            ) && {
                let pa = old(self).pending@[pending_index(
                    old(self).pending@,
                    v.signed_transfer.transfer.id,
                )];
                pa.key == churn.keys.current.public_key && pa.signed_transfer
                    != v.signed_transfer
            })),
            r matches Err(e) ==> *final(self) == *old(self) && e == (
            if v.replica_sig.key != churn.keys.current.public_key {
                Error::StaleSectionKey
            } else {
                Error::InvalidSignature
            }),
            r matches Ok(out) ==> ({
                let cur = churn.keys.current.public_key;
                let ps = old(self).pending@;
                let id = v.signed_transfer.transfer.id;
                let threshold = churn.keys.current.threshold;
                &&& (out matches Some(p) ==> p == (TransferAgreementProof {
                    signed_transfer: v.signed_transfer,
                    section_sig: SectionSignature { key: cur },
                }))
                &&& if !has_pending(ps, id) {
                    if threshold <= 1 {
                        out is Some && *final(self) == *old(self)
                    } else {
                        &&& out is None
                        &&& final(self).pending@.drop_last() == ps
                        &&& final(self).pending@.len() == ps.len() + 1
                        &&& final(self).pending@.last().signed_transfer == v.signed_transfer
                        &&& final(self).pending@.last().key == cur
                        &&& final(self).pending@.last().shares@ == seq![v.replica_sig]
                    }
                } else {
                    let i = pending_index(ps, id);
                    let pa = ps[i];
                    if pa.key != cur {
                        // restarted under the new key
                        if threshold <= 1 {
                            out is Some && final(self).pending@ == ps.remove(i)
                        } else {
                            &&& out is None
                            &&& final(self).pending@.len() == ps.len()
                            &&& final(self).pending@[i].signed_transfer == v.signed_transfer
                            &&& final(self).pending@[i].key == cur
                            &&& final(self).pending@[i].shares@ == seq![v.replica_sig]
                            &&& (forall|j: int|
                                0 <= j < ps.len() && j != i ==> final(self).pending@[j] == ps[j])
                        }
                    } else if share_from(pa.shares@, v.replica_sig.signer_index) {
                        // duplicate signer: deduplicated
                        out is None && *final(self) == *old(self)
                    } else if pa.shares@.len() + 1 >= threshold {
                        out is Some && final(self).pending@ == ps.remove(i)
                    } else {
                        &&& out is None
                        &&& final(self).pending@.len() == ps.len()
                        &&& final(self).pending@[i].signed_transfer == pa.signed_transfer
                        &&& final(self).pending@[i].key == pa.key
                        &&& final(self).pending@[i].shares@ == pa.shares@.push(v.replica_sig)
                        &&& (forall|j: int|
                            0 <= j < ps.len() && j != i ==> final(self).pending@[j] == ps[j])
                    }
                }
            }),
    {
        let cur = churn.keys.current.public_key;
        let id = v.signed_transfer.transfer.id;
        if v.replica_sig.key != cur {
            return Err(Error::StaleSectionKey);
        }
        let threshold = churn.keys.current.threshold;
        match self.find_pending(id) {
            None => {
                if threshold <= 1 {
                    return Ok(
                        Some(
                            TransferAgreementProof {
                                signed_transfer: v.signed_transfer,
                                section_sig: SectionSignature { key: cur },
                            },
                        ),
                    );
                }
                let mut shares: Vec<SignatureShare> = Vec::new();
                shares.push(v.replica_sig);
                let pa = PendingAgreement { signed_transfer: v.signed_transfer, key: cur, shares };
                self.pending.push(pa);
                proof {
                    assert(self.pending@.drop_last() =~= old(self).pending@);
                }
                Ok(None)
            },
            Some(i) => {
                proof {
                    lemma_pending_at(self.pending@, id, i as int);
                }
                if self.pending[i].key != cur {
                    // a collector left over from before the key change
                    if threshold <= 1 {
                        let _ = self.pending.remove(i);
                        return Ok(
                            Some(
                                TransferAgreementProof {
                                    signed_transfer: v.signed_transfer,
                                    section_sig: SectionSignature { key: cur },
                                },
                            ),
                        );
                    }
                    let mut shares: Vec<SignatureShare> = Vec::new();
                    shares.push(v.replica_sig);
                    let pa = PendingAgreement {
                        signed_transfer: v.signed_transfer,
                        key: cur,
                        shares,
                    };
                    let slot = &mut self.pending[i];
                    *slot = pa;
                    return Ok(None);
                }
                if self.pending[i].signed_transfer != v.signed_transfer {
                    return Err(Error::InvalidSignature);
                }
                let mut dup = false;
                let n = self.pending[i].shares.len();
                let mut j: usize = 0;
                while j < n
                    invariant
                        j <= n,
                        i < self.pending@.len(),
                        n == self.pending@[i as int].shares@.len(),
                        dup ==> share_from(
                            self.pending@[i as int].shares@,
                            v.replica_sig.signer_index,
                        ),
                        !dup ==> forall|m: int|
                            0 <= m < j ==> (#[trigger] self.pending@[i as int].shares@[m]).signer_index
                                != v.replica_sig.signer_index,
                    decreases n - j,
                {
                    if self.pending[i].shares[j].signer_index == v.replica_sig.signer_index {
                        dup = true;
                    }
                    j += 1;
                }
                if dup {
                    return Ok(None);
                }
                if (n as u64) >= threshold || (n as u64) + 1 >= threshold {
                    let ghost ps = self.pending@;
                    let _ = self.pending.remove(i);
                    proof {
                        assert(self.pending@ == ps.remove(i as int));
                        assert forall|a: int, b: int| 0 <= a < b < self.pending@.len() implies (
                        #[trigger] self.pending@[a]).signed_transfer.transfer.id != (
                        #[trigger] self.pending@[b]).signed_transfer.transfer.id by {
                            let a2 = if a < i as int {
                                a
                            } else {
                                a + 1
                            };
                            let b2 = if b < i as int {
                                b
                            } else {
                                b + 1
                            };
                            assert(self.pending@[a] == ps[a2]);
                            assert(self.pending@[b] == ps[b2]);
                        }
                        assert forall|a: int| 0 <= a < self.pending@.len() implies pa_wf(
                            #[trigger] self.pending@[a],
                        ) by {
                            let a2 = if a < i as int {
                                a
                            } else {
                                a + 1
                            };
                            assert(self.pending@[a] == ps[a2]);
                        }
                    }
                    return Ok(
                        Some(
                            TransferAgreementProof {
                                signed_transfer: v.signed_transfer,
                                section_sig: SectionSignature { key: cur },
                            },
                        ),
                    );
                }
                let slot = &mut self.pending[i];
                slot.shares.push(v.replica_sig);
                Ok(None)
            },
        }
    }
}

/// Whether every share among `shares` counts toward `key`.
pub open spec fn all_under_key(shares: Seq<SignatureShare>, key: PublicKey) -> bool {
    forall|i: int| 0 <= i < shares.len() ==> (#[trigger] shares[i]).key == key
}

/// How many distinct signer indices appear among `shares`.
pub open spec fn distinct_index_count(shares: Seq<SignatureShare>) -> nat
    decreases shares.len(),
{
    if shares.len() == 0 {
        0
    } else {
        distinct_index_count(shares.drop_last()) + if share_from(
            shares.drop_last(),
            shares.last().signer_index,
        ) {
            0nat
        } else {
            1nat
        }
    }
}

/// Whether `idx` is among `seen`.
fn contains_index(seen: &Vec<u64>, idx: u64) -> (r: bool)
    ensures
        r == seen@.contains(idx),
{
    let n = seen.len();
    let mut i: usize = 0;
    while i < n
        invariant
            i <= n,
            n == seen@.len(),
            forall|j: int| 0 <= j < i ==> seen@[j] != idx,
        decreases n - i,
    {
        if seen[i] == idx {
            return true;
        }
        i += 1;
    }
    false
}

/// Bootstrap of a genesis section's wallet: combine the founding elders'
/// individually gathered shares over the genesis credit into its agreement
/// proof. Shares under any key but the one in force are rejected;
/// duplicates are deduplicated by signer; short of the threshold the
/// bootstrap simply keeps waiting.
pub fn accumulate_genesis(credit: &Credit, shares: &Vec<SignatureShare>, keys: &SectionKeys) -> (r:
    Result<Option<CreditAgreementProof>, Error>)
    ensures
        r is Err <==> !all_under_key(shares@, keys.current.public_key),
        r matches Err(e) ==> e == Error::StaleSectionKey,
        r matches Ok(out) ==> {
            &&& out is Some <==> distinct_index_count(shares@) >= keys.current.threshold
            &&& (out matches Some(p) ==> p == (CreditAgreementProof {
                credit: *credit,
                section_sig: SectionSignature { key: keys.current.public_key },
            }))
        },
{
    let n = shares.len();
    let mut seen: Vec<u64> = Vec::new();
    let mut count: u64 = 0;
    let mut j: usize = 0;
    while j < n
        invariant
            j <= n,
            n == shares@.len(),
            count <= j,
            count as nat == distinct_index_count(shares@.take(j as int)),
            forall|idx: u64|
                #[trigger] seen@.contains(idx) == share_from(shares@.take(j as int), idx),
            all_under_key(shares@.take(j as int), keys.current.public_key),
        decreases n - j,
    {
        let s = shares[j];
        let ghost pre = shares@.take(j as int);
        let ghost post = shares@.take(j as int + 1);
        proof {
            assert(post.drop_last() =~= pre);
            assert(post.last() == shares@[j as int]);
        }
        if s.key != keys.current.public_key {
            proof {
                assert(shares@[j as int].key != keys.current.public_key);
                assert(!all_under_key(shares@, keys.current.public_key));
            }
            return Err(Error::StaleSectionKey);
        }
        if !contains_index(&seen, s.signer_index) {
            let ghost seen0 = seen@;
            seen.push(s.signer_index);
            count = count + 1;
            proof {
                assert(seen@.drop_last() =~= seen0);
                assert(seen@.last() == s.signer_index);
                assert forall|idx: u64| #[trigger] seen@.contains(idx) == share_from(post, idx) by {
                    if idx == s.signer_index {
                        assert(seen@[seen@.len() - 1] == idx);
                        assert(seen@.contains(idx));
                        assert(post.last().signer_index == idx);
                        assert(share_from(post, idx));
                    } else {
                        assert(seen@.contains(idx) == seen0.contains(idx)) by {
                            if seen@.contains(idx) {
                                let m = choose|m: int|
                                    0 <= m < seen@.len() && seen@[m] == idx;
                                assert(m < seen@.len() - 1);
                                assert(seen0[m] == idx);
                            } else {
                                if seen0.contains(idx) {
                                    let m = choose|m: int|
                                        0 <= m < seen0.len() && seen0[m] == idx;
                                    assert(seen@[m] == idx);
                                }
                            }
                        }
                        assert(share_from(post, idx) == share_from(pre, idx)) by {
                            if share_from(post, idx) {
                                let m = choose|m: int|
                                    0 <= m < post.len() && post[m].signer_index == idx;
                                assert(m < pre.len());
                                assert(pre[m].signer_index == idx);
                            } else {
                                if share_from(pre, idx) {
                                    let m = choose|m: int|
                                        0 <= m < pre.len() && pre[m].signer_index == idx;
                                    assert(post[m].signer_index == idx);
                                }
                            }
                        }
                    }
                }
            }
        } else {
            proof {
                assert(share_from(pre, s.signer_index));
                assert forall|idx: u64| #[trigger] seen@.contains(idx) == share_from(post, idx) by {
                    assert(share_from(post, idx) == share_from(pre, idx)) by {
                        if share_from(post, idx) {
                            let m = choose|m: int|
                                0 <= m < post.len() && post[m].signer_index == idx;
                            if m < pre.len() {
                                assert(pre[m].signer_index == idx);
                            } else {
                                assert(idx == s.signer_index);
                            }
                        } else {
                            if share_from(pre, idx) {
                                let m = choose|m: int|
                                    0 <= m < pre.len() && pre[m].signer_index == idx;
                                assert(post[m].signer_index == idx);
                            }
                        }
                    }
                }
            }
        }
        j += 1;
    }
    proof {
        assert(shares@.take(n as int) =~= shares@);
    }
    if count >= keys.current.threshold {
        Ok(
            Some(
                CreditAgreementProof {
                    credit: *credit,
                    section_sig: SectionSignature { key: keys.current.public_key },
                },
            ),
        )
    } else {
        Ok(None)
    }
}

} // verus!
