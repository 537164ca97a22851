//! One Elder's independent validator of the transfer protocol: it endorses
//! proposed transfers with signature shares, commits quorum-agreed debits,
//! applies propagated credits, and keeps the append-only event log its
//! ledger state is a pure function of.
//!
//! Everything a replica holds is replayed from the log: two replicas that
//! replay the same log agree on every balance, which is what lets a freshly
//! joined Elder resynchronize wholesale from a peer.

use vstd::prelude::*;

use crate::ledger::{
    balance_in, debit_count, has_credit_id, has_entry, lemma_balance_in_bounds,
    lemma_debit_seq_bound, TransferLedger,
};
use crate::types::{
    AgreementProof, CreditAgreementProof, Error, PublicKey, ReplicaEvent, SectionKeys, Signature,
    SignatureShare, SignedTransfer, SignedTransferShare, TransferAgreementProof, TransferValidated,
};

verus! {

/// What replaying one event appends to the wallet history of `k`.
pub open spec fn event_entries(e: ReplicaEvent, k: PublicKey) -> Seq<AgreementProof> {
    match e {
        ReplicaEvent::Validated(_) => Seq::empty(),
        ReplicaEvent::Registered(p) => {
            if p.signed_transfer.transfer.from == k || p.signed_transfer.transfer.to == k {
                seq![AgreementProof::Transfer(p)]
            } else {
                Seq::empty()
            }
        },
        ReplicaEvent::Propagated(c) => {
            if c.credit.recipient == k {
                seq![AgreementProof::Credit(c)]
            } else {
                Seq::empty()
            }
        },
    }
}

/// The wallet history of `k` after replaying `log` from genesis.
pub open spec fn replay_history(log: Seq<ReplicaEvent>, k: PublicKey) -> Seq<AgreementProof>
    decreases log.len(),
{
    if log.len() == 0 {
        Seq::empty()
    } else {
        replay_history(log.drop_last(), k) + event_entries(log.last(), k)
    }
}

/// Balance of `k` after replaying `log`.
pub open spec fn replay_balance(log: Seq<ReplicaEvent>, k: PublicKey) -> int {
    balance_in(replay_history(log, k), k)
}

/// The sequence number the next debit of `k` must carry after replaying
/// `log`.
pub open spec fn replay_next_seq(log: Seq<ReplicaEvent>, k: PublicKey) -> nat {
    debit_count(replay_history(log, k), k)
}

/// Whether `e` may follow the log `log`: a registered debit must carry the
/// sender's own signature, take exactly the next sequence slot, be covered
/// by the debited balance, and leave the receiving balance representable; a
/// propagated credit must carry a fresh credit id and leave the receiving
/// balance representable.
pub open spec fn valid_event(log: Seq<ReplicaEvent>, e: ReplicaEvent) -> bool {
    match e {
        ReplicaEvent::Validated(_) => true,
        ReplicaEvent::Registered(p) => {
            let t = p.signed_transfer.transfer;
            &&& p.signed_transfer.sig.signer == t.from
            &&& t.seq as nat == replay_next_seq(log, t.from)
            &&& t.amount as int <= replay_balance(log, t.from)
            &&& (t.from != t.to ==> replay_balance(log, t.to) + t.amount <= u64::MAX)
        },
        ReplicaEvent::Propagated(c) => {
            &&& !has_credit_id(replay_history(log, c.credit.recipient), c.credit.id)
            &&& replay_balance(log, c.credit.recipient) + c.credit.amount <= u64::MAX
        },
    }
}

/// Whether every event of `log` may follow what precedes it; what replaying
/// an honest peer's log finds.
pub open spec fn valid_log(log: Seq<ReplicaEvent>) -> bool
    decreases log.len(),
{
    log.len() == 0 || {
        &&& valid_log(log.drop_last())
        &&& valid_event(log.drop_last(), log.last())
    }
}

/// Replaying a log extended by one event appends that event's entries to
/// each wallet history.
pub proof fn lemma_replay_push(log: Seq<ReplicaEvent>, e: ReplicaEvent)
    ensures
        forall|k: PublicKey| #[trigger]
            replay_history(log.push(e), k) == replay_history(log, k) + event_entries(e, k),
{
    assert forall|k: PublicKey| #[trigger] replay_history(log.push(e), k) == replay_history(log, k)
        + event_entries(e, k) by {
        assert(log.push(e).drop_last() =~= log);
        assert(log.push(e).last() == e);
    }
}

/// Replaying a log made of a prefix and a remainder is replaying the prefix
/// and then the remainder: a replica holding any prefix of a peer's log
/// converges to the peer's state by applying what it lacks.
pub proof fn lemma_replay_append(a: Seq<ReplicaEvent>, b: Seq<ReplicaEvent>, k: PublicKey)
    ensures
        replay_history(a + b, k) == replay_history(a, k) + replay_history(b, k),
    decreases b.len(),
{
    if b.len() == 0 {
        assert(a + b =~= a);
        assert(replay_history(a, k) + replay_history(b, k) =~= replay_history(a, k));
    } else {
        assert((a + b).drop_last() =~= a + b.drop_last());
        assert((a + b).last() == b.last());
        lemma_replay_append(a, b.drop_last(), k);
        assert(replay_history(a, k) + replay_history(b.drop_last(), k) + event_entries(
            b.last(),
            k,
        ) =~= replay_history(a, k) + (replay_history(b.drop_last(), k) + event_entries(
            b.last(),
            k,
        )));
    }
}

/// Validity of a log carries to each of its prefixes.
pub proof fn lemma_valid_log_take(log: Seq<ReplicaEvent>, i: int)
    requires
        valid_log(log),
        0 <= i <= log.len(),
    ensures
        valid_log(log.take(i)),
    decreases log.len(),
{
    if i == log.len() {
        assert(log.take(i) =~= log);
    } else {
        assert(log.drop_last().take(i) =~= log.take(i));
        lemma_valid_log_take(log.drop_last(), i);
    }
}

/// Law of determinism: replaying equal logs yields equal balances for every
/// account, whichever replica does it — no hidden local state can influence
/// a balance.
pub proof fn lemma_replay_deterministic(log1: Seq<ReplicaEvent>, log2: Seq<ReplicaEvent>)
    requires
        log1 == log2,
    ensures
        forall|k: PublicKey| #[trigger] replay_balance(log1, k) == replay_balance(log2, k),
        forall|k: PublicKey| #[trigger] replay_history(log1, k) == replay_history(log2, k),
{
}

/// Whether the sender's own signature authorizes the transfer.
pub open spec fn sender_sig_ok(st: SignedTransfer) -> bool {
    st.sig.signer == st.transfer.from
}

/// Whether the log holds an endorsement of a different transfer occupying
/// the same sender and sequence slot as `st`.
pub open spec fn has_conflicting_validation(log: Seq<ReplicaEvent>, st: SignedTransfer) -> bool {
    exists|i: int|
        #![trigger log[i]]
        {
            &&& 0 <= i < log.len()
            &&& log[i] matches ReplicaEvent::Validated(v)
            &&& v.signed_transfer.transfer.from == st.transfer.from
            &&& v.signed_transfer.transfer.seq == st.transfer.seq
            &&& v.signed_transfer != st
        }
}

/// Whether the log already holds an endorsement of exactly `st`.
pub open spec fn has_same_validation(log: Seq<ReplicaEvent>, st: SignedTransfer) -> bool {
    exists|i: int|
        #![trigger log[i]]
        {
            &&& 0 <= i < log.len()
            &&& log[i] matches ReplicaEvent::Validated(v)
            &&& v.signed_transfer == st
        }
}

/// When a replica with log `log` endorses `st`: the sender signature is
/// its own, no different transfer was endorsed for the same slot, the slot
/// is exactly the next one, and the balance covers the amount.
pub open spec fn spec_validate_ok(log: Seq<ReplicaEvent>, st: SignedTransfer) -> bool {
    &&& sender_sig_ok(st)
    &&& !has_conflicting_validation(log, st)
    &&& st.transfer.seq as nat == replay_next_seq(log, st.transfer.from)
    &&& st.transfer.amount as int <= replay_balance(log, st.transfer.from)
}

/// The rejection a replica with log `log` returns for `st`, when it
/// endorses nothing.
pub open spec fn spec_validate_err(log: Seq<ReplicaEvent>, st: SignedTransfer) -> Error {
    if !sender_sig_ok(st) {
        Error::InvalidSignature
    } else if has_conflicting_validation(log, st) || st.transfer.seq as nat != replay_next_seq(
        log,
        st.transfer.from,
    ) {
        Error::SequenceConflict
    } else {
        Error::InsufficientBalance
    }
}

/// Whether `proof` already stands registered in the log's replayed state.
pub open spec fn spec_already_registered(
    log: Seq<ReplicaEvent>,
    proof: TransferAgreementProof,
) -> bool {
    has_entry(
        replay_history(log, proof.signed_transfer.transfer.from),
        AgreementProof::Transfer(proof),
    )
}

/// When a replica with log `log` accepts a registration of `proof` at time
/// `now`: the section signature's key is in force (or retired but inside
/// its grace window), the sender signature is the debited key's own, and
/// the proof either already stands registered (a retried registration is a
/// harmless repeat) or takes the next free slot with a covered balance.
pub open spec fn spec_register_ok(
    log: Seq<ReplicaEvent>,
    proof: TransferAgreementProof,
    keys: SectionKeys,
    now: u64,
) -> bool {
    let t = proof.signed_transfer.transfer;
    &&& keys.accepts(proof.section_sig.key, now)
    &&& sender_sig_ok(proof.signed_transfer)
    &&& (spec_already_registered(log, proof) || {
        &&& t.seq as nat == replay_next_seq(log, t.from)
        &&& t.amount as int <= replay_balance(log, t.from)
    })
}

/// The rejection a replica with log `log` returns for a registration of
/// `proof` at time `now`, when it accepts nothing.
pub open spec fn spec_register_err(
    log: Seq<ReplicaEvent>,
    proof: TransferAgreementProof,
    keys: SectionKeys,
    now: u64,
) -> Error {
    let t = proof.signed_transfer.transfer;
    if !keys.accepts(proof.section_sig.key, now) {
        Error::StaleSectionKey
    } else if !sender_sig_ok(proof.signed_transfer) {
        Error::InvalidSignature
    } else if t.seq as nat != replay_next_seq(log, t.from) {
        Error::SequenceConflict
    } else {
        Error::InsufficientBalance
    }
}

/// One Elder's validating copy of the transfer protocol state: its signing
/// share index, the append-only event log, and the ledger replayed from it.
pub struct Replica {
    /// This elder's share index, carried in every endorsement it signs.
    pub index: u64,
    /// The append-only event log; the source of truth.
    pub events: Vec<ReplicaEvent>,
    /// The ledger state; always exactly the replay of `events`.
    pub ledger: TransferLedger,
}

impl Replica {
    /// The replica's state is well formed when its ledger is and the ledger
    /// is exactly the replay of its log.
    pub open spec fn wf(self) -> bool {
        &&& self.ledger.wf()
        &&& valid_log(self.events@)
        &&& forall|k: PublicKey| #[trigger]
            self.ledger.spec_history(k) == replay_history(self.events@, k)
    }

    /// The wallet history this replica holds for `k`.
    pub open spec fn spec_history(self, k: PublicKey) -> Seq<AgreementProof> {
        replay_history(self.events@, k)
    }

    /// The balance this replica holds for `k`.
    pub open spec fn spec_balance(self, k: PublicKey) -> int {
        replay_balance(self.events@, k)
    }

    /// Whether the log holds endorsements conflicting with, or identical
    /// to, `st`.
    fn scan_validations(&self, st: &SignedTransfer) -> (r: (bool, bool))
        ensures
            r.0 == has_conflicting_validation(self.events@, *st),
            r.1 == has_same_validation(self.events@, *st),
    {
        let ghost log = self.events@;
        let n = self.events.len();
        let mut conflict = false;
        let mut same = false;
        let mut j: usize = 0;
        while j < n
            invariant
                j <= n,
                n == log.len(),
                log == self.events@,
                conflict ==> has_conflicting_validation(log, *st),
                same ==> has_same_validation(log, *st),
                !conflict ==> forall|m: int|
                    #![trigger log[m]]
                    0 <= m < j ==> !(log[m] matches ReplicaEvent::Validated(v)
                        && v.signed_transfer.transfer.from == st.transfer.from
                        && v.signed_transfer.transfer.seq == st.transfer.seq && v.signed_transfer
                        != *st),
                !same ==> forall|m: int|
                    #![trigger log[m]]
                    0 <= m < j ==> !(log[m] matches ReplicaEvent::Validated(v)
                        && v.signed_transfer == *st),
            decreases n - j,
        {
            match &self.events[j] {
                ReplicaEvent::Validated(v) => {
                    if v.signed_transfer == *st {
                        proof {
                            assert(log[j as int] matches ReplicaEvent::Validated(v2)
                                && v2.signed_transfer == *st);
                        }
                        same = true;
                    } else if v.signed_transfer.transfer.from == st.transfer.from
                        && v.signed_transfer.transfer.seq == st.transfer.seq {
                        proof {
                            assert(log[j as int] matches ReplicaEvent::Validated(v2)
                                && v2.signed_transfer.transfer.from == st.transfer.from
                                && v2.signed_transfer.transfer.seq == st.transfer.seq
                                && v2.signed_transfer != *st);
                        }
                        conflict = true;
                    }
                },
                _ => {},
            }
            j += 1;
        }
        (conflict, same)
    }

    /// Endorse a proposed transfer: check the sender signature, the
    /// sequence slot and the balance against this replica's own view, and
    /// on success log the endorsement and emit a signature share under the
    /// section key in force. A rejection changes nothing.
    pub fn validate(&mut self, st: &SignedTransfer, keys: &SectionKeys) -> (r: Result<
        TransferValidated,
        Error,
    >)
        requires
            old(self).wf(),
        ensures
            final(self).wf(),
            final(self).index == old(self).index,
            r is Ok <==> spec_validate_ok(old(self).events@, *st),
            match r {
                Ok(v) => {
                    &&& v == (TransferValidated {
                        signed_transfer: *st,
                        replica_sig: SignatureShare {
                            signer_index: old(self).index,
                            key: keys.current.public_key,
                        },
                    })
                    &&& final(self).events@ == if has_same_validation(old(self).events@, *st) {
                        old(self).events@
                    } else {
                        old(self).events@.push(ReplicaEvent::Validated(v))
                    }
                },
                Err(e) => {
                    &&& e == spec_validate_err(old(self).events@, *st)
                    &&& final(self).events@ == old(self).events@
                },
            },
            forall|k: PublicKey| #[trigger]
                final(self).spec_history(k) == old(self).spec_history(k),
    {
        if st.sig.signer != st.transfer.from {
            return Err(Error::InvalidSignature);
        }
        let (conflict, same) = self.scan_validations(st);
        if conflict {
            return Err(Error::SequenceConflict);
        }
        proof {
            assert(self.ledger.spec_history(st.transfer.from) == replay_history(
                self.events@,
                st.transfer.from,
            ));
        }
        let next = self.ledger.next_seq(st.transfer.from);
        if st.transfer.seq != next {
            return Err(Error::SequenceConflict);
        }
        let bal = self.ledger.balance(st.transfer.from);
        if st.transfer.amount > bal {
            return Err(Error::InsufficientBalance);
        }
        let v = TransferValidated {
            signed_transfer: *st,
            replica_sig: SignatureShare {
                signer_index: self.index,
                key: keys.current.public_key,
            },
        };
        if !same {
            let ghost log0 = self.events@;
            self.events.push(ReplicaEvent::Validated(v));
            proof {
                let e = ReplicaEvent::Validated(v);
                assert(self.events@.drop_last() =~= log0);
                lemma_replay_push(log0, e);
                assert forall|k: PublicKey| #[trigger] self.ledger.spec_history(k)
                    == replay_history(self.events@, k) by {
                    assert(replay_history(log0, k) + Seq::<AgreementProof>::empty()
                        =~= replay_history(log0, k));
                }
                assert forall|k: PublicKey| #[trigger] replay_history(self.events@, k)
                    == replay_history(log0, k) by {
                    assert(replay_history(log0, k) + Seq::<AgreementProof>::empty()
                        =~= replay_history(log0, k));
                }
            }
        }
        Ok(v)
    }

    /// Endorse a payout of the section-owned wallet: the same protocol as
    /// [`Self::validate`], scoped to the wallet the section key owns, and
    /// authorized by one share of the distributed actor instead of an
    /// owner's signature.
    pub fn validate_section_payout(&mut self, st: &SignedTransferShare, keys: &SectionKeys) -> (r:
        Result<TransferValidated, Error>)
        requires
            old(self).wf(),
        ensures
            final(self).wf(),
            final(self).index == old(self).index,
            st.actor_sig.key != keys.current.public_key ==> r == Err::<
                TransferValidated,
                Error,
            >(Error::StaleSectionKey) && *final(self) == *old(self),
            st.actor_sig.key == keys.current.public_key && st.transfer.from
                != keys.current.public_key ==> r == Err::<TransferValidated, Error>(
                Error::InvalidSignature,
            ) && *final(self) == *old(self),
            st.actor_sig.key == keys.current.public_key && st.transfer.from
                == keys.current.public_key ==> ({
                let owner_st = SignedTransfer {
                    transfer: st.transfer,
                    sig: Signature { signer: st.transfer.from },
                };
                &&& (r is Ok <==> spec_validate_ok(old(self).events@, owner_st))
                &&& (r matches Ok(v) ==> v == (TransferValidated {
                    signed_transfer: owner_st,
                    replica_sig: SignatureShare {
                        signer_index: old(self).index,
                        key: keys.current.public_key,
                    },
                }))
                &&& (r matches Err(e) ==> e == spec_validate_err(old(self).events@, owner_st)
                    && final(self).events@ == old(self).events@)
            }),
            forall|k: PublicKey| #[trigger]
                final(self).spec_history(k) == old(self).spec_history(k),
    {
        if st.actor_sig.key != keys.current.public_key {
            return Err(Error::StaleSectionKey);
        }
        if st.transfer.from != keys.current.public_key {
            return Err(Error::InvalidSignature);
        }
        let owner_st = SignedTransfer {
            transfer: st.transfer,
            sig: Signature { signer: st.transfer.from },
        };
        self.validate(&owner_st, keys)
    }

    /// Commit a quorum-agreed debit. A proof under a key no longer accepted
    /// is rejected as stale; a proof already committed is a harmless
    /// repeat; otherwise the slot and balance checks decide, and on success
    /// the debit is applied and logged.
    pub fn register(&mut self, proof: &TransferAgreementProof, keys: &SectionKeys, now: u64) -> (r:
        Result<ReplicaEvent, Error>)
        requires
            old(self).wf(),
            spec_register_ok(old(self).events@, *proof, *keys, now) && !spec_already_registered(
                old(self).events@,
                *proof,
            ) && proof.signed_transfer.transfer.from != proof.signed_transfer.transfer.to
                ==> replay_balance(old(self).events@, proof.signed_transfer.transfer.to)
                + proof.signed_transfer.transfer.amount <= u64::MAX,
        ensures
            final(self).wf(),
            final(self).index == old(self).index,
            r is Ok <==> spec_register_ok(old(self).events@, *proof, *keys, now),
            r matches Ok(e) ==> e == ReplicaEvent::Registered(*proof),
            final(self).events@ == if spec_register_ok(old(self).events@, *proof, *keys, now)
                && !spec_already_registered(old(self).events@, *proof) {
                old(self).events@.push(ReplicaEvent::Registered(*proof))
            } else {
                old(self).events@
            },
            r matches Err(e) ==> e == spec_register_err(old(self).events@, *proof, *keys, now),
    {
        let t = proof.signed_transfer.transfer;
        if !keys.accepts_key(proof.section_sig.key, now) {
            return Err(Error::StaleSectionKey);
        }
        if proof.signed_transfer.sig.signer != t.from {
            return Err(Error::InvalidSignature);
        }
        proof {
            assert(self.ledger.spec_history(t.from) == replay_history(self.events@, t.from));
        }
        let entry = AgreementProof::Transfer(*proof);
        if self.ledger.contains_entry(t.from, &entry) {
            return Ok(ReplicaEvent::Registered(*proof));
        }
        let next = self.ledger.next_seq(t.from);
        if t.seq != next {
            return Err(Error::SequenceConflict);
        }
        let bal = self.ledger.balance(t.from);
        if t.amount > bal {
            return Err(Error::InsufficientBalance);
        }
        proof {
            assert(self.ledger.spec_history(t.to) == replay_history(self.events@, t.to));
        }
        let ghost log0 = self.events@;
        self.ledger.apply_transfer(proof);
        self.events.push(ReplicaEvent::Registered(*proof));
        proof {
            let e = ReplicaEvent::Registered(*proof);
            assert(self.events@.drop_last() =~= log0);
            lemma_replay_push(log0, e);
            assert forall|k: PublicKey| #[trigger] self.ledger.spec_history(k) == replay_history(
                self.events@,
                k,
            ) by {
                if k == t.from || k == t.to {
                    assert(replay_history(log0, k) + seq![entry] =~= replay_history(
                        log0,
                        k,
                    ).push(entry));
                } else {
                    assert(replay_history(log0, k) + Seq::<AgreementProof>::empty()
                        =~= replay_history(log0, k));
                }
            }
        }
        Ok(ReplicaEvent::Registered(*proof))
    }

    /// Apply a credit agreed by another section. A proof under a key no
    /// longer accepted is rejected as stale; otherwise it always succeeds,
    /// and a credit id seen before makes the call a harmless repeat.
    pub fn propagate(&mut self, proof: &CreditAgreementProof, keys: &SectionKeys, now: u64) -> (r:
        Result<ReplicaEvent, Error>)
        requires
            old(self).wf(),
            keys.accepts(proof.section_sig.key, now) && !has_credit_id(
                replay_history(old(self).events@, proof.credit.recipient),
                proof.credit.id,
            ) ==> replay_balance(old(self).events@, proof.credit.recipient) + proof.credit.amount
                <= u64::MAX,
        ensures
            final(self).wf(),
            final(self).index == old(self).index,
            r is Ok <==> keys.accepts(proof.section_sig.key, now),
            r matches Ok(e) ==> e == ReplicaEvent::Propagated(*proof),
            final(self).events@ == if keys.accepts(proof.section_sig.key, now) && !has_credit_id(
                replay_history(old(self).events@, proof.credit.recipient),
                proof.credit.id,
            ) {
                old(self).events@.push(ReplicaEvent::Propagated(*proof))
            } else {
                old(self).events@
            },
            r matches Err(e) ==> e == Error::StaleSectionKey,
    {
        let rec = proof.credit.recipient;
        if !keys.accepts_key(proof.section_sig.key, now) {
            return Err(Error::StaleSectionKey);
        }
        proof {
            assert(self.ledger.spec_history(rec) == replay_history(self.events@, rec));
        }
        if self.ledger.has_credit_with_id(rec, proof.credit.id) {
            return Ok(ReplicaEvent::Propagated(*proof));
        }
        let ghost log0 = self.events@;
        let entry = AgreementProof::Credit(*proof);
        self.ledger.apply_credit(proof);
        self.events.push(ReplicaEvent::Propagated(*proof));
        proof {
            let e = ReplicaEvent::Propagated(*proof);
            assert(self.events@.drop_last() =~= log0);
            lemma_replay_push(log0, e);
            assert forall|k: PublicKey| #[trigger] self.ledger.spec_history(k) == replay_history(
                self.events@,
                k,
            ) by {
                if k == rec {
                    assert(replay_history(log0, k) + seq![entry] =~= replay_history(
                        log0,
                        k,
                    ).push(entry));
                } else {
                    assert(replay_history(log0, k) + Seq::<AgreementProof>::empty()
                        =~= replay_history(log0, k));
                }
            }
        }
        Ok(ReplicaEvent::Propagated(*proof))
    }

    /// A fresh replica with an empty log.
    pub fn new(index: u64) -> (r: Replica)
        ensures
            r.wf(),
            r.index == index,
            r.events@ == Seq::<ReplicaEvent>::empty(),
    {
        let r = Replica { index, events: Vec::new(), ledger: TransferLedger::new() };
        proof {
            assert(forall|k: PublicKey| #[trigger]
                replay_history(r.events@, k) == Seq::<AgreementProof>::empty());
        }
        r
    }

    /// Bootstrap a replica from a peer's event log, replaying it from
    /// genesis. A log an honest peer produced replays cleanly; anything
    /// else is a protocol violation upstream, answered with divergence so
    /// the caller resynchronizes wholesale instead of repairing locally.
    pub fn initiate(index: u64, events: &Vec<ReplicaEvent>) -> (r: Result<Replica, Error>)
        ensures
            r is Ok <==> valid_log(events@),
            r matches Ok(rep) ==> rep.wf() && rep.index == index && rep.events@ == events@,
            r matches Err(e) ==> e == Error::LedgerDivergence,
    {
        let mut rep = Replica::new(index);
        let n = events.len();
        let mut j: usize = 0;
        while j < n
            invariant
                j <= n,
                n == events@.len(),
                rep.wf(),
                rep.index == index,
                rep.events@ == events@.take(j as int),
                valid_log(events@.take(j as int)),
            decreases n - j,
        {
            let e = events[j];
            let ghost log0 = events@.take(j as int);
            let ghost log1 = events@.take(j as int + 1);
            proof {
                assert(log1.drop_last() =~= log0);
                assert(log1.last() == events@[j as int]);
            }
            match e {
                ReplicaEvent::Validated(_) => {
                    rep.events.push(e);
                    proof {
                        assert(rep.events@ =~= log1);
                        lemma_replay_push(log0, e);
                        assert forall|k: PublicKey| #[trigger] rep.ledger.spec_history(k)
                            == replay_history(rep.events@, k) by {
                            assert(replay_history(log0, k) + Seq::<AgreementProof>::empty()
                                =~= replay_history(log0, k));
                        }
                    }
                },
                ReplicaEvent::Registered(p) => {
                    let t = p.signed_transfer.transfer;
                    proof {
                        assert(rep.ledger.spec_history(t.from) == replay_history(log0, t.from));
                        assert(rep.ledger.spec_history(t.to) == replay_history(log0, t.to));
                    }
                    if p.signed_transfer.sig.signer != t.from {
                        proof {
                            lemma_initiate_divergence(events@, j as int);
                        }
                        return Err(Error::LedgerDivergence);
                    }
                    let next = rep.ledger.next_seq(t.from);
                    if t.seq != next {
                        proof {
                            lemma_initiate_divergence(events@, j as int);
                        }
                        return Err(Error::LedgerDivergence);
                    }
                    let bal = rep.ledger.balance(t.from);
                    if t.amount > bal {
                        proof {
                            lemma_initiate_divergence(events@, j as int);
                        }
                        return Err(Error::LedgerDivergence);
                    }
                    if t.from != t.to {
                        let bal_to = rep.ledger.balance(t.to);
                        if bal_to > u64::MAX - t.amount {
                            proof {
                                lemma_initiate_divergence(events@, j as int);
                            }
                            return Err(Error::LedgerDivergence);
                        }
                    }
                    let entry = AgreementProof::Transfer(p);
                    rep.ledger.apply_transfer(&p);
                    rep.events.push(e);
                    proof {
                        assert(rep.events@ =~= log1);
                        lemma_replay_push(log0, e);
                        assert forall|k: PublicKey| #[trigger] rep.ledger.spec_history(k)
                            == replay_history(rep.events@, k) by {
                            if k == t.from || k == t.to {
                                assert(replay_history(log0, k) + seq![entry] =~= replay_history(
                                    log0,
                                    k,
                                ).push(entry));
                            } else {
                                assert(replay_history(log0, k) + Seq::<AgreementProof>::empty()
                                    =~= replay_history(log0, k));
                            }
                        }
                    }
                },
                ReplicaEvent::Propagated(c) => {
                    let rec = c.credit.recipient;
                    proof {
                        assert(rep.ledger.spec_history(rec) == replay_history(log0, rec));
                    }
                    if rep.ledger.has_credit_with_id(rec, c.credit.id) {
                        proof {
                            lemma_initiate_divergence(events@, j as int);
                        }
                        return Err(Error::LedgerDivergence);
                    }
                    let bal = rep.ledger.balance(rec);
                    if bal > u64::MAX - c.credit.amount {
                        proof {
                            lemma_initiate_divergence(events@, j as int);
                        }
                        return Err(Error::LedgerDivergence);
                    }
                    let entry = AgreementProof::Credit(c);
                    rep.ledger.apply_credit(&c);
                    rep.events.push(e);
                    proof {
                        assert(rep.events@ =~= log1);
                        lemma_replay_push(log0, e);
                        assert forall|k: PublicKey| #[trigger] rep.ledger.spec_history(k)
                            == replay_history(rep.events@, k) by {
                            if k == rec {
                                assert(replay_history(log0, k) + seq![entry] =~= replay_history(
                                    log0,
                                    k,
                                ).push(entry));
                            } else {
                                assert(replay_history(log0, k) + Seq::<AgreementProof>::empty()
                                    =~= replay_history(log0, k));
                            }
                        }
                    }
                },
            }
            j += 1;
        }
        proof {
            assert(events@.take(n as int) =~= events@);
        }
        Ok(rep)
    }
}

/// Replaying a valid log yields a well-formed history for every account.
pub proof fn lemma_valid_log_wf(log: Seq<ReplicaEvent>, k: PublicKey)
    requires
        valid_log(log),
    ensures
        crate::ledger::wf_history(replay_history(log, k), k),
    decreases log.len(),
{
    if log.len() > 0 {
        let prev = log.drop_last();
        let e = log.last();
        lemma_valid_log_wf(prev, k);
        let h = replay_history(prev, k);
        match e {
            ReplicaEvent::Validated(_) => {
                assert(replay_history(log, k) =~= h);
            },
            ReplicaEvent::Registered(p) => {
                let t = p.signed_transfer.transfer;
                if t.from == k || t.to == k {
                    let entry = AgreementProof::Transfer(p);
                    assert(replay_history(log, k) =~= h.push(entry));
                    assert(h.push(entry).drop_last() =~= h);
                    lemma_balance_in_bounds(h, k);
                } else {
                    assert(replay_history(log, k) =~= h);
                }
            },
            ReplicaEvent::Propagated(c) => {
                if c.credit.recipient == k {
                    let entry = AgreementProof::Credit(c);
                    assert(replay_history(log, k) =~= h.push(entry));
                    assert(h.push(entry).drop_last() =~= h);
                    lemma_balance_in_bounds(h, k);
                } else {
                    assert(replay_history(log, k) =~= h);
                }
            },
        }
    }
}

/// Law of double-spend exclusion at the ledger: of two different
/// quorum-agreed transfers claiming one sender and one sequence slot, at
/// most one is ever committed. Once the first stands registered, submitting
/// the second is deterministically rejected with a sequence conflict,
/// whatever keys and time it arrives under, as long as its key and
/// signature would otherwise pass.
pub proof fn lemma_conflicting_registration_rejected(
    log: Seq<ReplicaEvent>,
    p1: TransferAgreementProof,
    p2: TransferAgreementProof,
    keys1: SectionKeys,
    now1: u64,
    keys2: SectionKeys,
    now2: u64,
)
    requires
        valid_log(log),
        spec_register_ok(log, p1, keys1, now1),
        !spec_already_registered(log, p1),
        p2.signed_transfer.transfer.from == p1.signed_transfer.transfer.from,
        p2.signed_transfer.transfer.seq == p1.signed_transfer.transfer.seq,
        p2 != p1,
        keys2.accepts(p2.section_sig.key, now2),
        sender_sig_ok(p2.signed_transfer),
    ensures
        !spec_register_ok(log.push(ReplicaEvent::Registered(p1)), p2, keys2, now2),
        spec_register_err(log.push(ReplicaEvent::Registered(p1)), p2, keys2, now2)
            == Error::SequenceConflict,
{
    let from = p1.signed_transfer.transfer.from;
    let log2 = log.push(ReplicaEvent::Registered(p1));
    lemma_replay_push(log, ReplicaEvent::Registered(p1));
    let h = replay_history(log, from);
    let h2 = replay_history(log2, from);
    let e1 = AgreementProof::Transfer(p1);
    let e2 = AgreementProof::Transfer(p2);
    assert(h2 =~= h.push(e1));
    assert(h2.drop_last() =~= h);
    assert(debit_count(h2, from) == debit_count(h, from) + 1);
    assert(!spec_already_registered(log2, p2)) by {
        if has_entry(h2, e2) {
            let i = choose|i: int| 0 <= i < h2.len() && h2[i] == e2;
            assert(i < h.len());
            assert(h[i] == e2);
            assert(has_entry(h, e2));
            lemma_valid_log_wf(log, from);
            lemma_debit_seq_bound(h, from, e2);
        }
    }
}

/// Law of double-spend exclusion at the validator: a replica that endorsed
/// one transfer for a sender's sequence slot rejects any different
/// transfer for the same slot with a sequence conflict — no honest replica
/// ever endorses both of two conflicting transfers.
pub proof fn lemma_conflicting_validation_rejected(
    log: Seq<ReplicaEvent>,
    v: TransferValidated,
    st2: SignedTransfer,
)
    requires
        st2.transfer.from == v.signed_transfer.transfer.from,
        st2.transfer.seq == v.signed_transfer.transfer.seq,
        st2 != v.signed_transfer,
        sender_sig_ok(st2),
    ensures
        !spec_validate_ok(log.push(ReplicaEvent::Validated(v)), st2),
        spec_validate_err(log.push(ReplicaEvent::Validated(v)), st2) == Error::SequenceConflict,
{
    let log2 = log.push(ReplicaEvent::Validated(v));
    assert(log2[log.len() as int] matches ReplicaEvent::Validated(v2) && v2.signed_transfer
        == v.signed_transfer);
    assert(has_conflicting_validation(log2, st2));
}

/// A log whose event at position `j` does not follow validly from what
/// precedes it is not a valid log.
pub proof fn lemma_initiate_divergence(log: Seq<ReplicaEvent>, j: int)
    requires
        0 <= j < log.len(),
        !valid_event(log.take(j), log[j]),
    ensures
        !valid_log(log),
{
    if valid_log(log) {
        lemma_valid_log_take(log, j + 1);
        assert(log.take(j + 1).drop_last() =~= log.take(j));
        assert(log.take(j + 1).last() == log[j]);
    }
}

} // verus!

