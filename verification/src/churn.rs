//! Carrying a section across an elder-set change: the coordinator drives
//! the transition from a stable section, through leveling the node's duties
//! up or down and resynchronizing the wallet history, to a stable section
//! under the new signing key — while proofs signed under the outgoing key
//! stay acceptable until a grace deadline and no longer.

use vstd::prelude::*;

use crate::replica::{
    lemma_replay_push, replay_history, sender_sig_ok, spec_already_registered, spec_register_err,
    spec_register_ok, valid_log, Replica,
};
use crate::types::{
    AgreementProof, Elders, Error, PublicKey, PublicKeySet, ReplicaEvent, RetiredKey, SectionKeys,
    TransferAgreementProof,
};

verus! {

/// Where a node stands while its section's elder set changes.
#[derive(Clone, Copy, PartialEq, Eq, Structural, Debug)]
pub enum ChurnPhase {
    /// No churn under way; proposals are accepted under the current key.
    Stable,
    /// The node was promoted into the new elder set and adjusts its duties.
    LevelingUp,
    /// The node was demoted out of the new elder set and adjusts its duties.
    LevelingDown,
    /// Duties adjusted; awaiting the wallet history before the new key
    /// takes over.
    AwaitingWalletSync,
}

/// Drives the elder-set transition and owns the section keys in force.
/// Every other component receives the keys from here, by explicit
/// parameter — there is no ambient global.
#[derive(Clone, Copy, PartialEq, Eq, Structural, Debug)]
pub struct ChurnCoordinator {
    pub phase: ChurnPhase,
    /// The keys in force: the current set, and the retired key inside its
    /// grace window, if any.
    pub keys: SectionKeys,
    /// How long after a churn begins the outgoing key remains acceptable.
    pub grace_period: u64,
    /// The incoming key set, while a churn is under way.
    pub pending: Option<PublicKeySet>,
    /// The grace deadline set when the current churn began.
    pub deadline: u64,
}

impl ChurnCoordinator {
    /// A coordinator is well formed when its key sets demand at least one
    /// share and it holds an incoming key exactly while churning.
    pub open spec fn wf(self) -> bool {
        &&& self.keys.wf()
        &&& (self.phase is Stable <==> self.pending is None)
        &&& (self.pending matches Some(ks) ==> ks.threshold >= 1)
    }

    /// Whether new proposals are accepted at time `now`: always in a
    /// stable section, and during a churn only until the grace deadline.
    pub open spec fn spec_accepting(self, now: u64) -> bool {
        self.phase is Stable || now <= self.deadline
    }

    /// A coordinator for a stable section under `initial`.
    pub fn new(initial: PublicKeySet, grace_period: u64) -> (c: ChurnCoordinator)
        requires
            initial.threshold >= 1,
        ensures
            c.wf(),
            c.phase is Stable,
            c.keys == (SectionKeys { current: initial, previous: None }),
            c.grace_period == grace_period,
    {
        ChurnCoordinator {
            phase: ChurnPhase::Stable,
            keys: SectionKeys { current: initial, previous: None },
            grace_period,
            pending: None,
            deadline: 0,
        }
    }

    /// Runtime form of [`Self::spec_accepting`].
    pub fn accepting_proposals(&self, now: u64) -> (b: bool)
        ensures
            b == self.spec_accepting(now),
    {
        match self.phase {
            ChurnPhase::Stable => true,
            _ => now <= self.deadline,
        }
    }

    /// An elder-set change was notified: leave the stable phase, remember
    /// the incoming key set, and set the grace deadline after which new
    /// proposals under the outgoing key freeze. Fails while another churn
    /// is still in flight.
    pub fn begin_churn(&mut self, new_elders: &Elders, promoted: bool, now: u64) -> (r: Result<
        (),
        Error,
    >)
        requires
            old(self).wf(),
            new_elders.key_set.threshold >= 1,
        ensures
            final(self).wf(),
            r is Ok <==> old(self).phase is Stable,
            match r {
                Ok(_) => {
                    &&& final(self).phase == if promoted {
                        ChurnPhase::LevelingUp
                    } else {
                        ChurnPhase::LevelingDown
                    }
                    &&& final(self).pending == Some(new_elders.key_set)
                    &&& final(self).deadline == if now + old(self).grace_period <= u64::MAX {
                        (now + old(self).grace_period) as u64
                    } else {
                        u64::MAX
                    }
                    &&& final(self).keys == old(self).keys
                    &&& final(self).grace_period == old(self).grace_period
                },
                Err(e) => e == Error::StaleSectionKey && *final(self) == *old(self),
            },
    {
        match self.phase {
            ChurnPhase::Stable => {},
            _ => {
                return Err(Error::StaleSectionKey);
            },
        }
        self.phase = if promoted {
            ChurnPhase::LevelingUp
        } else {
            ChurnPhase::LevelingDown
        };
        self.pending = Some(new_elders.key_set);
        self.deadline = if now > u64::MAX - self.grace_period {
            u64::MAX
        } else {
            now + self.grace_period
        };
        Ok(())
    }

    /// The incoming elder receives a peer's full event log and replays it,
    /// building a replica whose ledger is identical to the peer's before
    /// the new key becomes authoritative.
    pub fn sync_wallet_history(&mut self, index: u64, events: &Vec<ReplicaEvent>) -> (r: Result<
        Replica,
        Error,
    >)
        requires
            old(self).wf(),
        ensures
            final(self).wf(),
            r is Ok <==> (old(self).phase is LevelingUp || old(self).phase is LevelingDown)
                && valid_log(events@),
            match r {
                Ok(rep) => {
                    &&& rep.wf()
                    &&& rep.index == index
                    &&& rep.events@ == events@
                    &&& final(self).phase is AwaitingWalletSync
                    &&& final(self).keys == old(self).keys
                    &&& final(self).pending == old(self).pending
                    &&& final(self).deadline == old(self).deadline
                    &&& final(self).grace_period == old(self).grace_period
                },
                Err(e) => {
                    &&& *final(self) == *old(self)
                    &&& e == if !(old(self).phase is LevelingUp || old(self).phase
                        is LevelingDown) {
                        Error::StaleSectionKey
                    } else {
                        Error::LedgerDivergence
                    }
                },
            },
    {
        match self.phase {
            ChurnPhase::LevelingUp | ChurnPhase::LevelingDown => {},
            _ => {
                return Err(Error::StaleSectionKey);
            },
        }
        let rep = match Replica::initiate(index, events) {
            Ok(rep) => rep,
            Err(_) => {
                return Err(Error::LedgerDivergence);
            },
        };
        self.phase = ChurnPhase::AwaitingWalletSync;
        Ok(rep)
    }

    /// Publish the new section key: from here on proofs must be signed
    /// under `new_key`, while `previous_key` is honored only until the
    /// grace deadline set when the churn began, then permanently rejected.
    pub fn complete(&mut self, previous_key: PublicKey, new_key: PublicKey) -> (r: Result<
        (),
        Error,
    >)
        requires
            old(self).wf(),
        ensures
            final(self).wf(),
            r is Ok <==> {
                &&& old(self).phase is AwaitingWalletSync
                &&& previous_key == old(self).keys.current.public_key
                &&& old(self).pending matches Some(ks) && ks.public_key == new_key
                &&& new_key != previous_key
            },
            match r {
                Ok(_) => {
                    &&& final(self).phase is Stable
                    &&& final(self).pending is None
                    &&& final(self).keys.current == old(self).pending->0
                    &&& final(self).keys.previous == Some(
                        RetiredKey { key: previous_key, valid_until: old(self).deadline },
                    )
                    &&& final(self).deadline == old(self).deadline
                    &&& final(self).grace_period == old(self).grace_period
                },
                Err(e) => e == Error::StaleSectionKey && *final(self) == *old(self),
            },
    {
        match self.phase {
            ChurnPhase::AwaitingWalletSync => {},
            _ => {
                return Err(Error::StaleSectionKey);
            },
        }
        if previous_key != self.keys.current.public_key {
            return Err(Error::StaleSectionKey);
        }
        let pending = match &self.pending {
            Some(ks) => *ks,
            None => {
                return Err(Error::StaleSectionKey);
            },
        };
        if pending.public_key != new_key || new_key == previous_key {
            return Err(Error::StaleSectionKey);
        }
        self.keys = SectionKeys {
            current: pending,
            previous: Some(RetiredKey { key: previous_key, valid_until: self.deadline }),
        };
        self.pending = None;
        self.phase = ChurnPhase::Stable;
        Ok(())
    }
}

/// Law of the grace window: once the section key has changed hands, a
/// quorum-agreed debit under the outgoing key is accepted until the grace
/// deadline — and applied exactly once, a repeat changing nothing — while
/// submitted after the deadline it is rejected as stale.
pub proof fn lemma_grace_window(
    keys: SectionKeys,
    p: TransferAgreementProof,
    log: Seq<ReplicaEvent>,
    now: u64,
)
    requires
        keys.previous matches Some(rk) && rk.key == p.section_sig.key,
        keys.current.public_key != p.section_sig.key,
        valid_log(log),
        sender_sig_ok(p.signed_transfer),
    ensures
        now > keys.previous->0.valid_until ==> !spec_register_ok(log, p, keys, now)
            && spec_register_err(log, p, keys, now) == Error::StaleSectionKey,
        now <= keys.previous->0.valid_until ==> keys.accepts(p.section_sig.key, now),
        spec_register_ok(log, p, keys, now) && !spec_already_registered(log, p) ==> {
            &&& spec_already_registered(log.push(ReplicaEvent::Registered(p)), p)
            &&& spec_register_ok(log.push(ReplicaEvent::Registered(p)), p, keys, now)
        },
{
    if spec_register_ok(log, p, keys, now) && !spec_already_registered(log, p) {
        let from = p.signed_transfer.transfer.from;
        let log2 = log.push(ReplicaEvent::Registered(p));
        lemma_replay_push(log, ReplicaEvent::Registered(p));
        let h = replay_history(log, from);
        let h2 = replay_history(log2, from);
        assert(h2 =~= h.push(AgreementProof::Transfer(p)));
        assert(h2[h.len() as int] == AgreementProof::Transfer(p));
        assert(crate::ledger::has_entry(h2, AgreementProof::Transfer(p)));
    }
}

} // verus!
