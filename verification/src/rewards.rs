//! Reward accounting for the section's nodes: each node's reward stage and
//! wallet binding, kept by the Elders. The lifecycle only ever moves
//! forward — awaiting activation, active with a bound wallet, deactivated —
//! and a payout, permitted only for an active node of sufficient age, is an
//! ordinary credit submitted through the same transfer path as any other
//! money.

use vstd::prelude::*;

use crate::types::{Credit, Error, NodeId, PublicKey, Token};

verus! {

/// Youngest age at which a node's work is rewarded with payouts.
pub const MIN_REWARD_AGE: u8 = 5;

/// A node's reward stage. A node is only ever `Active` together with a
/// bound wallet key, and deactivation is terminal.
#[derive(Clone, Copy, PartialEq, Eq, Structural, Debug)]
pub enum NodeRewardStage {
    /// Tracked, but its reward wallet is not yet bound.
    AwaitingActivation,
    /// Earning rewards, paid out to the bound wallet.
    Active { wallet: PublicKey },
    /// Departed; dropped from all future payout rounds.
    Deactivated,
}

/// How far along the one-way lifecycle a stage lies.
pub open spec fn stage_rank(s: NodeRewardStage) -> int {
    match s {
        NodeRewardStage::AwaitingActivation => 0,
        NodeRewardStage::Active { .. } => 1,
        NodeRewardStage::Deactivated => 2,
    }
}

/// What the reward ledger knows of one node.
#[derive(Clone, Copy, PartialEq, Eq, Structural, Debug)]
pub struct NodeRecord {
    pub id: NodeId,
    /// The node's age; gates payout eligibility.
    pub age: u8,
    pub stage: NodeRewardStage,
}

/// Whether some record among `ns` belongs to node `id`.
pub open spec fn has_node(ns: Seq<NodeRecord>, id: NodeId) -> bool {
    exists|i: int| 0 <= i < ns.len() && (#[trigger] ns[i]).id == id
}

/// Index of node `id`'s record among `ns`.
pub open spec fn node_index(ns: Seq<NodeRecord>, id: NodeId) -> int {
    choose|i: int| 0 <= i < ns.len() && (#[trigger] ns[i]).id == id
}

/// No two records among `ns` share a node id.
pub open spec fn unique_nodes(ns: Seq<NodeRecord>) -> bool {
    forall|i: int, j: int|
        0 <= i < j < ns.len() ==> (#[trigger] ns[i]).id != (#[trigger] ns[j]).id
}

/// With unique ids, any index holding `id`'s record is the index the
/// specification functions name.
pub proof fn lemma_node_at(ns: Seq<NodeRecord>, id: NodeId, i: int)
    requires
        unique_nodes(ns),
        0 <= i < ns.len(),
        ns[i].id == id,
    ensures
        has_node(ns, id),
        node_index(ns, id) == i,
{
    assert(has_node(ns, id));
    let j = node_index(ns, id);
    if i < j {
        assert(ns[i].id != ns[j].id);
    } else if j < i {
        assert(ns[j].id != ns[i].id);
    }
}

/// The per-node reward stages and wallet bindings of one section.
pub struct RewardLedger {
    pub nodes: Vec<NodeRecord>,
}

impl RewardLedger {
    /// Well-formedness: one record per node.
    pub open spec fn wf(self) -> bool {
        unique_nodes(self.nodes@)
    }

    /// The stage held for node `id`, if it is tracked.
    pub open spec fn spec_stage(self, id: NodeId) -> Option<NodeRewardStage> {
        if has_node(self.nodes@, id) {
            Some(self.nodes@[node_index(self.nodes@, id)].stage)
        } else {
            None
        }
    }

    /// An empty reward ledger.
    pub fn new() -> (r: RewardLedger)
        ensures
            r.wf(),
            r.nodes@.len() == 0,
    {
        RewardLedger { nodes: Vec::new() }
    }

    /// Index of node `id`'s record, if any.
    fn find_node(&self, id: NodeId) -> (r: Option<usize>)
        ensures
            match r {
                Some(i) => i < self.nodes@.len() && self.nodes@[i as int].id == id,
                None => !has_node(self.nodes@, id),
            },
    {
        let n = self.nodes.len();
        let mut i: usize = 0;
        while i < n
            invariant
                i <= n,
                n == self.nodes@.len(),
                forall|j: int| 0 <= j < i ==> (#[trigger] self.nodes@[j]).id != id,
            decreases n - i,
        {
            if self.nodes[i].id == id {
                return Some(i);
            }
            i += 1;
        }
        None
    }

    /// Start tracking a new node, awaiting activation. A node already
    /// tracked is a harmless repeat.
    pub fn add_node(&mut self, id: NodeId, age: u8)
        requires
            old(self).wf(),
        ensures
            final(self).wf(),
            if has_node(old(self).nodes@, id) {
                final(self).nodes@ == old(self).nodes@
            } else {
                final(self).nodes@ == old(self).nodes@.push(
                    NodeRecord { id, age, stage: NodeRewardStage::AwaitingActivation },
                )
            },
    {
        match self.find_node(id) {
            Some(i) => {
                proof {
                    lemma_node_at(self.nodes@, id, i as int);
                }
            },
            None => {
                self.nodes.push(NodeRecord { id, age, stage: NodeRewardStage::AwaitingActivation });
            },
        }
    }

    /// Bind (or rotate) the wallet rewards are paid to, making the node
    /// active. Never undoes deactivation, and never moves the lifecycle
    /// backwards.
    pub fn set_wallet(&mut self, id: NodeId, wallet: PublicKey) -> (r: Result<(), Error>)
        requires
            old(self).wf(),
        ensures
            final(self).wf(),
            r is Ok <==> has_node(old(self).nodes@, id) && !(old(self).spec_stage(id)
                == Some(NodeRewardStage::Deactivated)),
            match r {
                Ok(_) => ({
                    let i = node_index(old(self).nodes@, id);
                    &&& final(self).nodes@.len() == old(self).nodes@.len()
                    &&& final(self).nodes@[i] == (NodeRecord {
                        id,
                        age: old(self).nodes@[i].age,
                        stage: NodeRewardStage::Active { wallet },
                    })
                    &&& (forall|j: int|
                        0 <= j < old(self).nodes@.len() && j != i ==> final(self).nodes@[j] == old(
                            self,
                        ).nodes@[j])
                    &&& stage_rank(final(self).nodes@[i].stage) >= stage_rank(
                        old(self).nodes@[i].stage,
                    )
                }),
                Err(e) => *final(self) == *old(self) && e == (
                if !has_node(old(self).nodes@, id) {
                    Error::UnknownAccount
                } else {
                    Error::RewardStageViolation
                }),
            },
    {
        let i = match self.find_node(id) {
            Some(i) => i,
            None => {
                return Err(Error::UnknownAccount);
            },
        };
        proof {
            lemma_node_at(self.nodes@, id, i as int);
        }
        match self.nodes[i].stage {
            NodeRewardStage::Deactivated => Err(Error::RewardStageViolation),
            _ => {
                let ghost ns0 = self.nodes@;
                let rec = &mut self.nodes[i];
                rec.stage = NodeRewardStage::Active { wallet };
                proof {
                    assert(forall|m: int|
                        0 <= m < ns0.len() ==> (#[trigger] self.nodes@[m]).id == ns0[m].id);
                }
                Ok(())
            },
        }
    }

    /// Preserve a relocated node's reward eligibility: the record moves to
    /// the node's new id, carrying its stage and its new age. Relocating a
    /// deactivated node, or onto an id already tracked, is refused.
    pub fn relocate(&mut self, old_id: NodeId, new_id: NodeId, age: u8) -> (r: Result<(), Error>)
        requires
            old(self).wf(),
        ensures
            final(self).wf(),
            r is Ok <==> has_node(old(self).nodes@, old_id) && !(old(self).spec_stage(old_id)
                == Some(NodeRewardStage::Deactivated)) && !has_node(old(self).nodes@, new_id),
            match r {
                Ok(_) => final(self).nodes@ == old(self).nodes@.remove(
                    node_index(old(self).nodes@, old_id),
                ).push(
                    NodeRecord {
                        id: new_id,
                        age,
                        stage: old(self).nodes@[node_index(old(self).nodes@, old_id)].stage,
                    },
                ),
                Err(e) => *final(self) == *old(self) && e == (
                if !has_node(old(self).nodes@, old_id) {
                    Error::UnknownAccount
                } else {
                    Error::RewardStageViolation
                }),
            },
    {
        let i = match self.find_node(old_id) {
            Some(i) => i,
            None => {
                return Err(Error::UnknownAccount);
            },
        };
        proof {
            lemma_node_at(self.nodes@, old_id, i as int);
        }
        match self.nodes[i].stage {
            NodeRewardStage::Deactivated => {
                return Err(Error::RewardStageViolation);
            },
            _ => {},
        }
        if let Some(_) = self.find_node(new_id) {
            return Err(Error::RewardStageViolation);
        }
        let ghost ns0 = self.nodes@;
        let moved = self.nodes.remove(i);
        proof {
            assert forall|a: int, b: int| 0 <= a < b < self.nodes@.len() implies (
            #[trigger] self.nodes@[a]).id != (#[trigger] self.nodes@[b]).id by {
                let a2 = if a < i as int {
                    a
                } else {
                    a + 1
                };
                let b2 = if b < i as int {
                    b
                } else {
                    b + 1
                };
                assert(self.nodes@[a] == ns0[a2]);
                assert(self.nodes@[b] == ns0[b2]);
            }
            assert forall|a: int| 0 <= a < self.nodes@.len() implies (
            #[trigger] self.nodes@[a]).id != new_id by {
                let a2 = if a < i as int {
                    a
                } else {
                    a + 1
                };
                assert(self.nodes@[a] == ns0[a2]);
            }
        }
        self.nodes.push(NodeRecord { id: new_id, age, stage: moved.stage });
        Ok(())
    }

    /// Mark a departed node deactivated: terminal, and a harmless repeat
    /// when already deactivated.
    pub fn deactivate(&mut self, id: NodeId) -> (r: Result<(), Error>)
        requires
            old(self).wf(),
        ensures
            final(self).wf(),
            r is Ok <==> has_node(old(self).nodes@, id),
            match r {
                Ok(_) => ({
                    let i = node_index(old(self).nodes@, id);
                    &&& final(self).nodes@.len() == old(self).nodes@.len()
                    &&& final(self).nodes@[i] == (NodeRecord {
                        id,
                        age: old(self).nodes@[i].age,
                        stage: NodeRewardStage::Deactivated,
                    })
                    &&& (forall|j: int|
                        0 <= j < old(self).nodes@.len() && j != i ==> final(self).nodes@[j] == old(
                            self,
                        ).nodes@[j])
                    &&& stage_rank(final(self).nodes@[i].stage) >= stage_rank(
                        old(self).nodes@[i].stage,
                    )
                }),
                Err(e) => *final(self) == *old(self) && e == Error::UnknownAccount,
            },
    {
        let i = match self.find_node(id) {
            Some(i) => i,
            None => {
                return Err(Error::UnknownAccount);
            },
        };
        proof {
            lemma_node_at(self.nodes@, id, i as int);
        }
        let ghost ns0 = self.nodes@;
        let rec = &mut self.nodes[i];
        rec.stage = NodeRewardStage::Deactivated;
        proof {
            assert(forall|m: int|
                0 <= m < ns0.len() ==> (#[trigger] self.nodes@[m]).id == ns0[m].id);
        }
        Ok(())
    }

    /// Build the payout credit for a node's accrued rewards, to be
    /// submitted through the section actor like any other transfer. Only
    /// an active node of sufficient age is paid; in particular a
    /// deactivated node is always refused, and nothing changes — this
    /// ledger is not touched and no credit exists.
    pub fn issue_payout(&self, id: NodeId, amount: Token, payout_id: u64) -> (r: Result<
        Credit,
        Error,
    >)
        requires
            self.wf(),
        ensures
            r is Ok <==> (has_node(self.nodes@, id) && ({
                let rec = self.nodes@[node_index(self.nodes@, id)];
                rec.stage matches NodeRewardStage::Active { .. } && rec.age >= MIN_REWARD_AGE
            })),
            match r {
                Ok(c) => c == (Credit {
                    id: payout_id,
                    recipient: self.nodes@[node_index(self.nodes@, id)].stage->wallet,
                    amount,
                }),
                Err(e) => e == if !has_node(self.nodes@, id) {
                    Error::UnknownAccount
                } else {
                    Error::RewardStageViolation
                },
            },
    {
        let i = match self.find_node(id) {
            Some(i) => i,
            None => {
                return Err(Error::UnknownAccount);
            },
        };
        proof {
            lemma_node_at(self.nodes@, id, i as int);
        }
        let rec = &self.nodes[i];
        match rec.stage {
            NodeRewardStage::Active { wallet } => {
                if rec.age >= MIN_REWARD_AGE {
                    Ok(Credit { id: payout_id, recipient: wallet, amount })
                } else {
                    Err(Error::RewardStageViolation)
                }
            },
            _ => Err(Error::RewardStageViolation),
        }
    }
}

} // verus!
