use sn_node::actor::{accumulate_genesis, SectionActor};
use sn_node::churn::ChurnCoordinator;
use sn_node::replica::Replica;
use sn_node::rewards::{NodeRewardStage, RewardLedger, MIN_REWARD_AGE};
use sn_node::types::{
    Credit, Error, PublicKeySet, SectionKeys, SignatureShare, SignedTransferShare, Transfer,
};

#[test]
fn lifecycle_and_payout() {
    let mut rewards = RewardLedger::new();
    rewards.add_node(1, 8);
    // not yet active: no payout
    assert_eq!(rewards.issue_payout(1, 100, 500), Err(Error::RewardStageViolation));
    rewards.set_wallet(1, 77).unwrap();
    let credit = rewards.issue_payout(1, 100, 500).unwrap();
    assert_eq!(credit, Credit { id: 500, recipient: 77, amount: 100 });
}

#[test]
fn wallet_rotation_is_allowed() {
    let mut rewards = RewardLedger::new();
    rewards.add_node(1, 8);
    rewards.set_wallet(1, 77).unwrap();
    rewards.set_wallet(1, 88).unwrap();
    let credit = rewards.issue_payout(1, 5, 501).unwrap();
    assert_eq!(credit.recipient, 88);
}

#[test]
fn deactivated_node_is_never_paid() {
    // A payout to a deactivated node always fails, and changes nothing.
    let mut rewards = RewardLedger::new();
    rewards.add_node(1, 8);
    rewards.set_wallet(1, 77).unwrap();
    rewards.deactivate(1).unwrap();
    assert_eq!(rewards.issue_payout(1, 100, 500), Err(Error::RewardStageViolation));
    assert_eq!(rewards.issue_payout(1, 1, 501), Err(Error::RewardStageViolation));
    // deactivation is terminal: the wallet cannot be re-bound
    assert_eq!(rewards.set_wallet(1, 99), Err(Error::RewardStageViolation));
}

#[test]
fn unknown_node_errors() {
    let mut rewards = RewardLedger::new();
    assert_eq!(rewards.issue_payout(1, 100, 500), Err(Error::UnknownAccount));
    assert_eq!(rewards.set_wallet(1, 77), Err(Error::UnknownAccount));
    assert_eq!(rewards.deactivate(1), Err(Error::UnknownAccount));
    assert_eq!(rewards.relocate(1, 2, 9), Err(Error::UnknownAccount));
}

#[test]
fn underage_node_is_not_paid() {
    let mut rewards = RewardLedger::new();
    rewards.add_node(1, MIN_REWARD_AGE - 1);
    rewards.set_wallet(1, 77).unwrap();
    assert_eq!(rewards.issue_payout(1, 100, 500), Err(Error::RewardStageViolation));
}

#[test]
fn relocation_preserves_eligibility() {
    let mut rewards = RewardLedger::new();
    rewards.add_node(1, 8);
    rewards.set_wallet(1, 77).unwrap();
    rewards.relocate(1, 2, 9).unwrap();
    // the old id is gone, the new one inherits the active stage
    assert_eq!(rewards.issue_payout(1, 100, 500), Err(Error::UnknownAccount));
    let credit = rewards.issue_payout(2, 100, 500).unwrap();
    assert_eq!(credit.recipient, 77);
}

#[test]
fn relocation_of_deactivated_or_onto_taken_id_is_refused() {
    let mut rewards = RewardLedger::new();
    rewards.add_node(1, 8);
    rewards.add_node(2, 8);
    assert_eq!(rewards.relocate(1, 2, 9), Err(Error::RewardStageViolation));
    rewards.deactivate(1).unwrap();
    assert_eq!(rewards.relocate(1, 3, 9), Err(Error::RewardStageViolation));
}

#[test]
fn payout_flows_through_the_transfer_path() {
    // A reward payout is an ordinary transfer of the section-owned
    // wallet: issued by the reward ledger, endorsed as a section payout,
    // aggregated, and registered like any other debit.
    let keys = SectionKeys {
        current: PublicKeySet { public_key: 100, threshold: 1 },
        previous: None,
    };
    let churn = ChurnCoordinator::new(keys.current, 10);
    // the section wallet (owned by the section key) holds the reward pot
    let pot = Credit { id: 9000, recipient: 100, amount: 1000 };
    let shares = vec![SignatureShare { signer_index: 0, key: 100 }];
    let pot_proof = accumulate_genesis(&pot, &shares, &keys).unwrap().unwrap();
    let mut replica = Replica::new(0);
    replica.propagate(&pot_proof, &keys, 0).unwrap();

    let mut rewards = RewardLedger::new();
    rewards.add_node(7, 8);
    rewards.set_wallet(7, 55).unwrap();
    let credit = rewards.issue_payout(7, 200, 4242).unwrap();

    let share = SignedTransferShare {
        transfer: Transfer {
            id: credit.id,
            from: 100,
            to: credit.recipient,
            amount: credit.amount,
            seq: 0,
        },
        actor_sig: SignatureShare { signer_index: 0, key: 100 },
    };
    let mut actor = SectionActor::new();
    let v = replica.validate_section_payout(&share, &keys).unwrap();
    let proof = actor.receive_validation(&v, &churn).unwrap().unwrap();
    replica.register(&proof, &keys, 0).unwrap();
    assert_eq!(replica.ledger.balance(100), 800);
    assert_eq!(replica.ledger.balance(55), 200);
}

#[test]
fn section_payout_share_checks() {
    let keys = SectionKeys {
        current: PublicKeySet { public_key: 100, threshold: 1 },
        previous: None,
    };
    let mut replica = Replica::new(0);
    let share = SignedTransferShare {
        transfer: Transfer { id: 1, from: 100, to: 55, amount: 10, seq: 0 },
        actor_sig: SignatureShare { signer_index: 0, key: 999 },
    };
    assert_eq!(replica.validate_section_payout(&share, &keys), Err(Error::StaleSectionKey));
    let not_section = SignedTransferShare {
        transfer: Transfer { id: 1, from: 42, to: 55, amount: 10, seq: 0 },
        actor_sig: SignatureShare { signer_index: 0, key: 100 },
    };
    assert_eq!(
        replica.validate_section_payout(&not_section, &keys),
        Err(Error::InvalidSignature)
    );
}

#[test]
fn add_node_is_idempotent() {
    let mut rewards = RewardLedger::new();
    rewards.add_node(1, 8);
    rewards.set_wallet(1, 77).unwrap();
    // adding the same node again does not reset its stage
    rewards.add_node(1, 8);
    assert!(matches!(
        rewards.issue_payout(1, 10, 500),
        Ok(Credit { recipient: 77, .. })
    ));
    assert!(matches!(rewards.nodes[0].stage, NodeRewardStage::Active { wallet: 77 }));
}
