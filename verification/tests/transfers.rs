use sn_node::actor::{accumulate_genesis, SectionActor};
use sn_node::churn::ChurnCoordinator;
use sn_node::ledger::store_cost;
use sn_node::replica::Replica;
use sn_node::types::{
    Credit, Error, PublicKeySet, SectionKeys, Signature, SignatureShare, SignedTransfer, Transfer,
};

fn section_keys(key: u64, threshold: u64) -> SectionKeys {
    SectionKeys { current: PublicKeySet { public_key: key, threshold }, previous: None }
}

fn signed_transfer(id: u64, from: u64, to: u64, amount: u64, seq: u64) -> SignedTransfer {
    SignedTransfer {
        transfer: Transfer { id, from, to, amount, seq },
        sig: Signature { signer: from },
    }
}

fn genesis_replica(index: u64, keys: &SectionKeys, recipient: u64, amount: u64) -> Replica {
    let credit = Credit { id: 9000, recipient, amount };
    let shares = vec![
        SignatureShare { signer_index: 0, key: keys.current.public_key },
        SignatureShare { signer_index: 1, key: keys.current.public_key },
    ];
    let proof = accumulate_genesis(&credit, &shares, keys).unwrap().unwrap();
    let mut replica = Replica::new(index);
    replica.propagate(&proof, keys, 0).unwrap();
    replica
}

#[test]
fn genesis_bootstrap_transfer_and_history() {
    // Genesis section bootstraps with one credit of 1000 to key 1; a
    // quorum-agreed transfer of 300 to key 2 then commits.
    let keys = section_keys(100, 2);
    let churn = ChurnCoordinator::new(keys.current, 10);
    let mut replica = genesis_replica(0, &keys, 1, 1000);
    let mut replica2 = genesis_replica(1, &keys, 1, 1000);
    assert_eq!(replica.ledger.balance(1), 1000);

    let st = signed_transfer(7000, 1, 2, 300, 0);
    let mut actor = SectionActor::new();
    actor.propose(&st, &churn, 0).unwrap();
    let v1 = replica.validate(&st, &keys).unwrap();
    let v2 = replica2.validate(&st, &keys).unwrap();
    assert!(actor.receive_validation(&v1, &churn).unwrap().is_none());
    let proof = actor.receive_validation(&v2, &churn).unwrap().unwrap();

    replica.register(&proof, &keys, 0).unwrap();
    assert_eq!(replica.ledger.balance(1), 700);
    assert_eq!(replica.ledger.balance(2), 300);
    let history = replica.ledger.history(1, 0).unwrap();
    assert_eq!(history.len(), 2);
}

#[test]
fn balance_is_credits_minus_debits() {
    // Two credits and two accepted debits: balance is their exact sum.
    let keys = section_keys(100, 2);
    let churn = ChurnCoordinator::new(keys.current, 10);
    let mut replica = genesis_replica(0, &keys, 1, 400);
    let credit = Credit { id: 9001, recipient: 1, amount: 50 };
    let shares = vec![
        SignatureShare { signer_index: 0, key: 100 },
        SignatureShare { signer_index: 1, key: 100 },
    ];
    let proof = accumulate_genesis(&credit, &shares, &keys).unwrap().unwrap();
    replica.propagate(&proof, &keys, 0).unwrap();
    assert_eq!(replica.ledger.balance(1), 450);

    let mut actor = SectionActor::new();
    for (id, amount, seq) in [(1u64, 100u64, 0u64), (2, 25, 1)] {
        let st = signed_transfer(id, 1, 2, amount, seq);
        actor.propose(&st, &churn, 0).unwrap();
        let v1 = replica.validate(&st, &keys).unwrap();
        // a second elder's endorsement of the same transfer
        let v2 = sn_node::types::TransferValidated {
            signed_transfer: st,
            replica_sig: SignatureShare { signer_index: 9, key: 100 },
        };
        assert!(actor.receive_validation(&v1, &churn).unwrap().is_none());
        let proof_t = actor.receive_validation(&v2, &churn).unwrap().unwrap();
        replica.register(&proof_t, &keys, 0).unwrap();
    }
    // 400 + 50 - 100 - 25
    assert_eq!(replica.ledger.balance(1), 325);
    assert_eq!(replica.ledger.balance(2), 125);
}

#[test]
fn validate_rejects_bad_signature() {
    let keys = section_keys(100, 2);
    let mut replica = genesis_replica(0, &keys, 1, 1000);
    let st = SignedTransfer {
        transfer: Transfer { id: 1, from: 1, to: 2, amount: 10, seq: 0 },
        sig: Signature { signer: 3 },
    };
    assert_eq!(replica.validate(&st, &keys), Err(Error::InvalidSignature));
}

#[test]
fn validate_rejects_wrong_sequence() {
    let keys = section_keys(100, 2);
    let mut replica = genesis_replica(0, &keys, 1, 1000);
    let st = signed_transfer(1, 1, 2, 10, 5);
    assert_eq!(replica.validate(&st, &keys), Err(Error::SequenceConflict));
}

#[test]
fn validate_rejects_insufficient_balance() {
    let keys = section_keys(100, 2);
    let mut replica = genesis_replica(0, &keys, 1, 1000);
    let st = signed_transfer(1, 1, 2, 1001, 0);
    assert_eq!(replica.validate(&st, &keys), Err(Error::InsufficientBalance));
}

#[test]
fn validator_endorses_at_most_one_per_slot() {
    // Once a replica endorsed one transfer for a slot, a different
    // transfer for the same slot deterministically conflicts.
    let keys = section_keys(100, 2);
    let mut replica = genesis_replica(0, &keys, 1, 1000);
    let st1 = signed_transfer(1, 1, 2, 10, 0);
    let st2 = signed_transfer(2, 1, 3, 20, 0);
    replica.validate(&st1, &keys).unwrap();
    assert_eq!(replica.validate(&st2, &keys), Err(Error::SequenceConflict));
    // endorsing the identical transfer again is a harmless repeat
    let log_len = replica.events.len();
    replica.validate(&st1, &keys).unwrap();
    assert_eq!(replica.events.len(), log_len);
}

#[test]
fn register_conflicting_proof_rejected() {
    // At most one of two conflicting proofs for one slot commits.
    let keys = section_keys(100, 2);
    let mut replica = genesis_replica(0, &keys, 1, 1000);
    let p1 = sn_node::types::TransferAgreementProof {
        signed_transfer: signed_transfer(1, 1, 2, 10, 0),
        section_sig: sn_node::types::SectionSignature { key: 100 },
    };
    let p2 = sn_node::types::TransferAgreementProof {
        signed_transfer: signed_transfer(2, 1, 3, 20, 0),
        section_sig: sn_node::types::SectionSignature { key: 100 },
    };
    replica.register(&p1, &keys, 0).unwrap();
    assert_eq!(replica.register(&p2, &keys, 0), Err(Error::SequenceConflict));
    assert_eq!(replica.ledger.balance(1), 990);
    assert_eq!(replica.ledger.balance(3), 0);
}

#[test]
fn register_is_idempotent() {
    let keys = section_keys(100, 2);
    let mut replica = genesis_replica(0, &keys, 1, 1000);
    let p = sn_node::types::TransferAgreementProof {
        signed_transfer: signed_transfer(1, 1, 2, 10, 0),
        section_sig: sn_node::types::SectionSignature { key: 100 },
    };
    replica.register(&p, &keys, 0).unwrap();
    let log_len = replica.events.len();
    replica.register(&p, &keys, 0).unwrap();
    assert_eq!(replica.events.len(), log_len);
    assert_eq!(replica.ledger.balance(1), 990);
    assert_eq!(replica.ledger.balance(2), 10);
}

#[test]
fn register_rejects_stale_key() {
    let keys = section_keys(100, 2);
    let mut replica = genesis_replica(0, &keys, 1, 1000);
    let p = sn_node::types::TransferAgreementProof {
        signed_transfer: signed_transfer(1, 1, 2, 10, 0),
        section_sig: sn_node::types::SectionSignature { key: 999 },
    };
    assert_eq!(replica.register(&p, &keys, 0), Err(Error::StaleSectionKey));
}

#[test]
fn propagate_deduplicates_by_credit_id() {
    let keys = section_keys(100, 2);
    let mut replica = genesis_replica(0, &keys, 1, 1000);
    let credit = Credit { id: 9000, recipient: 1, amount: 777 };
    let proof = sn_node::types::CreditAgreementProof {
        credit,
        section_sig: sn_node::types::SectionSignature { key: 100 },
    };
    // credit id 9000 is the genesis credit's id: a repeat changes nothing
    replica.propagate(&proof, &keys, 0).unwrap();
    assert_eq!(replica.ledger.balance(1), 1000);
}

#[test]
fn history_of_unknown_account() {
    let keys = section_keys(100, 2);
    let replica = genesis_replica(0, &keys, 1, 1000);
    assert_eq!(replica.ledger.history(42, 0), Err(Error::UnknownAccount));
    assert_eq!(replica.ledger.balance(42), 0);
}

#[test]
fn history_since_version() {
    let keys = section_keys(100, 2);
    let mut replica = genesis_replica(0, &keys, 1, 1000);
    let p = sn_node::types::TransferAgreementProof {
        signed_transfer: signed_transfer(1, 1, 2, 10, 0),
        section_sig: sn_node::types::SectionSignature { key: 100 },
    };
    replica.register(&p, &keys, 0).unwrap();
    assert_eq!(replica.ledger.history(1, 0).unwrap().len(), 2);
    assert_eq!(replica.ledger.history(1, 1).unwrap().len(), 1);
    assert_eq!(replica.ledger.history(1, 2).unwrap().len(), 0);
    assert_eq!(replica.ledger.history(1, 99).unwrap().len(), 0);
}

#[test]
fn self_transfer_moves_nothing_but_takes_a_slot() {
    let keys = section_keys(100, 2);
    let mut replica = genesis_replica(0, &keys, 1, 1000);
    let p = sn_node::types::TransferAgreementProof {
        signed_transfer: signed_transfer(1, 1, 1, 250, 0),
        section_sig: sn_node::types::SectionSignature { key: 100 },
    };
    replica.register(&p, &keys, 0).unwrap();
    assert_eq!(replica.ledger.balance(1), 1000);
    assert_eq!(replica.ledger.history(1, 0).unwrap().len(), 2);
    // the sequence slot is used up all the same
    let p2 = sn_node::types::TransferAgreementProof {
        signed_transfer: signed_transfer(2, 1, 2, 10, 0),
        section_sig: sn_node::types::SectionSignature { key: 100 },
    };
    assert_eq!(replica.register(&p2, &keys, 0), Err(Error::SequenceConflict));
}

#[test]
fn store_cost_exact_and_monotonic() {
    assert_eq!(store_cost(2, 3, 10), 80);
    assert_eq!(store_cost(2, 0, 10), 20);
    assert_eq!(store_cost(0, 3, 10), 0);
    assert_eq!(store_cost(2, 3, 0), 0);
    assert_eq!(store_cost(u64::MAX, u64::MAX, u64::MAX), u64::MAX);
    assert!(store_cost(2, 3, 10) <= store_cost(2, 4, 10));
    assert!(store_cost(2, 3, 10) <= store_cost(2, 3, 11));
}

#[test]
fn genesis_needs_quorum_and_current_key() {
    let keys = section_keys(100, 2);
    let credit = Credit { id: 1, recipient: 1, amount: 10 };
    let one_share = vec![SignatureShare { signer_index: 0, key: 100 }];
    assert!(accumulate_genesis(&credit, &one_share, &keys).unwrap().is_none());
    // duplicate signers do not count twice
    let dup = vec![
        SignatureShare { signer_index: 0, key: 100 },
        SignatureShare { signer_index: 0, key: 100 },
    ];
    assert!(accumulate_genesis(&credit, &dup, &keys).unwrap().is_none());
    let stale = vec![
        SignatureShare { signer_index: 0, key: 100 },
        SignatureShare { signer_index: 1, key: 99 },
    ];
    assert_eq!(accumulate_genesis(&credit, &stale, &keys), Err(Error::StaleSectionKey));
}
