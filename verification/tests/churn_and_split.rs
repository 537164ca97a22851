use sn_node::actor::{accumulate_genesis, SectionActor};
use sn_node::churn::{ChurnCoordinator, ChurnPhase};
use sn_node::replica::Replica;
use sn_node::types::{
    Credit, Elders, Error, Prefix, PublicKeySet, SectionKeys, SectionSignature, Signature,
    SignatureShare, SignedTransfer, Transfer, TransferAgreementProof,
};

const HIGH: u64 = 1u64 << 63;

fn new_elders(key: u64) -> Elders {
    new_elders_with_threshold(key, 1)
}

fn new_elders_with_threshold(key: u64, threshold: u64) -> Elders {
    Elders {
        prefix: Prefix { len: 1, bits: 1 },
        key_set: PublicKeySet { public_key: key, threshold },
        names: vec![10, 11],
    }
}

fn signed_transfer(id: u64, from: u64, to: u64, amount: u64, seq: u64) -> SignedTransfer {
    SignedTransfer {
        transfer: Transfer { id, from, to, amount, seq },
        sig: Signature { signer: from },
    }
}

fn genesis_replica(keys: &SectionKeys, recipient: u64, amount: u64) -> Replica {
    let credit = Credit { id: 9000, recipient, amount };
    let shares = vec![SignatureShare { signer_index: 0, key: keys.current.public_key }];
    let proof = accumulate_genesis(&credit, &shares, keys).unwrap().unwrap();
    let mut replica = Replica::new(0);
    replica.propagate(&proof, keys, 0).unwrap();
    replica
}

#[test]
fn churn_lifecycle() {
    let mut churn = ChurnCoordinator::new(PublicKeySet { public_key: 100, threshold: 1 }, 50);
    let replica = genesis_replica(&churn.keys, HIGH, 1000);
    assert_eq!(churn.phase, ChurnPhase::Stable);

    churn.begin_churn(&new_elders(200), true, 10).unwrap();
    assert_eq!(churn.phase, ChurnPhase::LevelingUp);
    assert_eq!(churn.deadline, 60);
    // a second churn cannot begin while one is in flight
    assert_eq!(churn.begin_churn(&new_elders(300), true, 10), Err(Error::StaleSectionKey));

    let synced = churn.sync_wallet_history(5, &replica.events).unwrap();
    assert_eq!(churn.phase, ChurnPhase::AwaitingWalletSync);
    assert_eq!(synced.ledger.balance(HIGH), 1000);

    // completing with the wrong outgoing key is refused
    assert_eq!(churn.complete(999, 200), Err(Error::StaleSectionKey));
    churn.complete(100, 200).unwrap();
    assert_eq!(churn.phase, ChurnPhase::Stable);
    assert_eq!(churn.keys.current.public_key, 200);
}

#[test]
fn grace_window_accepts_once_then_rejects() {
    // After the key changes hands, an in-flight proof under the old key
    // is accepted exactly once inside the grace window, and rejected as
    // stale after the deadline.
    let mut churn = ChurnCoordinator::new(PublicKeySet { public_key: 100, threshold: 1 }, 50);
    let mut replica = genesis_replica(&churn.keys, HIGH, 1000);
    churn.begin_churn(&new_elders(200), true, 10).unwrap();
    churn.sync_wallet_history(5, &replica.events).unwrap();
    churn.complete(100, 200).unwrap();
    let keys = churn.keys;

    let in_flight = TransferAgreementProof {
        signed_transfer: signed_transfer(1, HIGH, 2, 300, 0),
        section_sig: SectionSignature { key: 100 },
    };
    // inside the grace window: accepted
    replica.register(&in_flight, &keys, 60).unwrap();
    assert_eq!(replica.ledger.balance(HIGH), 700);
    // exactly once: a retry changes nothing
    let log_len = replica.events.len();
    replica.register(&in_flight, &keys, 60).unwrap();
    assert_eq!(replica.events.len(), log_len);
    assert_eq!(replica.ledger.balance(HIGH), 700);
    // past the deadline: permanently rejected
    let late = TransferAgreementProof {
        signed_transfer: signed_transfer(2, HIGH, 2, 100, 1),
        section_sig: SectionSignature { key: 100 },
    };
    assert_eq!(replica.register(&late, &keys, 61), Err(Error::StaleSectionKey));
    // under the new key the same debit commits
    let fresh = TransferAgreementProof {
        signed_transfer: signed_transfer(2, HIGH, 2, 100, 1),
        section_sig: SectionSignature { key: 200 },
    };
    replica.register(&fresh, &keys, 61).unwrap();
    assert_eq!(replica.ledger.balance(HIGH), 600);
}

#[test]
fn proposals_freeze_after_grace_deadline() {
    let mut churn = ChurnCoordinator::new(PublicKeySet { public_key: 100, threshold: 1 }, 50);
    churn.begin_churn(&new_elders(200), false, 10).unwrap();
    assert_eq!(churn.phase, ChurnPhase::LevelingDown);
    let mut actor = SectionActor::new();
    let st = signed_transfer(1, HIGH, 2, 10, 0);
    // before the deadline proposals still run under the old key
    actor.propose(&st, &churn, 60).unwrap();
    // after it they must wait for the churn to complete
    let st2 = signed_transfer(2, HIGH, 2, 10, 1);
    assert_eq!(actor.propose(&st2, &churn, 61), Err(Error::StaleSectionKey));
}

#[test]
fn split_partitions_wallets_without_loss() {
    // A section split partitions the ledger by prefix: every wallet ends
    // up in exactly one half, balances intact.
    let keys = SectionKeys {
        current: PublicKeySet { public_key: 100, threshold: 1 },
        previous: None,
    };
    let mut replica = genesis_replica(&keys, HIGH, 1000);
    let transfer = TransferAgreementProof {
        signed_transfer: signed_transfer(1, HIGH, 2, 300, 0),
        section_sig: SectionSignature { key: 100 },
    };
    replica.register(&transfer, &keys, 0).unwrap();

    let (upper, lower) = replica.ledger.split(&Prefix { len: 1, bits: 1 });
    assert_eq!(upper.balance(HIGH), 700);
    assert_eq!(lower.balance(2), 300);
    // nothing duplicated across the halves
    assert_eq!(upper.balance(2), 0);
    assert_eq!(lower.balance(HIGH), 0);
    assert_eq!(upper.balance(HIGH) + lower.balance(2), 1000);
    assert!(upper.history(2, 0).is_err());
    assert!(lower.history(HIGH, 0).is_err());
}

#[test]
fn stale_share_rejected_and_collector_restarted() {
    // A signature share under a key other than the one in force is
    // rejected; a collector opened before the key change restarts under
    // the new key.
    let mut churn = ChurnCoordinator::new(PublicKeySet { public_key: 100, threshold: 2 }, 50);
    let mut actor = SectionActor::new();
    let st = signed_transfer(1, HIGH, 2, 10, 0);
    actor.propose(&st, &churn, 0).unwrap();
    let stale = sn_node::types::TransferValidated {
        signed_transfer: st,
        replica_sig: SignatureShare { signer_index: 0, key: 777 },
    };
    assert_eq!(actor.receive_validation(&stale, &churn), Err(Error::StaleSectionKey));

    // the key changes hands, still demanding two shares
    churn.begin_churn(&new_elders_with_threshold(200, 2), true, 10).unwrap();
    let empty_log: Vec<sn_node::types::ReplicaEvent> = Vec::new();
    churn.sync_wallet_history(5, &empty_log).unwrap();
    churn.complete(100, 200).unwrap();

    // shares under the new key restart the old collector and aggregate
    let v1 = sn_node::types::TransferValidated {
        signed_transfer: st,
        replica_sig: SignatureShare { signer_index: 0, key: 200 },
    };
    let v1_dup = v1;
    let v2 = sn_node::types::TransferValidated {
        signed_transfer: st,
        replica_sig: SignatureShare { signer_index: 1, key: 200 },
    };
    assert!(actor.receive_validation(&v1, &churn).unwrap().is_none());
    // duplicate signer is deduplicated
    assert!(actor.receive_validation(&v1_dup, &churn).unwrap().is_none());
    let proof = actor.receive_validation(&v2, &churn).unwrap().unwrap();
    assert_eq!(proof.section_sig.key, 200);
    assert_eq!(proof.signed_transfer, st);
}

#[test]
fn mismatched_share_content_rejected() {
    let churn = ChurnCoordinator::new(PublicKeySet { public_key: 100, threshold: 2 }, 50);
    let mut actor = SectionActor::new();
    let st = signed_transfer(1, HIGH, 2, 10, 0);
    actor.propose(&st, &churn, 0).unwrap();
    let other = signed_transfer(1, HIGH, 2, 9999, 0);
    let v = sn_node::types::TransferValidated {
        signed_transfer: other,
        replica_sig: SignatureShare { signer_index: 0, key: 100 },
    };
    assert_eq!(actor.receive_validation(&v, &churn), Err(Error::InvalidSignature));
}
