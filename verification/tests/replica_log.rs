use sn_node::actor::accumulate_genesis;
use sn_node::replica::Replica;
use sn_node::types::{
    Credit, CreditAgreementProof, Error, PublicKeySet, ReplicaEvent, SectionKeys, SectionSignature,
    Signature, SignatureShare, SignedTransfer, Transfer, TransferAgreementProof,
};

fn section_keys(key: u64) -> SectionKeys {
    SectionKeys { current: PublicKeySet { public_key: key, threshold: 1 }, previous: None }
}

fn signed_transfer(id: u64, from: u64, to: u64, amount: u64, seq: u64) -> SignedTransfer {
    SignedTransfer {
        transfer: Transfer { id, from, to, amount, seq },
        sig: Signature { signer: from },
    }
}

fn busy_replica(keys: &SectionKeys) -> Replica {
    let credit = Credit { id: 9000, recipient: 1, amount: 1000 };
    let shares = vec![SignatureShare { signer_index: 0, key: keys.current.public_key }];
    let proof = accumulate_genesis(&credit, &shares, keys).unwrap().unwrap();
    let mut replica = Replica::new(0);
    replica.propagate(&proof, keys, 0).unwrap();
    let st = signed_transfer(1, 1, 2, 300, 0);
    replica.validate(&st, keys).unwrap();
    let tap = TransferAgreementProof {
        signed_transfer: st,
        section_sig: SectionSignature { key: keys.current.public_key },
    };
    replica.register(&tap, keys, 0).unwrap();
    replica
}

#[test]
fn replay_reproduces_identical_balances() {
    // Two independent replicas replaying one log agree on every balance.
    let keys = section_keys(100);
    let source = busy_replica(&keys);
    let a = Replica::initiate(7, &source.events).unwrap();
    let b = Replica::initiate(8, &source.events).unwrap();
    for k in [1u64, 2, 3, 42] {
        assert_eq!(a.ledger.balance(k), source.ledger.balance(k));
        assert_eq!(a.ledger.balance(k), b.ledger.balance(k));
    }
    assert_eq!(a.ledger.balance(1), 700);
    assert_eq!(a.ledger.balance(2), 300);
    assert_eq!(a.events, source.events);
}

#[test]
fn replay_of_a_prefix_converges_by_applying_the_rest() {
    // A replica bootstrapped from a prefix of a peer's log reaches the
    // peer's state by processing the remaining events in order.
    let keys = section_keys(100);
    let source = busy_replica(&keys);
    let prefix: Vec<ReplicaEvent> = source.events[..1].to_vec();
    let mut partial = Replica::initiate(7, &prefix).unwrap();
    assert_eq!(partial.ledger.balance(1), 1000);
    // apply what the prefix lacks
    for event in &source.events[1..] {
        match event {
            ReplicaEvent::Validated(v) => {
                partial.validate(&v.signed_transfer, &keys).unwrap();
            },
            ReplicaEvent::Registered(p) => {
                partial.register(p, &keys, 0).unwrap();
            },
            ReplicaEvent::Propagated(c) => {
                partial.propagate(c, &keys, 0).unwrap();
            },
        }
    }
    assert_eq!(partial.ledger.balance(1), source.ledger.balance(1));
    assert_eq!(partial.ledger.balance(2), source.ledger.balance(2));
}

#[test]
fn divergent_log_is_rejected() {
    // a debit from an account with no funds cannot be replayed
    let bad = vec![ReplicaEvent::Registered(TransferAgreementProof {
        signed_transfer: signed_transfer(1, 5, 6, 10, 0),
        section_sig: SectionSignature { key: 100 },
    })];
    assert!(matches!(Replica::initiate(0, &bad), Err(Error::LedgerDivergence)));

    // a debit skipping a sequence slot cannot be replayed
    let genesis = CreditAgreementProof {
        credit: Credit { id: 1, recipient: 5, amount: 100 },
        section_sig: SectionSignature { key: 100 },
    };
    let gap = vec![
        ReplicaEvent::Propagated(genesis),
        ReplicaEvent::Registered(TransferAgreementProof {
            signed_transfer: signed_transfer(1, 5, 6, 10, 3),
            section_sig: SectionSignature { key: 100 },
        }),
    ];
    assert!(matches!(Replica::initiate(0, &gap), Err(Error::LedgerDivergence)));

    // a duplicated credit id cannot be replayed
    let dup = vec![ReplicaEvent::Propagated(genesis), ReplicaEvent::Propagated(genesis)];
    assert!(matches!(Replica::initiate(0, &dup), Err(Error::LedgerDivergence)));
}
