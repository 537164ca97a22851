//! The data model of the transfer core: credits, transfers, signatures,
//! agreement proofs, replica events, and the error taxonomy.
//!
//! Keys and signatures are carried in their canonical numeric form. A
//! `Signature` records which key produced it and a `SectionSignature` which
//! section key a quorum signed under; whether the underlying bytes verify is
//! the concern of the cryptographic layer outside this crate.

use vstd::prelude::*;

verus! {

/// Canonical form of a public key that owns a wallet.
pub type PublicKey = u64;

/// Canonical form of a node's network name.
pub type NodeId = u64;

/// A token amount, in the smallest indivisible unit.
pub type Token = u64;

/// Identifier of a message passing through the node.
pub type MessageId = u64;

/// Money entering an account: a unique id, the receiving key and the amount.
#[derive(Clone, Copy, PartialEq, Eq, Structural, Debug)]
pub struct Credit {
    /// Unique id of this credit; replicas deduplicate propagated credits by it.
    pub id: u64,
    /// The key being credited.
    pub recipient: PublicKey,
    /// The amount credited.
    pub amount: Token,
}

/// A linked debit/credit pair: money leaving `from` and entering `to`,
/// carrying the per-account sequence number of the debit.
#[derive(Clone, Copy, PartialEq, Eq, Structural, Debug)]
pub struct Transfer {
    /// Unique id of this transfer; endorsement collectors are keyed by it.
    pub id: u64,
    /// The key being debited.
    pub from: PublicKey,
    /// The key being credited.
    pub to: PublicKey,
    /// The amount moved.
    pub amount: Token,
    /// Per-account sequence number of the debit: the n-th debit of an
    /// account carries sequence number n, counted from zero.
    pub seq: u64,
}

/// A plain signature, carried as the canonical form of the key that made it.
#[derive(Clone, Copy, PartialEq, Eq, Structural, Debug)]
pub struct Signature {
    /// The key that produced the signature.
    pub signer: PublicKey,
}

/// A transfer authorized by the sender's own signature; not yet agreed
/// by the section.
#[derive(Clone, Copy, PartialEq, Eq, Structural, Debug)]
pub struct SignedTransfer {
    pub transfer: Transfer,
    /// The sender's signature over the transfer; valid when its signer is
    /// the debited key.
    pub sig: Signature,
}

/// A credit carrying its proposer's signature, as exchanged while a genesis
/// section bootstraps its first wallet.
#[derive(Clone, Copy, PartialEq, Eq, Structural, Debug)]
pub struct SignedCredit {
    pub credit: Credit,
    pub sig: Signature,
}

/// One elder's share of a section threshold signature.
#[derive(Clone, Copy, PartialEq, Eq, Structural, Debug)]
pub struct SignatureShare {
    /// The signing elder's share index.
    pub signer_index: u64,
    /// The section public key the share counts toward.
    pub key: PublicKey,
}

/// A combined threshold signature, carried as the section public key a
/// quorum of elders signed under.
#[derive(Clone, Copy, PartialEq, Eq, Structural, Debug)]
pub struct SectionSignature {
    pub key: PublicKey,
}

/// A debit agreed by a quorum of the section: the signed transfer bundled
/// with a threshold signature under the section key.
#[derive(Clone, Copy, PartialEq, Eq, Structural, Debug)]
pub struct TransferAgreementProof {
    pub signed_transfer: SignedTransfer,
    pub section_sig: SectionSignature,
}

/// A credit agreed by a quorum of a section, as it travels to the section
/// holding the receiving wallet.
#[derive(Clone, Copy, PartialEq, Eq, Structural, Debug)]
pub struct CreditAgreementProof {
    pub credit: Credit,
    pub section_sig: SectionSignature,
}

/// The sole artifact a ledger accepts as authoritative: a credit or a debit
/// under a valid section threshold signature.
#[derive(Clone, Copy, PartialEq, Eq, Structural, Debug)]
pub enum AgreementProof {
    Transfer(TransferAgreementProof),
    Credit(CreditAgreementProof),
}

/// A replica's endorsement of a transfer: the signed transfer together with
/// the replica's signature share over it.
#[derive(Clone, Copy, PartialEq, Eq, Structural, Debug)]
pub struct TransferValidated {
    pub signed_transfer: SignedTransfer,
    pub replica_sig: SignatureShare,
}

/// A transfer of a section-owned wallet, authorized by one share of the
/// distributed actor rather than a single owner key.
#[derive(Clone, Copy, PartialEq, Eq, Structural, Debug)]
pub struct SignedTransferShare {
    pub transfer: Transfer,
    pub actor_sig: SignatureShare,
}

/// One entry of the append-only log a replica's ledger state is replayed
/// from.
#[derive(Clone, Copy, PartialEq, Eq, Structural, Debug)]
pub enum ReplicaEvent {
    /// The replica endorsed a transfer and emitted a signature share.
    Validated(TransferValidated),
    /// A quorum-agreed debit was committed to the ledger.
    Registered(TransferAgreementProof),
    /// A credit agreed elsewhere was applied to the receiving wallet.
    Propagated(CreditAgreementProof),
}

/// Rejections surfaced to callers. Pending quorum is not among them: it is
/// internal state, resolved by waiting for further shares.
#[derive(Clone, Copy, PartialEq, Eq, Structural, Debug)]
pub enum Error {
    /// A signature does not verify against the expected key.
    InvalidSignature,
    /// The transfer's sequence slot is already taken, or skips ahead:
    /// a double-spend attempt.
    SequenceConflict,
    /// The debited wallet does not hold the amount.
    InsufficientBalance,
    /// The proof or share is signed under a section key no longer in force.
    StaleSectionKey,
    /// The named wallet or node is not known here.
    UnknownAccount,
    /// A reward operation not permitted in the node's current stage.
    RewardStageViolation,
    /// A replayed log disagrees with this replica: the replica must
    /// resynchronize wholesale from a peer.
    LedgerDivergence,
}

/// A section's signing key set: the public key and the number of distinct
/// elder shares a threshold signature requires.
#[derive(Clone, Copy, PartialEq, Eq, Structural, Debug)]
pub struct PublicKeySet {
    pub public_key: PublicKey,
    /// Minimum number of distinct shares that combine into a section
    /// signature.
    pub threshold: u64,
}

/// A section key taken out of force by churn, still honored for in-flight
/// proofs until its grace deadline.
#[derive(Clone, Copy, PartialEq, Eq, Structural, Debug)]
pub struct RetiredKey {
    pub key: PublicKey,
    /// Last timestamp at which proofs under this key are still accepted.
    pub valid_until: u64,
}

/// The section keys in force: the current key set, and at most one retired
/// key inside its grace window.
#[derive(Clone, Copy, PartialEq, Eq, Structural, Debug)]
pub struct SectionKeys {
    pub current: PublicKeySet,
    pub previous: Option<RetiredKey>,
}

impl SectionKeys {
    /// A usable key set requires at least one share per signature.
    pub open spec fn wf(self) -> bool {
        self.current.threshold >= 1
    }

    /// Whether a proof signed under `key` is accepted at time `now`:
    /// either it is the key in force, or it is the retired key still
    /// inside its grace window.
    pub open spec fn accepts(self, key: PublicKey, now: u64) -> bool {
        ||| key == self.current.public_key
        ||| (self.previous matches Some(rk) && rk.key == key && now <= rk.valid_until)
    }

    /// Runtime form of [`Self::accepts`].
    pub fn accepts_key(&self, key: PublicKey, now: u64) -> (r: bool)
        ensures
            r == self.accepts(key, now),
    {
        if key == self.current.public_key {
            true
        } else {
            match &self.previous {
                Some(rk) => rk.key == key && now <= rk.valid_until,
                None => false,
            }
        }
    }
}

/// A section address prefix: the leading `len` bits that every name managed
/// by the section shares.
#[derive(Clone, Copy, PartialEq, Eq, Structural, Debug)]
pub struct Prefix {
    /// Number of leading bits the prefix fixes; zero covers every name.
    pub len: u64,
    /// The fixed bits, right-aligned.
    pub bits: u64,
}

impl Prefix {
    /// Whether `name` lies inside this prefix.
    pub open spec fn covers(self, name: u64) -> bool {
        if self.len == 0 {
            true
        } else if self.len <= 64 {
            name >> ((64 - self.len) as u64) == self.bits
        } else {
            false
        }
    }

    /// Runtime form of [`Self::covers`].
    pub fn covers_name(&self, name: u64) -> (r: bool)
        ensures
            r == self.covers(name),
    {
        if self.len == 0 {
            true
        } else if self.len <= 64 {
            let shift: u64 = 64 - self.len;
            name >> shift == self.bits
        } else {
            false
        }
    }
}

/// The elder committee of a section: its prefix, signing key set, and the
/// names of its members.
#[derive(Clone, PartialEq, Eq, Debug)]
pub struct Elders {
    pub prefix: Prefix,
    pub key_set: PublicKeySet,
    pub names: Vec<NodeId>,
}

/// The elder committee a queried account's section answers with.
#[derive(Clone, PartialEq, Eq, Debug)]
pub struct SectionElders {
    pub prefix: Prefix,
    pub names: Vec<NodeId>,
    pub key_set: PublicKeySet,
}

/// A network end user, named by their client key.
#[derive(Clone, Copy, PartialEq, Eq, Structural, Debug)]
pub struct EndUser {
    pub client: PublicKey,
}

/// Where a message came from.
#[derive(Clone, Copy, PartialEq, Eq, Structural, Debug)]
pub enum SrcLocation {
    EndUser(EndUser),
    Node(NodeId),
    Section(NodeId),
}

/// Where a message is headed.
#[derive(Clone, Copy, PartialEq, Eq, Structural, Debug)]
pub enum DstLocation {
    EndUser(EndUser),
    Node(NodeId),
    Section(NodeId),
}

/// How a message's signature is accumulated along the way.
#[derive(Clone, Copy, PartialEq, Eq, Structural, Debug)]
pub enum Aggregation {
    /// No aggregation: a single signature.
    NotAggregated,
    /// Aggregated at the source section before sending.
    AtSource,
    /// Aggregated by the destination from the sources' shares.
    AtDestination,
}

/// A message on the wire, as far as this core reads it: its id. What else
/// a message carries belongs to the routing layer.
#[derive(Clone, Copy, PartialEq, Eq, Structural, Debug)]
pub struct Message {
    pub id: MessageId,
}

impl Message {
    /// The message's id.
    pub fn id(&self) -> (r: MessageId)
        ensures
            r == self.id,
    {
        self.id
    }
}

/// A message together with where it came from.
#[derive(Clone, Copy, PartialEq, Eq, Structural, Debug)]
pub struct MsgEnvelope {
    pub id: MessageId,
    pub origin: SrcLocation,
}

} // verus!
