//! The duty surface of a node: the internal messages passed along inside a
//! node between the entry and exit points of remote messages. An arriving
//! message is interpreted into a duty, handed to the module that processes
//! it, and a module's answer is again a duty, possibly one that leaves the
//! node through messaging.
//!
//! The hierarchy is sealed: a transfer duty is always wrapped as an
//! Elder/KeySection/Transfers duty, a reward duty as an
//! Elder/DataSection/Rewards duty, and so on — the wrapping is done by the
//! explicit conversion functions here, never implicitly.

use vstd::prelude::*;

use crate::ledger::WalletHistory;
use crate::metadata::{Blob, BlobAddress, BlobRead, BlobWrite, DataCmd, DataQuery};
use crate::rewards::NodeRecord;
use crate::types::{
    Aggregation, Credit, CreditAgreementProof, DstLocation, Elders, EndUser, Message, MessageId,
    NodeId, Prefix, PublicKey, PublicKeySet, ReplicaEvent, SectionElders, SignatureShare,
    SignedCredit, SignedTransfer, SignedTransferShare, SrcLocation, TransferAgreementProof,
    TransferValidated,
};

verus! {

/// Duties of one node, in the order they are to be processed.
pub type NodeDuties = Vec<NodeDuty>;

/// Network duties, in the order they are to be processed.
pub type NetworkDuties = Vec<NetworkDuty>;

/// All duties carried out by a node in the network, by the role that runs
/// them.
#[derive(Debug)]
pub enum NetworkDuty {
    RunAsAdult(AdultDuty),
    RunAsElder(ElderDuty),
    RunAsNode(NodeDuty),
    NoOp,
}

/// Common duties run by all nodes.
#[derive(Debug)]
pub enum NodeDuty {
    GetNodeWalletKey {
        old_node_id: NodeId,
        new_node_id: NodeId,
        msg_id: MessageId,
        origin: SrcLocation,
    },
    PayoutNodeRewards { id: PublicKey, node_id: NodeId, msg_id: MessageId, origin: SrcLocation },
    PropagateTransfer { proof: CreditAgreementProof, msg_id: MessageId, origin: SrcLocation },
    RegisterSectionPayout {
        debit_agreement: TransferAgreementProof,
        msg_id: MessageId,
        origin: SrcLocation,
    },
    SetNodeWallet { wallet_id: PublicKey, node_id: NodeId, msg_id: MessageId, origin: SrcLocation },
    ReceivePayoutValidation { validation: TransferValidated, msg_id: MessageId, origin: SrcLocation },
    GetTransferReplicaEvents { msg_id: MessageId, origin: SrcLocation },
    ValidateSectionPayout {
        signed_transfer: SignedTransferShare,
        msg_id: MessageId,
        origin: SrcLocation,
    },
    ReadChunk { read: BlobRead, msg_id: MessageId, origin: EndUser },
    WriteChunk { write: BlobWrite, msg_id: MessageId, origin: EndUser },
    ContinueWalletChurn { replicas: SectionElders, msg_id: MessageId, origin: SrcLocation },
    /// Get section elders.
    GetSectionElders { msg_id: MessageId, origin: SrcLocation },
    /// On being promoted, an Adult node becomes an Elder.
    BeginFormingGenesisSection,
    /// Bootstrap of the genesis section actor: one elder's signature over
    /// the genesis credit.
    ReceiveGenesisProposal { credit: Credit, sig: SignatureShare },
    /// Bootstrap of the genesis section actor: accumulation of the
    /// elders' signatures.
    ReceiveGenesisAccumulation { signed_credit: SignedCredit, sig: SignatureShare },
    /// Elder changes mean the section public key changes as well, which
    /// leads to necessary updates of various places using the section's
    /// multisig.
    UpdateElderInfo {
        prefix: Prefix,
        key: PublicKey,
        elders: Vec<NodeId>,
        sibling_key: Option<PublicKey>,
    },
    /// Finishes the multi-step process of transitioning to a new elder
    /// constellation.
    CompleteElderChange { previous_key: PublicKey, new_key: PublicKey },
    ChurnMembers { elders: Elders, sibling_elders: Option<Elders> },
    /// When promoted, the node levels up.
    LevelUp,
    /// When demoted, the node levels down.
    LevelDown,
    /// Initiates the node with state from peers.
    ContinueLevelUp { node_rewards: Vec<NodeRecord>, user_wallets: Vec<WalletHistory> },
    /// Initiates the section wallet.
    CompleteLevelUp(WalletHistory),
    ProcessNewMember(NodeId),
    /// As members are lost for various reasons there are certain things
    /// nodes need to do, to update for that.
    ProcessLostMember { name: NodeId, age: u8 },
    ProcessRelocatedMember { old_node_id: NodeId, new_node_id: NodeId, age: u8 },
    /// Storage reaching max capacity.
    ReachingMaxCapacity,
    /// Increment count of full nodes in the network.
    IncrementFullNodeCount { node_id: PublicKey },
    SwitchNodeJoin(bool),
    /// Send a message to the specified destination.
    Send(OutgoingMsg),
    /// Send the same request to each individual node.
    SendToNodes { targets: Vec<NodeId>, msg: Message },
    /// Process a read of data.
    ProcessRead { query: DataQuery, id: MessageId, origin: EndUser },
    /// Process a write of data.
    ProcessWrite { cmd: DataCmd, id: MessageId, origin: EndUser },
    /// Process payment for a data command.
    ProcessDataPayment { msg: Message, origin: EndUser },
    /// Replicate a chunk at its new holder after a member left.
    ReplicateChunk { address: BlobAddress, current_holders: Vec<NodeId>, id: MessageId },
    /// Fetch a chunk and send it back to the requesting node for
    /// replication.
    GetChunkForReplication { address: BlobAddress, new_holder: NodeId, id: MessageId },
    /// Store a chunk that is a result of data replication.
    StoreChunkForReplication { data: Blob, correlation_id: MessageId },
    NoOp,
}

impl From<NodeDuty> for NodeDuties {
    /// A duty becomes the singleton list of itself; no-op becomes nothing
    /// to do.
    fn from(duty: NodeDuty) -> (r: NodeDuties)
        ensures
            duty is NoOp ==> r@ == Seq::<NodeDuty>::empty(),
            !(duty is NoOp) ==> r@ == seq![duty],
    {
        match duty {
            NodeDuty::NoOp => Vec::new(),
            d => {
                let mut v: Vec<NodeDuty> = Vec::new();
                v.push(d);
                proof {
                    assert(v@ =~= seq![duty]);
                }
                v
            },
        }
    }
}

// --------------- Messaging ---------------

/// A message leaving this node, with its destination and how its signature
/// is aggregated on the way.
#[derive(Clone, Debug)]
pub struct OutgoingMsg {
    pub msg: Message,
    pub dst: DstLocation,
    pub section_source: bool,
    pub aggregation: Aggregation,
}

impl OutgoingMsg {
    /// The id of the message being sent.
    pub fn id(&self) -> (r: MessageId)
        ensures
            r == self.msg.id,
    {
        self.msg.id()
    }
}

/// This duty is at the border of infrastructural and domain duties.
/// Messaging is such a fundamental part of the system that it can be
/// considered domain.
#[derive(Debug)]
pub enum NodeMessagingDuty {
    /// No operation.
    NoOp,
}

// --------------- Adult ---------------

/// Duties only run as an Adult.
#[derive(Debug)]
pub enum AdultDuty {
    /// The main duty of an Adult is storage and retrieval of data chunks.
    RunAsChunkStore(ChunkStoreDuty),
    RunAsChunkReplication(ChunkReplicationDuty),
    NoOp,
}

impl From<AdultDuty> for NetworkDuties {
    /// An adult duty runs wrapped in its role; no-op becomes nothing.
    fn from(duty: AdultDuty) -> (r: NetworkDuties)
        ensures
            duty is NoOp ==> r@ == Seq::<NetworkDuty>::empty(),
            !(duty is NoOp) ==> r@ == seq![NetworkDuty::RunAsAdult(duty)],
    {
        match duty {
            AdultDuty::NoOp => Vec::new(),
            d => {
                let mut v: Vec<NetworkDuty> = Vec::new();
                v.push(NetworkDuty::RunAsAdult(d));
                proof {
                    assert(v@ =~= seq![NetworkDuty::RunAsAdult(duty)]);
                }
                v
            },
        }
    }
}

impl From<AdultDuty> for NetworkDuty {
    /// The explicit wrapping of an adult duty in its role.
    fn from(duty: AdultDuty) -> (r: NetworkDuty)
        ensures
            r == NetworkDuty::RunAsAdult(duty),
    {
        NetworkDuty::RunAsAdult(duty)
    }
}

// --------------- Elder ---------------

/// Duties only run as an Elder.
#[derive(Debug)]
pub enum ElderDuty {
    ProcessNewMember(NodeId),
    /// As members are lost for various reasons there are certain things
    /// the Elders need to do, to update for that.
    ProcessLostMember { name: NodeId, age: u8 },
    ProcessRelocatedMember { old_node_id: NodeId, new_node_id: NodeId, age: u8 },
    /// A key section interfaces with clients.
    RunAsKeySection(KeySectionDuty),
    /// A data section receives requests relayed via key sections.
    RunAsDataSection(DataSectionDuty),
    NoOp,
    /// Increase the number of full nodes in the network.
    StorageFull { node_id: PublicKey },
    SwitchNodeJoin(bool),
}

impl From<ElderDuty> for NetworkDuties {
    /// An elder duty runs wrapped in its role; no-op becomes nothing.
    fn from(duty: ElderDuty) -> (r: NetworkDuties)
        ensures
            duty is NoOp ==> r@ == Seq::<NetworkDuty>::empty(),
            !(duty is NoOp) ==> r@ == seq![NetworkDuty::RunAsElder(duty)],
    {
        match duty {
            ElderDuty::NoOp => Vec::new(),
            d => {
                let mut v: Vec<NetworkDuty> = Vec::new();
                v.push(NetworkDuty::RunAsElder(d));
                proof {
                    assert(v@ =~= seq![NetworkDuty::RunAsElder(duty)]);
                }
                v
            },
        }
    }
}

impl From<ElderDuty> for NetworkDuty {
    /// The explicit wrapping of an elder duty in its role.
    fn from(duty: ElderDuty) -> (r: NetworkDuty)
        ensures
            r == NetworkDuty::RunAsElder(duty),
    {
        NetworkDuty::RunAsElder(duty)
    }
}

// --------------- KeySection ---------------

/// Duties only run as a key section.
#[derive(Debug)]
pub enum KeySectionDuty {
    /// Transfers of tokens between keys, hence also payment for data
    /// writes.
    RunAsTransfers(TransferDuty),
    NoOp,
}

impl From<KeySectionDuty> for NetworkDuties {
    /// A key-section duty is always an elder duty; no-op becomes nothing.
    fn from(duty: KeySectionDuty) -> (r: NetworkDuties)
        ensures
            duty is NoOp ==> r@ == Seq::<NetworkDuty>::empty(),
            !(duty is NoOp) ==> r@ == seq![
                NetworkDuty::RunAsElder(ElderDuty::RunAsKeySection(duty)),
            ],
    {
        match duty {
            KeySectionDuty::NoOp => Vec::new(),
            d => {
                let mut v: Vec<NetworkDuty> = Vec::new();
                v.push(NetworkDuty::RunAsElder(ElderDuty::RunAsKeySection(d)));
                proof {
                    assert(v@ =~= seq![
                        NetworkDuty::RunAsElder(ElderDuty::RunAsKeySection(duty)),
                    ]);
                }
                v
            },
        }
    }
}

// --------------- DataSection ---------------

/// Duties only run as a data section.
#[derive(Debug)]
pub enum DataSectionDuty {
    /// Metadata is the info about data type structures, ownership and
    /// permissions, distinct from the actual data in chunks.
    RunAsMetadata(MetadataDuty),
    /// Dealing out rewards for contributing to the network by storing
    /// data and carrying out operations on it.
    RunAsRewards(RewardDuty),
    NoOp,
}

// --------------- Metadata ---------------

/// Reading and writing data. The reads and writes potentially concern
/// metadata only, but could include chunks, and are then relayed to
/// Adults, the chunk holders.
#[derive(Debug)]
pub enum MetadataDuty {
    /// Reads.
    ProcessRead { query: DataQuery, id: MessageId, origin: EndUser },
    /// Writes.
    ProcessWrite { cmd: DataCmd, id: MessageId, origin: EndUser },
    NoOp,
}

impl From<MetadataDuty> for NetworkDuties {
    /// A metadata duty is always an elder's data-section duty; no-op
    /// becomes nothing.
    fn from(duty: MetadataDuty) -> (r: NetworkDuties)
        ensures
            duty is NoOp ==> r@ == Seq::<NetworkDuty>::empty(),
            !(duty is NoOp) ==> r@ == seq![
                NetworkDuty::RunAsElder(
                    ElderDuty::RunAsDataSection(DataSectionDuty::RunAsMetadata(duty)),
                ),
            ],
    {
        match duty {
            MetadataDuty::NoOp => Vec::new(),
            d => {
                let mut v: Vec<NetworkDuty> = Vec::new();
                v.push(
                    NetworkDuty::RunAsElder(
                        ElderDuty::RunAsDataSection(DataSectionDuty::RunAsMetadata(d)),
                    ),
                );
                proof {
                    assert(v@ =~= seq![
                        NetworkDuty::RunAsElder(
                            ElderDuty::RunAsDataSection(DataSectionDuty::RunAsMetadata(duty)),
                        ),
                    ]);
                }
                v
            },
        }
    }
}

// --------------- Chunks ---------------

/// Chunk storage and retrieval is done at Adults.
#[derive(Debug)]
pub enum ChunkStoreDuty {
    /// Reads.
    ReadChunk { read: BlobRead, id: MessageId, origin: EndUser },
    /// Writes.
    WriteChunk { write: BlobWrite, id: MessageId, origin: EndUser },
    NoOp,
}

/// Replication of chunks among Adults as holders come and go.
#[derive(Debug)]
pub enum ChunkReplicationDuty {
    ProcessCmd { cmd: ChunkReplicationCmd, msg_id: MessageId, origin: SrcLocation },
    ProcessQuery { query: ChunkReplicationQuery, msg_id: MessageId, origin: SrcLocation },
    NoOp,
}

/// Queries for a chunk to replicate.
#[derive(Debug)]
pub enum ChunkReplicationQuery {
    GetChunk(BlobAddress),
}

/// Chunk-replication commands carried out on Adults.
#[derive(Debug)]
pub enum ChunkReplicationCmd {
    /// An order to retrieve a chunk from its current holders, in order to
    /// replicate it locally.
    ReplicateChunk { current_holders: Vec<NodeId>, address: BlobAddress },
    StoreReplicatedBlob(Blob),
}

// --------------- Rewards ---------------

/// Nodes participating in the system are rewarded for their work. Elders
/// are responsible for keeping track of rewards and issuing payouts from
/// the section account.
#[derive(Debug)]
pub enum RewardDuty {
    ProcessQuery { query: RewardQuery, msg_id: MessageId, origin: SrcLocation },
    ProcessCmd { cmd: RewardCmd, msg_id: MessageId, origin: SrcLocation },
    NoOp,
}

/// Reward commands.
#[derive(Debug)]
pub enum RewardCmd {
    /// Initiates a new section actor with the state of existing replicas
    /// in the group.
    SynchHistory(WalletHistory),
    /// Completes the transition to a new section actor — a new wallet —
    /// and sets it up with its replicas' public key set.
    ContinueWalletChurn(PublicKeySet),
    /// With the node id.
    AddNewNode(NodeId),
    /// Set the account for a node.
    SetNodeWallet {
        /// The node which accumulated the rewards.
        node_id: NodeId,
        /// The account the accumulated rewards are paid out to.
        wallet_id: PublicKey,
    },
    /// Relocated nodes are added to the rewards system, so that they can
    /// keep participating in the rewards.
    AddRelocatingNode { old_node_id: NodeId, new_node_id: NodeId, age: u8 },
    /// When a node has been relocated to this section, the account id
    /// arrives from the other section.
    ActivateNodeRewards { id: PublicKey, node_id: NodeId },
    /// When a node has left for some reason, it is deactivated.
    DeactivateNode(NodeId),
    /// The distributed actor of a section receives and accumulates the
    /// validated reward payout from its replicas.
    ReceivePayoutValidation(TransferValidated),
}

/// Reward queries.
#[derive(Debug)]
pub enum RewardQuery {
    /// When a node is relocated away, the other section queries for the
    /// node's wallet id.
    GetNodeWalletId { old_node_id: NodeId, new_node_id: NodeId },
}

impl From<RewardDuty> for NetworkDuties {
    /// A reward duty is always an elder's data-section duty; no-op becomes
    /// nothing.
    fn from(duty: RewardDuty) -> (r: NetworkDuties)
        ensures
            duty is NoOp ==> r@ == Seq::<NetworkDuty>::empty(),
            !(duty is NoOp) ==> r@ == seq![
                NetworkDuty::RunAsElder(
                    ElderDuty::RunAsDataSection(DataSectionDuty::RunAsRewards(duty)),
                ),
            ],
    {
        match duty {
            RewardDuty::NoOp => Vec::new(),
            d => {
                let mut v: Vec<NetworkDuty> = Vec::new();
                v.push(
                    NetworkDuty::RunAsElder(
                        ElderDuty::RunAsDataSection(DataSectionDuty::RunAsRewards(d)),
                    ),
                );
                proof {
                    assert(v@ =~= seq![
                        NetworkDuty::RunAsElder(
                            ElderDuty::RunAsDataSection(DataSectionDuty::RunAsRewards(duty)),
                        ),
                    ]);
                }
                v
            },
        }
    }
}

impl From<RewardDuty> for NetworkDuty {
    /// The explicit wrapping of a reward duty in its roles.
    fn from(duty: RewardDuty) -> (r: NetworkDuty)
        ensures
            r == NetworkDuty::RunAsElder(
                ElderDuty::RunAsDataSection(DataSectionDuty::RunAsRewards(duty)),
            ),
    {
        NetworkDuty::RunAsElder(ElderDuty::RunAsDataSection(DataSectionDuty::RunAsRewards(duty)))
    }
}

// --------------- Transfers ---------------

/// Transfers of tokens on the network, and querying of balances and
/// history.
#[derive(Debug)]
pub enum TransferDuty {
    ProcessQuery { query: TransferQuery, msg_id: MessageId, origin: SrcLocation },
    ProcessCmd { cmd: TransferCmd, msg_id: MessageId, origin: SrcLocation },
    NoOp,
}

impl From<TransferDuty> for NetworkDuties {
    /// A transfer duty is always an elder's key-section duty; no-op
    /// becomes nothing.
    fn from(duty: TransferDuty) -> (r: NetworkDuties)
        ensures
            duty is NoOp ==> r@ == Seq::<NetworkDuty>::empty(),
            !(duty is NoOp) ==> r@ == seq![
                NetworkDuty::RunAsElder(
                    ElderDuty::RunAsKeySection(KeySectionDuty::RunAsTransfers(duty)),
                ),
            ],
    {
        match duty {
            TransferDuty::NoOp => Vec::new(),
            d => {
                let mut v: Vec<NetworkDuty> = Vec::new();
                v.push(
                    NetworkDuty::RunAsElder(
                        ElderDuty::RunAsKeySection(KeySectionDuty::RunAsTransfers(d)),
                    ),
                );
                proof {
                    assert(v@ =~= seq![
                        NetworkDuty::RunAsElder(
                            ElderDuty::RunAsKeySection(KeySectionDuty::RunAsTransfers(duty)),
                        ),
                    ]);
                }
                v
            },
        }
    }
}

/// Queries for information on accounts, handled by the transfer replicas.
#[derive(Debug)]
pub enum TransferQuery {
    /// Get the public key set of the replicas for a given key.
    GetReplicaKeys(PublicKey),
    /// Get key balance.
    GetBalance(PublicKey),
    /// Get key transfers since the specified version.
    GetHistory { at: PublicKey, since_version: usize },
    GetReplicaEvents,
    /// Get the latest cost for writing a given number of bytes to the
    /// network.
    GetStoreCost { requester: PublicKey, bytes: u64 },
}

/// Commands carried out on the transfer replicas.
#[derive(Debug)]
pub enum TransferCmd {
    /// Initiates a new replica with the state of the existing replicas in
    /// the group.
    InitiateReplica(Vec<ReplicaEvent>),
    ProcessPayment(Message),
    /// The command to validate a transfer.
    ValidateTransfer(SignedTransfer),
    /// The command to register the consensused transfer.
    RegisterTransfer(TransferAgreementProof),
    /// As a transfer has been propagated to the crediting section, it is
    /// applied there.
    PropagateTransfer(CreditAgreementProof),
    /// The validation of a section transfer.
    ValidateSectionPayout(SignedTransferShare),
    /// The registration of a section transfer.
    RegisterSectionPayout(TransferAgreementProof),
}

/// The transfer commands a client can send, as the messaging layer hands
/// them over.
#[derive(Debug)]
pub enum ClientTransferCmd {
    ValidateTransfer(SignedTransfer),
    RegisterTransfer(TransferAgreementProof),
}

/// The transfer queries a client can send, as the messaging layer hands
/// them over.
#[derive(Debug)]
pub enum ClientTransferQuery {
    GetReplicaKeys(PublicKey),
    GetBalance(PublicKey),
    GetHistory { at: PublicKey, since_version: usize },
    GetStoreCost { requester: PublicKey, bytes: u64 },
}

impl From<ClientTransferCmd> for TransferCmd {
    /// Each client transfer command maps to the matching replica command.
    fn from(cmd: ClientTransferCmd) -> (r: TransferCmd)
        ensures
            r == match cmd {
                ClientTransferCmd::ValidateTransfer(st) => TransferCmd::ValidateTransfer(st),
                ClientTransferCmd::RegisterTransfer(p) => TransferCmd::RegisterTransfer(p),
            },
    {
        match cmd {
            ClientTransferCmd::ValidateTransfer(signed_transfer) => TransferCmd::ValidateTransfer(
                signed_transfer,
            ),
            ClientTransferCmd::RegisterTransfer(transfer_agreement) => TransferCmd::RegisterTransfer(
                transfer_agreement,
            ),
        }
    }
}

impl From<ClientTransferQuery> for TransferQuery {
    /// Each client transfer query maps to the matching replica query.
    fn from(cmd: ClientTransferQuery) -> (r: TransferQuery)
        ensures
            r == match cmd {
                ClientTransferQuery::GetReplicaKeys(k) => TransferQuery::GetReplicaKeys(k),
                ClientTransferQuery::GetBalance(k) => TransferQuery::GetBalance(k),
                ClientTransferQuery::GetHistory { at, since_version } => TransferQuery::GetHistory {
                    at,
                    since_version,
                },
                ClientTransferQuery::GetStoreCost { requester, bytes } => TransferQuery::GetStoreCost {
                    requester,
                    bytes,
                },
            },
    {
        match cmd {
            ClientTransferQuery::GetReplicaKeys(transfer) => TransferQuery::GetReplicaKeys(
                transfer,
            ),
            ClientTransferQuery::GetBalance(public_key) => TransferQuery::GetBalance(public_key),
            ClientTransferQuery::GetHistory { at, since_version } => TransferQuery::GetHistory {
                at,
                since_version,
            },
            ClientTransferQuery::GetStoreCost { requester, bytes } => TransferQuery::GetStoreCost {
                requester,
                bytes,
            },
        }
    }
}

// What `from` means in contracts. For conversions into a duty list the
// conversion is specified by the ensures clauses on `from` above, as no
// list value can be written in specification code.

impl vstd::std_specs::convert::FromSpecImpl<NodeDuty> for NodeDuties {
    open spec fn obeys_from_spec() -> bool {
        false
    }

    open spec fn from_spec(v: NodeDuty) -> NodeDuties {
        vstd::pervasive::arbitrary()
    }
}

impl vstd::std_specs::convert::FromSpecImpl<AdultDuty> for NetworkDuties {
    open spec fn obeys_from_spec() -> bool {
        false
    }

    open spec fn from_spec(v: AdultDuty) -> NetworkDuties {
        vstd::pervasive::arbitrary()
    }
}

impl vstd::std_specs::convert::FromSpecImpl<ElderDuty> for NetworkDuties {
    open spec fn obeys_from_spec() -> bool {
        false
    }

    open spec fn from_spec(v: ElderDuty) -> NetworkDuties {
        vstd::pervasive::arbitrary()
    }
}

impl vstd::std_specs::convert::FromSpecImpl<KeySectionDuty> for NetworkDuties {
    open spec fn obeys_from_spec() -> bool {
        false
    }

    open spec fn from_spec(v: KeySectionDuty) -> NetworkDuties {
        vstd::pervasive::arbitrary()
    }
}

impl vstd::std_specs::convert::FromSpecImpl<MetadataDuty> for NetworkDuties {
    open spec fn obeys_from_spec() -> bool {
        false
    }

    open spec fn from_spec(v: MetadataDuty) -> NetworkDuties {
        vstd::pervasive::arbitrary()
    }
}

impl vstd::std_specs::convert::FromSpecImpl<RewardDuty> for NetworkDuties {
    open spec fn obeys_from_spec() -> bool {
        false
    }

    open spec fn from_spec(v: RewardDuty) -> NetworkDuties {
        vstd::pervasive::arbitrary()
    }
}

impl vstd::std_specs::convert::FromSpecImpl<TransferDuty> for NetworkDuties {
    open spec fn obeys_from_spec() -> bool {
        false
    }

    open spec fn from_spec(v: TransferDuty) -> NetworkDuties {
        vstd::pervasive::arbitrary()
    }
}

impl vstd::std_specs::convert::FromSpecImpl<AdultDuty> for NetworkDuty {
    open spec fn obeys_from_spec() -> bool {
        true
    }

    open spec fn from_spec(v: AdultDuty) -> NetworkDuty {
        NetworkDuty::RunAsAdult(v)
    }
}

impl vstd::std_specs::convert::FromSpecImpl<ElderDuty> for NetworkDuty {
    open spec fn obeys_from_spec() -> bool {
        true
    }

    open spec fn from_spec(v: ElderDuty) -> NetworkDuty {
        NetworkDuty::RunAsElder(v)
    }
}

impl vstd::std_specs::convert::FromSpecImpl<RewardDuty> for NetworkDuty {
    open spec fn obeys_from_spec() -> bool {
        true
    }

    open spec fn from_spec(v: RewardDuty) -> NetworkDuty {
        NetworkDuty::RunAsElder(ElderDuty::RunAsDataSection(DataSectionDuty::RunAsRewards(v)))
    }
}

impl vstd::std_specs::convert::FromSpecImpl<ClientTransferCmd> for TransferCmd {
    open spec fn obeys_from_spec() -> bool {
        true
    }

    open spec fn from_spec(v: ClientTransferCmd) -> TransferCmd {
        match v {
            ClientTransferCmd::ValidateTransfer(st) => TransferCmd::ValidateTransfer(st),
            ClientTransferCmd::RegisterTransfer(p) => TransferCmd::RegisterTransfer(p),
        }
    }
}

impl vstd::std_specs::convert::FromSpecImpl<ClientTransferQuery> for TransferQuery {
    open spec fn obeys_from_spec() -> bool {
        true
    }

    open spec fn from_spec(v: ClientTransferQuery) -> TransferQuery {
        match v {
            ClientTransferQuery::GetReplicaKeys(k) => TransferQuery::GetReplicaKeys(k),
            ClientTransferQuery::GetBalance(k) => TransferQuery::GetBalance(k),
            ClientTransferQuery::GetHistory { at, since_version } => TransferQuery::GetHistory {
                at,
                since_version,
            },
            ClientTransferQuery::GetStoreCost { requester, bytes } => TransferQuery::GetStoreCost {
                requester,
                bytes,
            },
        }
    }
}

} // verus!
