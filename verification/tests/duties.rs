use sn_node::duties::{
    AdultDuty, ClientTransferCmd, ClientTransferQuery, DataSectionDuty, ElderDuty, KeySectionDuty,
    MetadataDuty, NetworkDuties, NetworkDuty, NodeDuties, NodeDuty, NodeMessagingDuty, OutgoingMsg,
    RewardCmd, RewardDuty, TransferCmd, TransferDuty, TransferQuery,
};
use sn_node::metadata::{
    AccountWrite, DataCmd, MapWrite, SequenceWrite, WriteDispatch, Writing,
};
use sn_node::types::{
    Aggregation, DstLocation, Message, MsgEnvelope, PublicKey, Signature, SignedTransfer,
    SrcLocation, Transfer,
};

fn sample_transfer() -> SignedTransfer {
    SignedTransfer {
        transfer: Transfer { id: 1, from: 2, to: 3, amount: 4, seq: 0 },
        sig: Signature { signer: 2 },
    }
}

#[test]
fn node_duty_no_op_becomes_nothing() {
    let duties: NodeDuties = NodeDuty::NoOp.into();
    assert!(duties.is_empty());
    let duties: NodeDuties = NodeDuty::LevelUp.into();
    assert_eq!(duties.len(), 1);
    assert!(matches!(duties[0], NodeDuty::LevelUp));
}

#[test]
fn adult_duty_wraps_in_its_role() {
    let duty: NetworkDuty = AdultDuty::NoOp.into();
    assert!(matches!(duty, NetworkDuty::RunAsAdult(AdultDuty::NoOp)));
    let duties: NetworkDuties = AdultDuty::NoOp.into();
    assert!(duties.is_empty());
}

#[test]
fn elder_duty_wraps_in_its_role() {
    let duties: NetworkDuties = ElderDuty::SwitchNodeJoin(true).into();
    assert_eq!(duties.len(), 1);
    assert!(matches!(
        duties[0],
        NetworkDuty::RunAsElder(ElderDuty::SwitchNodeJoin(true))
    ));
    let duties: NetworkDuties = ElderDuty::NoOp.into();
    assert!(duties.is_empty());
}

#[test]
fn transfer_duty_wraps_as_key_section() {
    let duty = TransferDuty::ProcessQuery {
        query: TransferQuery::GetBalance(5),
        msg_id: 77,
        origin: SrcLocation::Node(9),
    };
    let duties: NetworkDuties = duty.into();
    assert_eq!(duties.len(), 1);
    assert!(matches!(
        duties[0],
        NetworkDuty::RunAsElder(ElderDuty::RunAsKeySection(KeySectionDuty::RunAsTransfers(
            TransferDuty::ProcessQuery { msg_id: 77, .. }
        )))
    ));
}

#[test]
fn reward_duty_wraps_as_data_section() {
    let duty = RewardDuty::ProcessCmd {
        cmd: RewardCmd::AddNewNode(4),
        msg_id: 88,
        origin: SrcLocation::Section(1),
    };
    let duties: NetworkDuties = duty.into();
    assert_eq!(duties.len(), 1);
    assert!(matches!(
        duties[0],
        NetworkDuty::RunAsElder(ElderDuty::RunAsDataSection(DataSectionDuty::RunAsRewards(
            RewardDuty::ProcessCmd { msg_id: 88, .. }
        )))
    ));
    let single: NetworkDuty = RewardDuty::NoOp.into();
    assert!(matches!(
        single,
        NetworkDuty::RunAsElder(ElderDuty::RunAsDataSection(DataSectionDuty::RunAsRewards(
            RewardDuty::NoOp
        )))
    ));
}

#[test]
fn metadata_duty_wraps_as_data_section() {
    let duty = MetadataDuty::NoOp;
    let duties: NetworkDuties = duty.into();
    assert!(duties.is_empty());
}

#[test]
fn client_transfer_cmds_map_one_to_one() {
    let st = sample_transfer();
    let cmd: TransferCmd = ClientTransferCmd::ValidateTransfer(st).into();
    assert!(matches!(cmd, TransferCmd::ValidateTransfer(t) if t == st));
    let query: TransferQuery = ClientTransferQuery::GetHistory { at: 5, since_version: 3 }.into();
    assert!(matches!(query, TransferQuery::GetHistory { at: 5, since_version: 3 }));
    let query: TransferQuery = ClientTransferQuery::GetStoreCost { requester: 5, bytes: 32 }.into();
    assert!(matches!(query, TransferQuery::GetStoreCost { requester: 5, bytes: 32 }));
    let query: TransferQuery = ClientTransferQuery::GetReplicaKeys(8).into();
    assert!(matches!(query, TransferQuery::GetReplicaKeys(8)));
}

#[test]
fn outgoing_msg_id() {
    let msg = OutgoingMsg {
        msg: Message { id: 123 },
        dst: DstLocation::Section(1),
        section_source: false,
        aggregation: Aggregation::AtDestination,
    };
    assert_eq!(msg.id(), 123);
}

#[test]
fn messaging_duty_is_no_op() {
    let duty = NodeMessagingDuty::NoOp;
    assert!(matches!(duty, NodeMessagingDuty::NoOp));
}

#[test]
fn writing_dispatches_to_the_matching_store() {
    let msg = MsgEnvelope { id: 9, origin: SrcLocation::EndUser(sn_node::types::EndUser { client: 3 }) };
    let w = Writing::new(
        DataCmd::Sequence(SequenceWrite { address: 12, payload: vec![1, 2, 3] }),
        msg,
    );
    match w.get_result() {
        WriteDispatch::Sequence { write, msg: out } => {
            assert_eq!(write.address, 12);
            assert_eq!(write.payload, vec![1, 2, 3]);
            assert_eq!(out, msg);
        },
        _ => panic!("dispatched to the wrong store"),
    }

    let w = Writing::new(DataCmd::MapData(MapWrite { address: 5, payload: vec![] }), msg);
    assert!(matches!(w.get_result(), WriteDispatch::MapData { .. }));
    let w = Writing::new(DataCmd::Account(AccountWrite { address: 6, payload: vec![] }), msg);
    assert!(matches!(w.get_result(), WriteDispatch::Account { .. }));
}

#[test]
fn keeps_public_key_type_roundtrip() {
    let key: PublicKey = 42;
    let duty = NodeDuty::IncrementFullNodeCount { node_id: key };
    assert!(matches!(duty, NodeDuty::IncrementFullNodeCount { node_id: 42 }));
}
