//! The write side of the metadata duty: a data command arriving at an
//! Elder is dispatched to the store that holds its kind of data. The
//! stores themselves — blob register, map, sequence and account storage —
//! are collaborators outside this core, so the dispatch decision is
//! returned as a directive for the surrounding layer to carry out.

use vstd::prelude::*;

use crate::types::{MsgEnvelope, NodeId};

verus! {

/// Where a chunk of blob data lives in the address space.
#[derive(Clone, Copy, PartialEq, Eq, Structural, Debug)]
pub struct BlobAddress {
    pub name: NodeId,
}

/// A chunk of blob data.
#[derive(Clone, PartialEq, Eq, Debug)]
pub struct Blob {
    pub address: BlobAddress,
    pub contents: Vec<u8>,
}

/// A read of blob data.
#[derive(Clone, Copy, PartialEq, Eq, Structural, Debug)]
pub struct BlobRead {
    pub address: BlobAddress,
}

/// A write of blob data.
#[derive(Clone, PartialEq, Eq, Debug)]
pub enum BlobWrite {
    New(Blob),
    DeletePrivate(BlobAddress),
}

/// A write to map storage.
#[derive(Clone, PartialEq, Eq, Debug)]
pub struct MapWrite {
    pub address: NodeId,
    pub payload: Vec<u8>,
}

/// A write to sequence storage.
#[derive(Clone, PartialEq, Eq, Debug)]
pub struct SequenceWrite {
    pub address: NodeId,
    pub payload: Vec<u8>,
}

/// A write to account storage.
#[derive(Clone, PartialEq, Eq, Debug)]
pub struct AccountWrite {
    pub address: NodeId,
    pub payload: Vec<u8>,
}

/// A data write command, by the kind of data it writes.
#[derive(Clone, PartialEq, Eq, Debug)]
pub enum DataCmd {
    Blob(BlobWrite),
    MapData(MapWrite),
    Sequence(SequenceWrite),
    Account(AccountWrite),
}

/// A data read query, by the kind of data it reads.
#[derive(Clone, Copy, PartialEq, Eq, Structural, Debug)]
pub enum DataQuery {
    Blob(BlobRead),
    MapData(NodeId),
    Sequence(NodeId),
    Account(NodeId),
}

/// The directive a write dispatch produces: which store takes the write,
/// with the message it arrived under.
#[derive(Clone, PartialEq, Eq, Debug)]
pub enum WriteDispatch {
    Blob { write: BlobWrite, msg: MsgEnvelope },
    MapData { write: MapWrite, msg: MsgEnvelope },
    Sequence { write: SequenceWrite, msg: MsgEnvelope },
    Account { write: AccountWrite, msg: MsgEnvelope },
}

/// One data write command on its way to the store holding its kind of
/// data.
pub struct Writing {
    pub cmd: DataCmd,
    pub msg: MsgEnvelope,
}

impl Writing {
    /// Wrap a write command with the message it arrived under.
    pub fn new(cmd: DataCmd, msg: MsgEnvelope) -> (w: Writing)
        ensures
            w.cmd == cmd,
            w.msg == msg,
    {
        Writing { cmd, msg }
    }

    /// Dispatch the write: each kind of data goes to exactly the store
    /// holding that kind, carrying the originating message.
    pub fn get_result(self) -> (r: WriteDispatch)
        ensures
            r == match self.cmd {
                DataCmd::Blob(w) => WriteDispatch::Blob { write: w, msg: self.msg },
                DataCmd::MapData(w) => WriteDispatch::MapData { write: w, msg: self.msg },
                DataCmd::Sequence(w) => WriteDispatch::Sequence { write: w, msg: self.msg },
                DataCmd::Account(w) => WriteDispatch::Account { write: w, msg: self.msg },
            },
    {
        let msg = self.msg;
        match self.cmd {
            DataCmd::Blob(write) => WriteDispatch::Blob { write, msg },
            DataCmd::MapData(write) => WriteDispatch::MapData { write, msg },
            DataCmd::Sequence(write) => WriteDispatch::Sequence { write, msg },
            DataCmd::Account(write) => WriteDispatch::Account { write, msg },
        }
    }
}

} // verus!
