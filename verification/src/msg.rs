//! The messages that the ledger accepts and the responses to its queries.

use vstd::prelude::*;
use crate::state::RecordView;

verus! {

/// What the ledger learns of the transaction that carries a message.
#[derive(Debug, Clone, PartialEq, Eq)]
pub struct MessageInfo {
    /// Who sent the message.
    pub sender: String,
}

/// Initializes the ledger; the sender becomes its owner.
#[derive(Debug, Clone, PartialEq, Eq)]
pub struct InstantiateMsg {}

/// The mutating operations.
#[derive(Debug, Clone, PartialEq, Eq)]
pub enum ExecuteMsg {
    Anchoring(AnchoringMsg),
}

/// The read-only operations.
#[derive(Debug, Clone, PartialEq, Eq)]
pub enum QueryMsg {
    /// Asks for the record stored under `height`.
    BlockData { height: String },
    /// Asks for the latest-height pointer.
    LatestBlock {},
}

/// A batch of records to anchor, and the new value of the latest-height pointer.
#[derive(Debug, Clone, PartialEq, Eq)]
pub struct AnchoringMsg {
    pub data: Vec<Data>,
    pub latest: String,
}

/// One record of a batch. The height is an opaque key: it is never parsed.
#[derive(Debug, Clone, PartialEq, Eq)]
pub struct Data {
    pub height: String,
    pub block_hash: String,
    pub data_merkle: String,
    pub timestamp: String,
}

/// The record stored under a height, together with that height.
#[derive(Debug, Clone, PartialEq, Eq)]
pub struct BlockDataResponse {
    pub height: String,
    pub block_hash: String,
    pub data_merkle: String,
    pub timestamp: String,
}

/// The latest-height pointer.
#[derive(Debug, Clone, PartialEq, Eq)]
pub struct LatestBlockResponse {
    pub latest_height: String,
}

/// Asks the ledger to take over the state of an older version of its code.
#[derive(Debug, Clone, PartialEq, Eq)]
pub struct MigrateMsg {}

/// The mathematical value of a record with its height: the view of [`Data`]
/// and of [`BlockDataResponse`].
pub struct AnchorView {
    pub height: Seq<char>,
    pub block_hash: Seq<char>,
    pub data_merkle: Seq<char>,
    pub timestamp: Seq<char>,
}

impl AnchorView {
    /// What is stored under the height.
    pub open spec fn record(self) -> RecordView {
        RecordView {
            block_hash: self.block_hash,
            data_merkle: self.data_merkle,
            timestamp: self.timestamp,
        }
    }

    /// The record `record` under the height `height`.
    pub open spec fn of(height: Seq<char>, record: RecordView) -> AnchorView {
        AnchorView {
            height,
            block_hash: record.block_hash,
            data_merkle: record.data_merkle,
            timestamp: record.timestamp,
        }
    }
}

impl View for Data {
    type V = AnchorView;

    open spec fn view(&self) -> AnchorView {
        AnchorView {
            height: self.height@,
            block_hash: self.block_hash@,
            data_merkle: self.data_merkle@,
            timestamp: self.timestamp@,
        }
    }
}

impl View for BlockDataResponse {
    type V = AnchorView;

    open spec fn view(&self) -> AnchorView {
        AnchorView {
            height: self.height@,
            block_hash: self.block_hash@,
            data_merkle: self.data_merkle@,
            timestamp: self.timestamp@,
        }
    }
}

impl View for LatestBlockResponse {
    type V = Seq<char>;

    open spec fn view(&self) -> Seq<char> {
        self.latest_height@
    }
}

/// The mathematical value of an [`AnchoringMsg`].
pub struct AnchoringMsgView {
    pub data: Seq<AnchorView>,
    pub latest: Seq<char>,
}

impl View for AnchoringMsg {
    type V = AnchoringMsgView;

    open spec fn view(&self) -> AnchoringMsgView {
        AnchoringMsgView { data: self.data@.map_values(|d: Data| d@), latest: self.latest@ }
    }
}

/// The mathematical value of an [`ExecuteMsg`].
pub enum ExecuteMsgView {
    Anchoring(AnchoringMsgView),
}

impl View for ExecuteMsg {
    type V = ExecuteMsgView;

    open spec fn view(&self) -> ExecuteMsgView {
        match self {
            ExecuteMsg::Anchoring(m) => ExecuteMsgView::Anchoring(m@),
        }
    }
}

/// The mathematical value of a [`QueryMsg`].
pub enum QueryMsgView {
    BlockData { height: Seq<char> },
    LatestBlock,
}

impl View for QueryMsg {
    type V = QueryMsgView;

    open spec fn view(&self) -> QueryMsgView {
        match self {
            QueryMsg::BlockData { height } => QueryMsgView::BlockData { height: height@ },
            QueryMsg::LatestBlock {  } => QueryMsgView::LatestBlock,
        }
    }
}

} // verus!
