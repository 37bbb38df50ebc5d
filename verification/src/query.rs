//! The read-only operations.

use vstd::prelude::*;
use crate::error::{ContractError, StorageError};
use crate::msg::{AnchorView, BlockDataResponse, LatestBlockResponse, QueryMsg, QueryMsgView};
use crate::state::{Store, StoreView};

verus! {

/// The answer to a query.
#[derive(Debug, Clone, PartialEq, Eq)]
pub enum QueryResponse {
    BlockData(BlockDataResponse),
    LatestBlock(LatestBlockResponse),
}

/// The mathematical value of a [`QueryResponse`].
pub enum QueryResponseView {
    BlockData(AnchorView),
    LatestBlock(Seq<char>),
}

impl View for QueryResponse {
    type V = QueryResponseView;

    open spec fn view(&self) -> QueryResponseView {
        match self {
            QueryResponse::BlockData(b) => QueryResponseView::BlockData(b@),
            QueryResponse::LatestBlock(l) => QueryResponseView::LatestBlock(l@),
        }
    }
}

/// What a query for the record of `height` answers in the state `s`: the
/// record stored under exactly that key, or `NotFound`.
pub open spec fn block_data_spec(s: StoreView, height: Seq<char>) -> Result<
    AnchorView,
    ContractError,
> {
    if s.anchoring.contains_key(height) {
        Ok(AnchorView::of(height, s.anchoring[height]))
    } else {
        Err(ContractError::NotFound)
    }
}

/// What a query for the latest height answers in the state `s`.
pub open spec fn latest_block_spec(s: StoreView) -> Result<Seq<char>, ContractError> {
    match s.latest {
        Some(l) => Ok(l),
        None => Err(ContractError::Storage(StorageError::MissingLatest)),
    }
}

/// What the query `msg` answers in the state `s`.
pub open spec fn query_spec(s: StoreView, msg: QueryMsgView) -> Result<
    QueryResponseView,
    ContractError,
> {
    match msg {
        QueryMsgView::BlockData { height } => match block_data_spec(s, height) {
            Ok(a) => Ok(QueryResponseView::BlockData(a)),
            Err(e) => Err(e),
        },
        QueryMsgView::LatestBlock => match latest_block_spec(s) {
            Ok(l) => Ok(QueryResponseView::LatestBlock(l)),
            Err(e) => Err(e),
        },
    }
}

/// Answers a query. The store is only read.
pub fn query(store: &Store, msg: QueryMsg) -> (r: Result<QueryResponse, ContractError>)
    ensures
        match query_spec(store@, msg@) {
            Ok(v) => r is Ok && r->Ok_0@ == v,
            Err(e) => r is Err && r->Err_0 == e,
        },
{
    match msg {
        QueryMsg::BlockData { height } => match block_data(store, height) {
            Ok(b) => Ok(QueryResponse::BlockData(b)),
            Err(e) => Err(e),
        },
        QueryMsg::LatestBlock {  } => match latest_block(store) {
            Ok(l) => Ok(QueryResponse::LatestBlock(l)),
            Err(e) => Err(e),
        },
    }
}

/// The record stored under `height`, with that height; `NotFound` where no
/// record is stored under exactly that key.
pub fn block_data(store: &Store, height: String) -> (r: Result<BlockDataResponse, ContractError>)
    ensures
        match block_data_spec(store@, height@) {
            Ok(v) => r is Ok && r->Ok_0@ == v,
            Err(e) => r is Err && r->Err_0 == e,
        },
{
    let anchoring = store.anchoring.may_load(&height);
    match anchoring {
        None => Err(ContractError::NotFound),
        Some(anchoring) => Ok(
            BlockDataResponse {
                height,
                block_hash: anchoring.block_hash,
                data_merkle: anchoring.data_merkle,
                timestamp: anchoring.timestamp,
            },
        ),
    }
}

/// The latest-height pointer. Fails only where none was ever saved, that is
/// before initialization.
pub fn latest_block(store: &Store) -> (r: Result<LatestBlockResponse, ContractError>)
    ensures
        match latest_block_spec(store@) {
            Ok(v) => r is Ok && r->Ok_0@ == v,
            Err(e) => r is Err && r->Err_0 == e,
        },
{
    match &store.latest {
        Some(l) => Ok(LatestBlockResponse { latest_height: l.clone() }),
        None => Err(ContractError::Storage(StorageError::MissingLatest)),
    }
}

} // verus!
