//! An owner-controlled anchoring ledger.
//!
//! The ledger records, for a sequence of external block heights, a block hash,
//! a content merkle root and a timestamp, together with a pointer to the most
//! recently acknowledged height. Every operation is a deterministic transition
//! on a [`state::Store`], whose view is the mathematical state that the
//! contracts speak of.

pub mod error;
pub mod execute;
pub mod handler;
pub mod laws;
pub mod msg;
pub mod query;
pub mod response;
pub mod state;
pub mod version;
