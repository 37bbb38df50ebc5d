//! The errors that the ledger's operations report.

use vstd::prelude::*;

verus! {

/// A stored item that an operation had to read is absent.
#[derive(Debug, Clone, Copy, PartialEq, Eq, Structural)]
pub enum StorageError {
    /// No configuration has been saved: the ledger was never initialized.
    MissingConfig,
    /// No module version has been saved.
    MissingVersion,
    /// No latest-height pointer has been saved.
    MissingLatest,
}

/// Why a migration was refused.
#[derive(Debug, Clone, Copy, PartialEq, Eq, Structural)]
pub enum MigrationError {
    /// The stored module name differs from the name of the new code.
    WrongModule,
    /// The version of the new code is not strictly greater than the stored one.
    NotNewer,
}

/// Every way in which an operation on the ledger can fail.
#[derive(Debug, Clone, Copy, PartialEq, Eq, Structural)]
pub enum ContractError {
    /// The sender is not the configured owner.
    Unauthorized,
    /// No record is stored for the height that was asked for.
    NotFound,
    /// A stored item could not be read.
    Storage(StorageError),
    /// The migration guard refused the upgrade.
    Migration(MigrationError),
}

} // verus!
