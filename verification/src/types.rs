use vstd::prelude::*;

verus! {

/// Identifier of a fungible asset type.  Identifiers below the ledger's
/// "next asset id" counter form the reserved space that privileged callers
/// may pick explicitly; identifiers at or above it are handed out by the
/// auto-assignment path.
pub type AssetId = u32;

/// Identifier of a balance-holding account.
pub type AccountId = u64;

/// An unsigned amount of some asset.
pub type Balance = u64;

/// Every failure an entry point of the ledger can report.  All of them are
/// local, recoverable conditions: an operation that fails leaves the ledger
/// untouched.
#[derive(Clone, Copy, Debug, PartialEq, Eq, Structural)]
pub enum Error {
    /// The auto-assigned asset-id counter is exhausted.
    NoIdAvailable,
    /// A caller-chosen asset id falls outside the reserved range.
    IdUnavailable,
    /// A caller-chosen reserved asset id already exists.
    IdAlreadyTaken,
    /// A transfer or reservation asked for more than the free balance holds.
    InsufficientBalance,
    /// A transfer of zero units was requested.
    ZeroAmount,
    /// The caller does not hold the asset's mint capability.
    NoMintPermission,
    /// The caller does not hold the asset's burn capability.
    NoBurnPermission,
    /// The caller does not hold the asset's update capability.
    NoUpdatePermission,
}

} // verus!
