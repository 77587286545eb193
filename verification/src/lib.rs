//! A verified multi-asset ledger.
//!
//! The crate tracks, for any number of distinct fungible asset types, the free
//! and reserved balance of every account, each asset's total issuance, and the
//! permission set that gates privileged mutations.  Every balance-affecting
//! operation carries a contract that pins down the new state exactly, and the
//! conservation law -- issuance changes match the sum of account balance
//! changes -- is stated and proved on the operations themselves.

pub mod arith;
pub mod balances;
pub mod events;
pub mod imbalance;
pub mod ledger;
pub mod options;
pub mod permissions;
pub mod registry;
pub mod types;

pub use arith::{spec_sat_add, spec_sat_sub, min_bal};
pub use events::Event;
pub use imbalance::{NegativeImbalance, PositiveImbalance};
pub use ledger::GenericAsset;
pub use options::{asset_options, AssetOptions};
pub use permissions::{Owner, PermissionLatest, PermissionType, PermissionVersions, PermissionsV1};
pub use types::{AccountId, AssetId, Balance, Error};
