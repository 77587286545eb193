use vstd::prelude::*;
use crate::permissions::PermissionLatest;
use crate::types::{AccountId, AssetId, Balance};

verus! {

/// A structured notification emitted by a privileged mutation, for the layer
/// above the ledger to log or broadcast as it sees fit.
#[derive(Clone, Copy, Debug, PartialEq, Eq, Structural)]
pub enum Event {
    PermissionUpdated(AssetId, PermissionLatest),
    Minted(AssetId, AccountId, Balance),
    Burned(AssetId, AccountId, Balance),
}

} // verus!
