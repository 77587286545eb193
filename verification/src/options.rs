use vstd::prelude::*;
use crate::permissions::PermissionLatest;
use crate::types::Balance;

verus! {

/// The creation-time parameter bundle of an asset: how many units exist at
/// birth, and who holds which capability.  It is applied once and not kept.
#[derive(Clone, Copy, Debug, PartialEq, Eq, Structural)]
pub struct AssetOptions {
    pub initial_issuance: Balance,
    pub permissions: PermissionLatest,
}

/// Bundles an initial issuance and a permission set into [`AssetOptions`].
pub fn asset_options(initial_issuance: Balance, permissions: PermissionLatest) -> (r: AssetOptions)
    ensures
        r == (AssetOptions { initial_issuance, permissions }),
{
    AssetOptions { initial_issuance, permissions }
}

} // verus!
