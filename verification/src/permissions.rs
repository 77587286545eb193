use vstd::prelude::*;
use crate::types::AccountId;

verus! {

/// The holder of one capability slot: either nobody, or a single account.
#[derive(Clone, Copy, Debug, PartialEq, Eq, Structural)]
pub enum Owner {
    Nobody,
    Address(AccountId),
}

/// The first (and so far only) encoding of an asset's permission set: one
/// owner for each of the update, mint and burn capabilities.
#[derive(Clone, Copy, Debug, PartialEq, Eq, Structural)]
pub struct PermissionsV1 {
    pub update: Owner,
    pub mint: Owner,
    pub burn: Owner,
}

/// The active permission-set encoding.
pub type PermissionLatest = PermissionsV1;

/// Versioned storage form of a permission set, so that older encodings stay
/// decodable while all checks run against the latest version.
#[derive(Clone, Copy, Debug, PartialEq, Eq, Structural)]
pub enum PermissionVersions {
    V1(PermissionsV1),
}

/// The capability a permission check asks about.
#[derive(Clone, Copy, Debug, PartialEq, Eq, Structural)]
pub enum PermissionType {
    Burn,
    Mint,
    Update,
}

impl PermissionsV1 {
    /// The permission set that grants no capability at all.
    pub open spec fn spec_empty() -> PermissionsV1 {
        PermissionsV1 { update: Owner::Nobody, mint: Owner::Nobody, burn: Owner::Nobody }
    }

    /// Grants all three capabilities to one account.
    pub fn new(owner: AccountId) -> (r: PermissionsV1)
        ensures
            r == (PermissionsV1 {
                update: Owner::Address(owner),
                mint: Owner::Address(owner),
                burn: Owner::Address(owner),
            }),
    {
        PermissionsV1 {
            update: Owner::Address(owner),
            mint: Owner::Address(owner),
            burn: Owner::Address(owner),
        }
    }

    /// Whether `who` holds the capability `what` under this permission set.
    pub open spec fn spec_allows(self, who: AccountId, what: PermissionType) -> bool {
        match what {
            PermissionType::Update => self.update == Owner::Address(who),
            PermissionType::Mint => self.mint == Owner::Address(who),
            PermissionType::Burn => self.burn == Owner::Address(who),
        }
    }

    /// Runtime form of [`Self::spec_allows`].
    pub fn allows(&self, who: AccountId, what: &PermissionType) -> (r: bool)
        ensures
            r == self.spec_allows(who, *what),
    {
        let owner = match what {
            PermissionType::Update => self.update,
            PermissionType::Mint => self.mint,
            PermissionType::Burn => self.burn,
        };
        match owner {
            Owner::Address(account) => account == who,
            Owner::Nobody => false,
        }
    }
}

impl Default for PermissionsV1 {
    /// The default permission set grants nothing.
    fn default() -> (r: Self)
        ensures
            r == PermissionsV1::spec_empty(),
    {
        PermissionsV1 { update: Owner::Nobody, mint: Owner::Nobody, burn: Owner::Nobody }
    }
}

impl PermissionVersions {
    /// Upgrades a stored permission set to the active encoding.
    pub open spec fn spec_latest(self) -> PermissionsV1 {
        match self {
            PermissionVersions::V1(p) => p,
        }
    }

    /// Runtime form of [`Self::spec_latest`].
    pub fn latest(&self) -> (r: PermissionsV1)
        ensures
            r == self.spec_latest(),
    {
        match self {
            PermissionVersions::V1(p) => *p,
        }
    }
}

} // verus!
