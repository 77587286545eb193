use vstd::prelude::*;
use crate::arith::{min_bal, sat_add, sat_sub, spec_sat_add, spec_sat_sub};
use crate::balances::BalanceTable;
use crate::events::Event;
use crate::options::AssetOptions;
use crate::permissions::{PermissionLatest, PermissionType, PermissionVersions, PermissionsV1};
use crate::registry::AssetMap;
use crate::types::{AccountId, AssetId, Balance, Error};

verus! {

/// The account that reserved-id asset creation credits when no explicit
/// target account is given.
pub const DEFAULT_ACCOUNT: AccountId = 0;

/// The multi-asset ledger: per-account free and reserved balances, per-asset
/// total issuance and permission set, the auto-assignment counter for asset
/// ids, the two well-known asset ids, and the notifications emitted so far.
pub struct GenericAsset {
    balances: BalanceTable,
    issuance: AssetMap<Balance>,
    permissions: AssetMap<PermissionVersions>,
    next_asset_id: AssetId,
    staking_asset_id: AssetId,
    spending_asset_id: AssetId,
    events: Vec<Event>,
}

impl GenericAsset {
    /// The internal stores hold at most one row per key.
    pub closed spec fn wf(self) -> bool {
        &&& self.balances.wf()
        &&& self.issuance.wf()
        &&& self.permissions.wf()
    }

    /// The free balance `account` holds of `asset_id` (zero if absent).
    pub closed spec fn spec_free(self, asset_id: AssetId, account: AccountId) -> Balance {
        self.balances.spec_free(asset_id, account)
    }

    /// The reserved balance `account` holds of `asset_id` (zero if absent).
    pub closed spec fn spec_reserved(self, asset_id: AssetId, account: AccountId) -> Balance {
        self.balances.spec_reserved(asset_id, account)
    }

    /// The total balance of an account: free plus reserved, saturating.
    pub open spec fn spec_total(self, asset_id: AssetId, account: AccountId) -> Balance {
        spec_sat_add(self.spec_free(asset_id, account), self.spec_reserved(asset_id, account))
    }

    /// The total issuance recorded for `asset_id` (zero if absent).
    pub closed spec fn spec_issuance(self, asset_id: AssetId) -> Balance {
        match self.issuance.spec_get(asset_id) {
            Some(v) => v,
            None => 0,
        }
    }

    /// Whether an issuance entry exists for `asset_id`; caller-chosen asset
    /// creation refuses an id for which one does.
    pub closed spec fn spec_has_asset(self, asset_id: AssetId) -> bool {
        self.issuance.spec_get(asset_id) is Some
    }

    /// The stored permission set of `asset_id`; an asset without one grants
    /// no capability.
    pub closed spec fn spec_permissions(self, asset_id: AssetId) -> PermissionVersions {
        match self.permissions.spec_get(asset_id) {
            Some(p) => p,
            None => PermissionVersions::V1(PermissionsV1::spec_empty()),
        }
    }

    /// Whether `who` holds the capability `what` on `asset_id`.
    pub open spec fn spec_check_permission(
        self,
        asset_id: AssetId,
        who: AccountId,
        what: PermissionType,
    ) -> bool {
        self.spec_permissions(asset_id).spec_latest().spec_allows(who, what)
    }

    /// The next asset id the auto-assignment path will hand out.
    pub closed spec fn spec_next_asset_id(self) -> AssetId {
        self.next_asset_id
    }

    /// The configured well-known staking asset id.
    pub closed spec fn spec_staking_asset_id(self) -> AssetId {
        self.staking_asset_id
    }

    /// The configured well-known spending asset id.
    pub closed spec fn spec_spending_asset_id(self) -> AssetId {
        self.spending_asset_id
    }

    /// The notifications emitted so far, oldest first.
    pub closed spec fn spec_events(self) -> Seq<Event> {
        self.events@
    }

    /// The sum over all accounts of free plus reserved balance of `asset_id`.
    pub closed spec fn spec_holdings(self, asset_id: AssetId) -> int {
        self.balances.spec_holdings(asset_id)
    }

    /// The conservation invariant for one asset: its recorded issuance
    /// equals the sum of all account balances of it.
    pub open spec fn conserved(self, asset_id: AssetId) -> bool {
        self.spec_issuance(asset_id) == self.spec_holdings(asset_id)
    }

    /// An account's own balances are bounded by the asset's holdings, and
    /// holdings are never negative.
    pub proof fn lemma_within_holdings(self, asset_id: AssetId, account: AccountId)
        ensures
            self.spec_free(asset_id, account) + self.spec_reserved(asset_id, account)
                <= self.spec_holdings(asset_id),
            self.spec_holdings(asset_id) >= 0,
    {
        self.balances.lemma_within_holdings(asset_id, account);
    }
}

/// Both ledgers record the same issuance entry for every asset.
pub open spec fn same_issuance(pre: GenericAsset, post: GenericAsset) -> bool {
    &&& forall|x: AssetId| #[trigger] post.spec_issuance(x) == pre.spec_issuance(x)
    &&& forall|x: AssetId| #[trigger] post.spec_has_asset(x) == pre.spec_has_asset(x)
}

/// Both ledgers record the same issuance entry for every asset but `except`.
pub open spec fn same_issuance_except(pre: GenericAsset, post: GenericAsset, except: AssetId) -> bool {
    &&& forall|x: AssetId| x != except ==> #[trigger] post.spec_issuance(x) == pre.spec_issuance(x)
    &&& forall|x: AssetId| x != except ==> #[trigger] post.spec_has_asset(x) == pre.spec_has_asset(x)
}

/// Both ledgers record the same permission set for every asset.
pub open spec fn same_permissions(pre: GenericAsset, post: GenericAsset) -> bool {
    forall|x: AssetId| #[trigger] post.spec_permissions(x) == pre.spec_permissions(x)
}

/// Both ledgers record the same permission set for every asset but `except`.
pub open spec fn same_permissions_except(pre: GenericAsset, post: GenericAsset, except: AssetId) -> bool {
    forall|x: AssetId| x != except ==> #[trigger] post.spec_permissions(x) == pre.spec_permissions(x)
}

/// Every account's free balance of every asset is unchanged.
pub open spec fn same_free(pre: GenericAsset, post: GenericAsset) -> bool {
    forall|x: AssetId, w: AccountId| #[trigger] post.spec_free(x, w) == pre.spec_free(x, w)
}

/// Every free balance is unchanged, except possibly those of `w1` and `w2`
/// under asset `a0`.
pub open spec fn same_free_except(
    pre: GenericAsset,
    post: GenericAsset,
    a0: AssetId,
    w1: AccountId,
    w2: AccountId,
) -> bool {
    forall|x: AssetId, w: AccountId| x != a0 || (w != w1 && w != w2)
        ==> #[trigger] post.spec_free(x, w) == pre.spec_free(x, w)
}

/// Every account's reserved balance of every asset is unchanged.
pub open spec fn same_reserved(pre: GenericAsset, post: GenericAsset) -> bool {
    forall|x: AssetId, w: AccountId| #[trigger] post.spec_reserved(x, w) == pre.spec_reserved(x, w)
}

/// Every reserved balance is unchanged, except possibly those of `w1` and
/// `w2` under asset `a0`.
pub open spec fn same_reserved_except(
    pre: GenericAsset,
    post: GenericAsset,
    a0: AssetId,
    w1: AccountId,
    w2: AccountId,
) -> bool {
    forall|x: AssetId, w: AccountId| x != a0 || (w != w1 && w != w2)
        ==> #[trigger] post.spec_reserved(x, w) == pre.spec_reserved(x, w)
}

/// Every asset's combined holdings are unchanged.
pub open spec fn same_holdings(pre: GenericAsset, post: GenericAsset) -> bool {
    forall|x: AssetId| #[trigger] post.spec_holdings(x) == pre.spec_holdings(x)
}

/// Every asset's combined holdings are unchanged, except possibly those of
/// `except`.
pub open spec fn same_holdings_except(pre: GenericAsset, post: GenericAsset, except: AssetId) -> bool {
    forall|x: AssetId| x != except ==> #[trigger] post.spec_holdings(x) == pre.spec_holdings(x)
}

/// The id counter and the two well-known asset ids are unchanged.
pub open spec fn same_config(pre: GenericAsset, post: GenericAsset) -> bool {
    &&& post.spec_next_asset_id() == pre.spec_next_asset_id()
    &&& post.spec_staking_asset_id() == pre.spec_staking_asset_id()
    &&& post.spec_spending_asset_id() == pre.spec_spending_asset_id()
}

/// No notification was emitted.
pub open spec fn same_events(pre: GenericAsset, post: GenericAsset) -> bool {
    post.spec_events() == pre.spec_events()
}

/// Every asset conserved before is conserved after.
pub open spec fn conservation_kept(pre: GenericAsset, post: GenericAsset) -> bool {
    forall|x: AssetId| pre.conserved(x) ==> #[trigger] post.conserved(x)
}

impl GenericAsset {
    /// A fresh ledger: no assets, no balances, no permissions, no events;
    /// the id counter starts at `next_asset_id` and every id below it forms
    /// the reserved space.
    pub fn new(
        staking_asset_id: AssetId,
        spending_asset_id: AssetId,
        next_asset_id: AssetId,
    ) -> (r: GenericAsset)
        ensures
            r.wf(),
            r.spec_staking_asset_id() == staking_asset_id,
            r.spec_spending_asset_id() == spending_asset_id,
            r.spec_next_asset_id() == next_asset_id,
            forall|x: AssetId, w: AccountId| #[trigger] r.spec_free(x, w) == 0,
            forall|x: AssetId, w: AccountId| #[trigger] r.spec_reserved(x, w) == 0,
            forall|x: AssetId| #[trigger] r.spec_issuance(x) == 0,
            forall|x: AssetId| !(#[trigger] r.spec_has_asset(x)),
            forall|x: AssetId| #[trigger] r.spec_permissions(x)
                == PermissionVersions::V1(PermissionsV1::spec_empty()),
            forall|x: AssetId| #[trigger] r.spec_holdings(x) == 0,
            r.spec_events() == Seq::<Event>::empty(),
    {
        let r = GenericAsset {
            balances: BalanceTable::new(),
            issuance: AssetMap::new(),
            permissions: AssetMap::new(),
            next_asset_id,
            staking_asset_id,
            spending_asset_id,
            events: Vec::new(),
        };
        proof {
            assert(r.events@ =~= Seq::<Event>::empty());
        }
        r
    }

    /// Reads the free balance of `(asset_id, account)`.
    pub fn free_balance(&self, asset_id: AssetId, account: AccountId) -> (r: Balance)
        requires
            self.wf(),
        ensures
            r == self.spec_free(asset_id, account),
    {
        self.balances.get(asset_id, account).free
    }

    /// Reads the reserved balance of `(asset_id, account)`.
    pub fn reserved_balance(&self, asset_id: AssetId, account: AccountId) -> (r: Balance)
        requires
            self.wf(),
        ensures
            r == self.spec_reserved(asset_id, account),
    {
        self.balances.get(asset_id, account).reserved
    }

    /// Reads the total balance of `(asset_id, account)`: free plus reserved,
    /// saturating.
    pub fn total_balance(&self, asset_id: AssetId, account: AccountId) -> (r: Balance)
        requires
            self.wf(),
        ensures
            r == self.spec_total(asset_id, account),
    {
        let rec = self.balances.get(asset_id, account);
        sat_add(rec.free, rec.reserved)
    }

    /// Reads the total issuance of `asset_id`.
    pub fn total_issuance(&self, asset_id: AssetId) -> (r: Balance)
        requires
            self.wf(),
        ensures
            r == self.spec_issuance(asset_id),
    {
        match self.issuance.get(asset_id) {
            Some(v) => v,
            None => 0,
        }
    }

    /// The next asset id the auto-assignment path will hand out.
    pub fn next_asset_id(&self) -> (r: AssetId)
        ensures
            r == self.spec_next_asset_id(),
    {
        self.next_asset_id
    }

    /// The configured well-known staking asset id.
    pub fn staking_asset_id(&self) -> (r: AssetId)
        ensures
            r == self.spec_staking_asset_id(),
    {
        self.staking_asset_id
    }

    /// The configured well-known spending asset id.
    pub fn spending_asset_id(&self) -> (r: AssetId)
        ensures
            r == self.spec_spending_asset_id(),
    {
        self.spending_asset_id
    }

    /// The notifications emitted so far, oldest first.
    pub fn events(&self) -> (r: &Vec<Event>)
        ensures
            r@ == self.spec_events(),
    {
        &self.events
    }

    /// Reads the stored permission set of `asset_id`.
    pub fn get_permission(&self, asset_id: AssetId) -> (r: PermissionVersions)
        requires
            self.wf(),
        ensures
            r == self.spec_permissions(asset_id),
    {
        match self.permissions.get(asset_id) {
            Some(p) => p,
            None => PermissionVersions::V1(PermissionsV1::default()),
        }
    }

    /// Whether `who` holds the capability `what` on `asset_id`.
    pub fn check_permission(
        &self,
        asset_id: AssetId,
        who: AccountId,
        what: &PermissionType,
    ) -> (r: bool)
        requires
            self.wf(),
        ensures
            r == self.spec_check_permission(asset_id, who, *what),
    {
        self.get_permission(asset_id).latest().allows(who, what)
    }

    /// Overwrites the free balance of `(asset_id, who)`.  An admin primitive:
    /// it does not touch total issuance, so the caller is responsible for
    /// keeping the conservation invariant when using it directly.
    pub fn set_free_balance(&mut self, asset_id: AssetId, who: AccountId, amount: Balance)
        requires
            old(self).wf(),
        ensures
            final(self).wf(),
            final(self).spec_free(asset_id, who) == amount,
            final(self).spec_reserved(asset_id, who) == old(self).spec_reserved(asset_id, who),
            same_free_except(*old(self), *final(self), asset_id, who, who),
            same_reserved(*old(self), *final(self)),
            same_issuance(*old(self), *final(self)),
            same_permissions(*old(self), *final(self)),
            same_config(*old(self), *final(self)),
            same_events(*old(self), *final(self)),
            final(self).spec_holdings(asset_id) == old(self).spec_holdings(asset_id)
                - old(self).spec_free(asset_id, who) + amount,
            same_holdings_except(*old(self), *final(self), asset_id),
    {
        let rec = self.balances.get(asset_id, who);
        self.balances.set(asset_id, who, amount, rec.reserved);
    }

    /// Overwrites the reserved balance of `(asset_id, who)`.  An admin
    /// primitive, like [`Self::set_free_balance`].
    pub fn set_reserved_balance(&mut self, asset_id: AssetId, who: AccountId, amount: Balance)
        requires
            old(self).wf(),
        ensures
            final(self).wf(),
            final(self).spec_reserved(asset_id, who) == amount,
            final(self).spec_free(asset_id, who) == old(self).spec_free(asset_id, who),
            same_reserved_except(*old(self), *final(self), asset_id, who, who),
            same_free(*old(self), *final(self)),
            same_issuance(*old(self), *final(self)),
            same_permissions(*old(self), *final(self)),
            same_config(*old(self), *final(self)),
            same_events(*old(self), *final(self)),
            final(self).spec_holdings(asset_id) == old(self).spec_holdings(asset_id)
                - old(self).spec_reserved(asset_id, who) + amount,
            same_holdings_except(*old(self), *final(self), asset_id),
    {
        let rec = self.balances.get(asset_id, who);
        self.balances.set(asset_id, who, rec.free, amount);
    }

    /// Stores a permission set for `asset_id` without any capability check.
    /// A genesis/admin primitive, mirroring how a deployment configures the
    /// owners of its well-known assets before ordinary operation starts.
    pub fn set_permission(&mut self, asset_id: AssetId, permissions: PermissionLatest)
        requires
            old(self).wf(),
        ensures
            final(self).wf(),
            final(self).spec_permissions(asset_id) == PermissionVersions::V1(permissions),
            same_permissions_except(*old(self), *final(self), asset_id),
            same_free(*old(self), *final(self)),
            same_reserved(*old(self), *final(self)),
            same_issuance(*old(self), *final(self)),
            same_config(*old(self), *final(self)),
            same_events(*old(self), *final(self)),
            same_holdings(*old(self), *final(self)),
            conservation_kept(*old(self), *final(self)),
    {
        self.permissions.set(asset_id, PermissionVersions::V1(permissions));
    }

    /// Genesis-style endowment: adds `amount` both to the total issuance of
    /// `asset_id` and to `account`'s free balance of it, so a ledger can be
    /// populated without going through asset creation.  Keeps conservation.
    pub fn endow(&mut self, asset_id: AssetId, account: AccountId, amount: Balance)
        requires
            old(self).wf(),
            old(self).spec_issuance(asset_id) + amount <= u64::MAX,
            old(self).spec_free(asset_id, account) + amount <= u64::MAX,
        ensures
            final(self).wf(),
            final(self).spec_issuance(asset_id) == old(self).spec_issuance(asset_id) + amount,
            final(self).spec_has_asset(asset_id),
            same_issuance_except(*old(self), *final(self), asset_id),
            final(self).spec_free(asset_id, account)
                == old(self).spec_free(asset_id, account) + amount,
            final(self).spec_reserved(asset_id, account)
                == old(self).spec_reserved(asset_id, account),
            same_free_except(*old(self), *final(self), asset_id, account, account),
            same_reserved(*old(self), *final(self)),
            same_permissions(*old(self), *final(self)),
            same_config(*old(self), *final(self)),
            same_events(*old(self), *final(self)),
            final(self).spec_holdings(asset_id) == old(self).spec_holdings(asset_id) + amount,
            same_holdings_except(*old(self), *final(self), asset_id),
            conservation_kept(*old(self), *final(self)),
    {
        let issued = self.total_issuance(asset_id);
        self.issuance.set(asset_id, issued + amount);
        let rec = self.balances.get(asset_id, account);
        self.balances.set(asset_id, account, rec.free + amount, rec.reserved);
    }

    /// Moves `amount` from `who`'s free balance into the reserved balance.
    /// Fails with `InsufficientBalance`, touching nothing, when the free
    /// balance does not cover the whole amount; no partial reservation.
    pub fn reserve(&mut self, asset_id: AssetId, who: AccountId, amount: Balance) -> (r: Result<
        (),
        Error,
    >)
        requires
            old(self).wf(),
            amount <= old(self).spec_free(asset_id, who)
                ==> old(self).spec_reserved(asset_id, who) + amount <= u64::MAX,
        ensures
            final(self).wf(),
            old(self).spec_free(asset_id, who) < amount
                ==> r == Err::<(), Error>(Error::InsufficientBalance)
                    && *final(self) == *old(self),
            amount <= old(self).spec_free(asset_id, who) ==> r == Ok::<(), Error>(()),
            amount <= old(self).spec_free(asset_id, who)
                ==> final(self).spec_free(asset_id, who)
                    == old(self).spec_free(asset_id, who) - amount,
            amount <= old(self).spec_free(asset_id, who)
                ==> final(self).spec_reserved(asset_id, who)
                    == old(self).spec_reserved(asset_id, who) + amount,
            same_free_except(*old(self), *final(self), asset_id, who, who),
            same_reserved_except(*old(self), *final(self), asset_id, who, who),
            same_issuance(*old(self), *final(self)),
            same_permissions(*old(self), *final(self)),
            same_config(*old(self), *final(self)),
            same_events(*old(self), *final(self)),
            same_holdings(*old(self), *final(self)),
            conservation_kept(*old(self), *final(self)),
    {
        let rec = self.balances.get(asset_id, who);
        if rec.free < amount {
            return Err(Error::InsufficientBalance);
        }
        self.balances.set(asset_id, who, rec.free - amount, rec.reserved + amount);
        Ok(())
    }

    /// Moves up to `amount` back from `who`'s reserved balance into the free
    /// balance and returns the unsatisfied remainder; never fails.  The
    /// remainder is `amount - reserved` when the reservation was smaller
    /// than `amount`, and zero otherwise.
    pub fn unreserve(&mut self, asset_id: AssetId, who: AccountId, amount: Balance) -> (r: Balance)
        requires
            old(self).wf(),
        ensures
            final(self).wf(),
            r == amount - min_bal(amount, old(self).spec_reserved(asset_id, who)),
            final(self).spec_reserved(asset_id, who) == old(self).spec_reserved(asset_id, who)
                - min_bal(amount, old(self).spec_reserved(asset_id, who)),
            final(self).spec_free(asset_id, who) == spec_sat_add(
                old(self).spec_free(asset_id, who),
                min_bal(amount, old(self).spec_reserved(asset_id, who)),
            ),
            same_free_except(*old(self), *final(self), asset_id, who, who),
            same_reserved_except(*old(self), *final(self), asset_id, who, who),
            same_issuance(*old(self), *final(self)),
            same_permissions(*old(self), *final(self)),
            same_config(*old(self), *final(self)),
            same_events(*old(self), *final(self)),
            final(self).spec_holdings(asset_id) == old(self).spec_holdings(asset_id)
                - old(self).spec_free(asset_id, who)
                - min_bal(amount, old(self).spec_reserved(asset_id, who))
                + final(self).spec_free(asset_id, who),
            same_holdings_except(*old(self), *final(self), asset_id),
            old(self).spec_free(asset_id, who)
                + min_bal(amount, old(self).spec_reserved(asset_id, who)) <= u64::MAX
                ==> conservation_kept(*old(self), *final(self)),
    {
        let rec = self.balances.get(asset_id, who);
        let actual = if amount <= rec.reserved {
            amount
        } else {
            rec.reserved
        };
        self.balances.set(asset_id, who, sat_add(rec.free, actual), rec.reserved - actual);
        amount - actual
    }

    /// Removes up to `amount` from `who`'s reserved balance.  Returns `None`
    /// when the whole amount was removed, `Some(shortfall)` otherwise.  Does
    /// not touch total issuance: tracking the removal against issuance is
    /// the caller's responsibility.
    pub fn slash_reserved(&mut self, asset_id: AssetId, who: AccountId, amount: Balance) -> (r:
        Option<Balance>)
        requires
            old(self).wf(),
        ensures
            final(self).wf(),
            r == (if amount <= old(self).spec_reserved(asset_id, who) {
                None
            } else {
                Some((amount - old(self).spec_reserved(asset_id, who)) as Balance)
            }),
            final(self).spec_reserved(asset_id, who) == old(self).spec_reserved(asset_id, who)
                - min_bal(amount, old(self).spec_reserved(asset_id, who)),
            final(self).spec_free(asset_id, who) == old(self).spec_free(asset_id, who),
            same_free(*old(self), *final(self)),
            same_reserved_except(*old(self), *final(self), asset_id, who, who),
            same_issuance(*old(self), *final(self)),
            same_permissions(*old(self), *final(self)),
            same_config(*old(self), *final(self)),
            same_events(*old(self), *final(self)),
            final(self).spec_holdings(asset_id) == old(self).spec_holdings(asset_id)
                - min_bal(amount, old(self).spec_reserved(asset_id, who)),
            same_holdings_except(*old(self), *final(self), asset_id),
    {
        let rec = self.balances.get(asset_id, who);
        let slashed = if amount <= rec.reserved {
            amount
        } else {
            rec.reserved
        };
        self.balances.set(asset_id, who, rec.free, rec.reserved - slashed);
        if slashed == amount {
            None
        } else {
            Some(amount - slashed)
        }
    }

    /// Removes up to `amount` from `who`'s free balance and, when that does
    /// not cover the whole amount, the rest from the reserved balance.
    /// Returns `None` when the whole amount was removed, `Some(shortfall)`
    /// otherwise.  Does not touch total issuance.
    pub fn slash(&mut self, asset_id: AssetId, who: AccountId, amount: Balance) -> (r: Option<
        Balance,
    >)
        requires
            old(self).wf(),
        ensures
            final(self).wf(),
            r == (if amount <= old(self).spec_free(asset_id, who)
                + old(self).spec_reserved(asset_id, who) {
                None
            } else {
                Some((amount - old(self).spec_free(asset_id, who)
                    - old(self).spec_reserved(asset_id, who)) as Balance)
            }),
            final(self).spec_free(asset_id, who) == old(self).spec_free(asset_id, who)
                - min_bal(amount, old(self).spec_free(asset_id, who)),
            final(self).spec_reserved(asset_id, who) == old(self).spec_reserved(asset_id, who)
                - min_bal(
                    (amount - min_bal(amount, old(self).spec_free(asset_id, who))) as Balance,
                    old(self).spec_reserved(asset_id, who),
                ),
            same_free_except(*old(self), *final(self), asset_id, who, who),
            same_reserved_except(*old(self), *final(self), asset_id, who, who),
            same_issuance(*old(self), *final(self)),
            same_permissions(*old(self), *final(self)),
            same_config(*old(self), *final(self)),
            same_events(*old(self), *final(self)),
            final(self).spec_holdings(asset_id) == old(self).spec_holdings(asset_id)
                - (if amount <= old(self).spec_free(asset_id, who)
                    + old(self).spec_reserved(asset_id, who) {
                    amount as int
                } else {
                    old(self).spec_free(asset_id, who) + old(self).spec_reserved(asset_id, who)
                }),
            same_holdings_except(*old(self), *final(self), asset_id),
    {
        let rec = self.balances.get(asset_id, who);
        let free_slash = if amount <= rec.free {
            amount
        } else {
            rec.free
        };
        self.balances.set(asset_id, who, rec.free - free_slash, rec.reserved);
        if free_slash < amount {
            self.slash_reserved(asset_id, who, amount - free_slash)
        } else {
            None
        }
    }

    /// Moves up to `amount` from `who`'s reserved balance into
    /// `beneficiary`'s free balance and returns the unsatisfied remainder;
    /// never fails.
    pub fn repatriate_reserved(
        &mut self,
        asset_id: AssetId,
        who: AccountId,
        beneficiary: AccountId,
        amount: Balance,
    ) -> (r: Balance)
        requires
            old(self).wf(),
        ensures
            final(self).wf(),
            r == amount - min_bal(amount, old(self).spec_reserved(asset_id, who)),
            final(self).spec_reserved(asset_id, who) == old(self).spec_reserved(asset_id, who)
                - min_bal(amount, old(self).spec_reserved(asset_id, who)),
            final(self).spec_free(asset_id, beneficiary) == spec_sat_add(
                old(self).spec_free(asset_id, beneficiary),
                min_bal(amount, old(self).spec_reserved(asset_id, who)),
            ),
            who != beneficiary ==> final(self).spec_free(asset_id, who)
                == old(self).spec_free(asset_id, who),
            who != beneficiary ==> final(self).spec_reserved(asset_id, beneficiary)
                == old(self).spec_reserved(asset_id, beneficiary),
            same_free_except(*old(self), *final(self), asset_id, beneficiary, beneficiary),
            same_reserved_except(*old(self), *final(self), asset_id, who, who),
            same_issuance(*old(self), *final(self)),
            same_permissions(*old(self), *final(self)),
            same_config(*old(self), *final(self)),
            same_events(*old(self), *final(self)),
            final(self).spec_holdings(asset_id) == old(self).spec_holdings(asset_id)
                - min_bal(amount, old(self).spec_reserved(asset_id, who))
                + final(self).spec_free(asset_id, beneficiary)
                - old(self).spec_free(asset_id, beneficiary),
            same_holdings_except(*old(self), *final(self), asset_id),
            old(self).spec_free(asset_id, beneficiary)
                + min_bal(amount, old(self).spec_reserved(asset_id, who)) <= u64::MAX
                ==> conservation_kept(*old(self), *final(self)),
    {
        let rec = self.balances.get(asset_id, who);
        let moved = if amount <= rec.reserved {
            amount
        } else {
            rec.reserved
        };
        if who == beneficiary {
            self.balances.set(asset_id, who, sat_add(rec.free, moved), rec.reserved - moved);
        } else {
            let ben = self.balances.get(asset_id, beneficiary);
            self.balances.set(asset_id, who, rec.free, rec.reserved - moved);
            self.balances.set(asset_id, beneficiary, sat_add(ben.free, moved), ben.reserved);
        }
        amount - moved
    }

    /// Moves `amount` from `origin`'s free balance to `to`'s.  Rejects a
    /// zero amount with `ZeroAmount` and an amount above the free balance
    /// with `InsufficientBalance`; either failure touches nothing.  A
    /// self-transfer passes the same checks but leaves the ledger unchanged.
    /// Total issuance is unaffected.
    pub fn transfer(
        &mut self,
        origin: AccountId,
        asset_id: AssetId,
        to: AccountId,
        amount: Balance,
    ) -> (r: Result<(), Error>)
        requires
            old(self).wf(),
            (to != origin && 0 < amount && amount <= old(self).spec_free(asset_id, origin))
                ==> old(self).spec_free(asset_id, to) + amount <= u64::MAX,
        ensures
            final(self).wf(),
            amount == 0 ==> r == Err::<(), Error>(Error::ZeroAmount) && *final(self) == *old(self),
            amount != 0 && old(self).spec_free(asset_id, origin) < amount
                ==> r == Err::<(), Error>(Error::InsufficientBalance)
                    && *final(self) == *old(self),
            amount != 0 && amount <= old(self).spec_free(asset_id, origin)
                ==> r == Ok::<(), Error>(()),
            amount != 0 && amount <= old(self).spec_free(asset_id, origin) && to == origin
                ==> *final(self) == *old(self),
            amount != 0 && amount <= old(self).spec_free(asset_id, origin) && to != origin
                ==> final(self).spec_free(asset_id, origin)
                    == old(self).spec_free(asset_id, origin) - amount
                    && final(self).spec_free(asset_id, to)
                        == old(self).spec_free(asset_id, to) + amount,
            same_free_except(*old(self), *final(self), asset_id, origin, to),
            same_reserved(*old(self), *final(self)),
            same_issuance(*old(self), *final(self)),
            same_permissions(*old(self), *final(self)),
            same_config(*old(self), *final(self)),
            same_events(*old(self), *final(self)),
            same_holdings(*old(self), *final(self)),
            conservation_kept(*old(self), *final(self)),
    {
        if amount == 0 {
            return Err(Error::ZeroAmount);
        }
        let rec = self.balances.get(asset_id, origin);
        if rec.free < amount {
            return Err(Error::InsufficientBalance);
        }
        if origin != to {
            let dest = self.balances.get(asset_id, to);
            self.balances.set(asset_id, origin, rec.free - amount, rec.reserved);
            self.balances.set(asset_id, to, dest.free + amount, dest.reserved);
        }
        Ok(())
    }

    /// Mints `amount` new units of `asset_id` into `to`'s free balance and
    /// raises the total issuance by the same amount, provided `who` holds
    /// the asset's mint capability; fails with `NoMintPermission` otherwise,
    /// touching nothing.  Emits a `Minted` notification on success.
    pub fn mint(
        &mut self,
        who: AccountId,
        asset_id: AssetId,
        to: AccountId,
        amount: Balance,
    ) -> (r: Result<(), Error>)
        requires
            old(self).wf(),
            old(self).spec_check_permission(asset_id, who, PermissionType::Mint)
                ==> old(self).spec_issuance(asset_id) + amount <= u64::MAX
                    && old(self).spec_free(asset_id, to) + amount <= u64::MAX,
        ensures
            final(self).wf(),
            !old(self).spec_check_permission(asset_id, who, PermissionType::Mint)
                ==> r == Err::<(), Error>(Error::NoMintPermission)
                    && *final(self) == *old(self),
            old(self).spec_check_permission(asset_id, who, PermissionType::Mint) ==> {
                &&& r == Ok::<(), Error>(())
                &&& final(self).spec_issuance(asset_id)
                    == old(self).spec_issuance(asset_id) + amount
                &&& final(self).spec_has_asset(asset_id)
                &&& same_issuance_except(*old(self), *final(self), asset_id)
                &&& final(self).spec_free(asset_id, to)
                    == old(self).spec_free(asset_id, to) + amount
                &&& final(self).spec_reserved(asset_id, to)
                    == old(self).spec_reserved(asset_id, to)
                &&& same_free_except(*old(self), *final(self), asset_id, to, to)
                &&& same_reserved(*old(self), *final(self))
                &&& final(self).spec_events()
                    == old(self).spec_events().push(Event::Minted(asset_id, to, amount))
                &&& final(self).spec_holdings(asset_id)
                    == old(self).spec_holdings(asset_id) + amount
                &&& same_holdings_except(*old(self), *final(self), asset_id)
            },
            same_permissions(*old(self), *final(self)),
            same_config(*old(self), *final(self)),
            conservation_kept(*old(self), *final(self)),
    {
        if !self.check_permission(asset_id, who, &PermissionType::Mint) {
            return Err(Error::NoMintPermission);
        }
        let issued = self.total_issuance(asset_id);
        self.issuance.set(asset_id, issued + amount);
        let rec = self.balances.get(asset_id, to);
        self.balances.set(asset_id, to, rec.free + amount, rec.reserved);
        self.events.push(Event::Minted(asset_id, to, amount));
        Ok(())
    }

    /// Burns up to `amount` units of `asset_id` out of `from`'s free
    /// balance and lowers the total issuance by up to `amount`, both
    /// saturating (a debit beyond what is held clamps at zero rather than
    /// failing), provided `who` holds the asset's burn capability; fails
    /// with `NoBurnPermission` otherwise, touching nothing.  Emits a
    /// `Burned` notification on success.  Conservation is kept whenever the
    /// burned amount is covered by `from`'s free balance.
    pub fn burn(
        &mut self,
        who: AccountId,
        asset_id: AssetId,
        from: AccountId,
        amount: Balance,
    ) -> (r: Result<(), Error>)
        requires
            old(self).wf(),
        ensures
            final(self).wf(),
            !old(self).spec_check_permission(asset_id, who, PermissionType::Burn)
                ==> r == Err::<(), Error>(Error::NoBurnPermission)
                    && *final(self) == *old(self),
            old(self).spec_check_permission(asset_id, who, PermissionType::Burn) ==> {
                &&& r == Ok::<(), Error>(())
                &&& final(self).spec_issuance(asset_id)
                    == spec_sat_sub(old(self).spec_issuance(asset_id), amount)
                &&& final(self).spec_has_asset(asset_id)
                &&& same_issuance_except(*old(self), *final(self), asset_id)
                &&& final(self).spec_free(asset_id, from)
                    == spec_sat_sub(old(self).spec_free(asset_id, from), amount)
                &&& final(self).spec_reserved(asset_id, from)
                    == old(self).spec_reserved(asset_id, from)
                &&& same_free_except(*old(self), *final(self), asset_id, from, from)
                &&& same_reserved(*old(self), *final(self))
                &&& final(self).spec_events()
                    == old(self).spec_events().push(Event::Burned(asset_id, from, amount))
                &&& final(self).spec_holdings(asset_id) == old(self).spec_holdings(asset_id)
                    - min_bal(amount, old(self).spec_free(asset_id, from))
                &&& same_holdings_except(*old(self), *final(self), asset_id)
            },
            same_permissions(*old(self), *final(self)),
            same_config(*old(self), *final(self)),
            forall|x: AssetId| x != asset_id && old(self).conserved(x)
                ==> #[trigger] final(self).conserved(x),
            (old(self).conserved(asset_id)
                && amount <= old(self).spec_free(asset_id, from))
                ==> final(self).conserved(asset_id),
    {
        if !self.check_permission(asset_id, who, &PermissionType::Burn) {
            return Err(Error::NoBurnPermission);
        }
        proof {
            old(self).lemma_within_holdings(asset_id, from);
        }
        let issued = self.total_issuance(asset_id);
        self.issuance.set(asset_id, sat_sub(issued, amount));
        let rec = self.balances.get(asset_id, from);
        self.balances.set(asset_id, from, sat_sub(rec.free, amount), rec.reserved);
        self.events.push(Event::Burned(asset_id, from, amount));
        Ok(())
    }

    /// Replaces the permission set of `asset_id` with `new_permissions`,
    /// provided `who` holds the asset's update capability; fails with
    /// `NoUpdatePermission` otherwise, touching nothing.  Emits a
    /// `PermissionUpdated` notification on success.  Only an existing
    /// update holder can grant capabilities, including to themself.
    pub fn update_permission(
        &mut self,
        who: AccountId,
        asset_id: AssetId,
        new_permissions: PermissionLatest,
    ) -> (r: Result<(), Error>)
        requires
            old(self).wf(),
        ensures
            final(self).wf(),
            !old(self).spec_check_permission(asset_id, who, PermissionType::Update)
                ==> r == Err::<(), Error>(Error::NoUpdatePermission)
                    && *final(self) == *old(self),
            old(self).spec_check_permission(asset_id, who, PermissionType::Update) ==> {
                &&& r == Ok::<(), Error>(())
                &&& final(self).spec_permissions(asset_id)
                    == PermissionVersions::V1(new_permissions)
                &&& same_permissions_except(*old(self), *final(self), asset_id)
                &&& final(self).spec_events() == old(self).spec_events().push(
                    Event::PermissionUpdated(asset_id, new_permissions),
                )
            },
            same_free(*old(self), *final(self)),
            same_reserved(*old(self), *final(self)),
            same_issuance(*old(self), *final(self)),
            same_config(*old(self), *final(self)),
            same_holdings(*old(self), *final(self)),
            conservation_kept(*old(self), *final(self)),
    {
        if !self.check_permission(asset_id, who, &PermissionType::Update) {
            return Err(Error::NoUpdatePermission);
        }
        self.permissions.set(asset_id, PermissionVersions::V1(new_permissions));
        self.events.push(Event::PermissionUpdated(asset_id, new_permissions));
        Ok(())
    }
}

/// The account credited by asset creation: the explicit one when given, the
/// default account otherwise.
pub open spec fn target_account(from_account: Option<AccountId>) -> AccountId {
    match from_account {
        Some(account) => account,
        None => DEFAULT_ACCOUNT,
    }
}

/// What a successful asset creation does: records the initial issuance and
/// the permission set under `id`, overwrites `target`'s free balance of the
/// new asset with the initial issuance, and touches nothing else.  The new
/// asset is conserved provided nobody held any balance of its id before.
pub open spec fn created(
    pre: GenericAsset,
    post: GenericAsset,
    id: AssetId,
    target: AccountId,
    options: AssetOptions,
) -> bool {
    &&& post.spec_issuance(id) == options.initial_issuance
    &&& post.spec_has_asset(id)
    &&& same_issuance_except(pre, post, id)
    &&& post.spec_free(id, target) == options.initial_issuance
    &&& post.spec_reserved(id, target) == pre.spec_reserved(id, target)
    &&& same_free_except(pre, post, id, target, target)
    &&& same_reserved(pre, post)
    &&& post.spec_permissions(id) == PermissionVersions::V1(options.permissions)
    &&& same_permissions_except(pre, post, id)
    &&& same_events(pre, post)
    &&& post.spec_staking_asset_id() == pre.spec_staking_asset_id()
    &&& post.spec_spending_asset_id() == pre.spec_spending_asset_id()
    &&& post.spec_holdings(id) == pre.spec_holdings(id) - pre.spec_free(id, target)
        + options.initial_issuance
    &&& same_holdings_except(pre, post, id)
    &&& (pre.spec_holdings(id) == 0 ==> post.conserved(id))
    &&& (forall|x: AssetId| x != id && pre.conserved(x) ==> #[trigger] post.conserved(x))
}

impl GenericAsset {
    /// Creates a new asset.  With `asset_id` given, the id must lie in the
    /// reserved space (below the current id counter) and must not already
    /// exist; the counter is left alone.  With `asset_id` absent, the next
    /// auto-assigned id is used and the counter advances by one, failing
    /// with `NoIdAvailable` instead of wrapping when it is exhausted.  The
    /// created asset's initial issuance is credited to `from_account`, or
    /// to the default account when none is given.
    pub fn create_asset(
        &mut self,
        asset_id: Option<AssetId>,
        from_account: Option<AccountId>,
        options: AssetOptions,
    ) -> (r: Result<AssetId, Error>)
        requires
            old(self).wf(),
        ensures
            final(self).wf(),
            asset_id matches Some(id) && old(self).spec_has_asset(id)
                ==> r == Err::<AssetId, Error>(Error::IdAlreadyTaken)
                    && *final(self) == *old(self),
            asset_id matches Some(id) && !old(self).spec_has_asset(id)
                && id >= old(self).spec_next_asset_id()
                ==> r == Err::<AssetId, Error>(Error::IdUnavailable)
                    && *final(self) == *old(self),
            asset_id matches Some(id) ==> (!old(self).spec_has_asset(id)
                && id < old(self).spec_next_asset_id() ==> {
                &&& r == Ok::<AssetId, Error>(id)
                &&& created(*old(self), *final(self), id, target_account(from_account), options)
                &&& final(self).spec_next_asset_id() == old(self).spec_next_asset_id()
            }),
            asset_id is None && old(self).spec_next_asset_id() == u32::MAX
                ==> r == Err::<AssetId, Error>(Error::NoIdAvailable)
                    && *final(self) == *old(self),
            asset_id is None && old(self).spec_next_asset_id() < u32::MAX ==> {
                &&& r == Ok::<AssetId, Error>(old(self).spec_next_asset_id())
                &&& created(
                    *old(self),
                    *final(self),
                    old(self).spec_next_asset_id(),
                    target_account(from_account),
                    options,
                )
                &&& final(self).spec_next_asset_id() == old(self).spec_next_asset_id() + 1
            },
            final(self).spec_staking_asset_id() == old(self).spec_staking_asset_id(),
            final(self).spec_spending_asset_id() == old(self).spec_spending_asset_id(),
            same_events(*old(self), *final(self)),
    {
        let id: AssetId = match asset_id {
            Some(chosen) => {
                if self.issuance.get(chosen).is_some() {
                    return Err(Error::IdAlreadyTaken);
                }
                if chosen >= self.next_asset_id {
                    return Err(Error::IdUnavailable);
                }
                chosen
            },
            None => {
                let next = self.next_asset_id;
                if next == u32::MAX {
                    return Err(Error::NoIdAvailable);
                }
                self.next_asset_id = next + 1;
                next
            },
        };
        let target: AccountId = match from_account {
            Some(account) => account,
            None => DEFAULT_ACCOUNT,
        };
        proof {
            old(self).lemma_within_holdings(id, target);
        }
        self.issuance.set(id, options.initial_issuance);
        let rec = self.balances.get(id, target);
        self.balances.set(id, target, options.initial_issuance, rec.reserved);
        self.permissions.set(id, PermissionVersions::V1(options.permissions));
        Ok(id)
    }

    /// Creates an asset under the next auto-assigned id and credits its
    /// initial issuance to `owner`.  The caller is assumed to have been
    /// authorized as root by the layer above.
    pub fn create(&mut self, owner: AccountId, options: AssetOptions) -> (r: Result<
        AssetId,
        Error,
    >)
        requires
            old(self).wf(),
        ensures
            final(self).wf(),
            old(self).spec_next_asset_id() == u32::MAX
                ==> r == Err::<AssetId, Error>(Error::NoIdAvailable)
                    && *final(self) == *old(self),
            old(self).spec_next_asset_id() < u32::MAX ==> {
                &&& r == Ok::<AssetId, Error>(old(self).spec_next_asset_id())
                &&& created(
                    *old(self),
                    *final(self),
                    old(self).spec_next_asset_id(),
                    owner,
                    options,
                )
                &&& final(self).spec_next_asset_id() == old(self).spec_next_asset_id() + 1
            },
            final(self).spec_staking_asset_id() == old(self).spec_staking_asset_id(),
            final(self).spec_spending_asset_id() == old(self).spec_spending_asset_id(),
            same_events(*old(self), *final(self)),
    {
        self.create_asset(None, Some(owner), options)
    }

    /// Creates an asset under the caller-chosen reserved id `asset_id` and
    /// credits its initial issuance to the default account.  The caller is
    /// assumed to have been authorized as root by the layer above.
    pub fn create_reserved(&mut self, asset_id: AssetId, options: AssetOptions) -> (r: Result<
        AssetId,
        Error,
    >)
        requires
            old(self).wf(),
        ensures
            final(self).wf(),
            old(self).spec_has_asset(asset_id)
                ==> r == Err::<AssetId, Error>(Error::IdAlreadyTaken)
                    && *final(self) == *old(self),
            !old(self).spec_has_asset(asset_id) && asset_id >= old(self).spec_next_asset_id()
                ==> r == Err::<AssetId, Error>(Error::IdUnavailable)
                    && *final(self) == *old(self),
            !old(self).spec_has_asset(asset_id) && asset_id < old(self).spec_next_asset_id()
                ==> {
                &&& r == Ok::<AssetId, Error>(asset_id)
                &&& created(*old(self), *final(self), asset_id, DEFAULT_ACCOUNT, options)
                &&& final(self).spec_next_asset_id() == old(self).spec_next_asset_id()
            },
            final(self).spec_staking_asset_id() == old(self).spec_staking_asset_id(),
            final(self).spec_spending_asset_id() == old(self).spec_spending_asset_id(),
            same_events(*old(self), *final(self)),
    {
        self.create_asset(Some(asset_id), None, options)
    }

    /// Raises the total issuance of `asset_id` by `amount`, saturating.
    /// Used when a positive imbalance is reconciled.
    pub(crate) fn issuance_saturating_add(&mut self, asset_id: AssetId, amount: Balance)
        requires
            old(self).wf(),
        ensures
            final(self).wf(),
            final(self).spec_issuance(asset_id)
                == spec_sat_add(old(self).spec_issuance(asset_id), amount),
            final(self).spec_has_asset(asset_id),
            same_issuance_except(*old(self), *final(self), asset_id),
            same_free(*old(self), *final(self)),
            same_reserved(*old(self), *final(self)),
            same_permissions(*old(self), *final(self)),
            same_config(*old(self), *final(self)),
            same_events(*old(self), *final(self)),
            same_holdings(*old(self), *final(self)),
    {
        let issued = self.total_issuance(asset_id);
        self.issuance.set(asset_id, sat_add(issued, amount));
    }

    /// Lowers the total issuance of `asset_id` by `amount`, saturating.
    /// Used when a negative imbalance is reconciled.
    pub(crate) fn issuance_saturating_sub(&mut self, asset_id: AssetId, amount: Balance)
        requires
            old(self).wf(),
        ensures
            final(self).wf(),
            final(self).spec_issuance(asset_id)
                == spec_sat_sub(old(self).spec_issuance(asset_id), amount),
            final(self).spec_has_asset(asset_id),
            same_issuance_except(*old(self), *final(self), asset_id),
            same_free(*old(self), *final(self)),
            same_reserved(*old(self), *final(self)),
            same_permissions(*old(self), *final(self)),
            same_config(*old(self), *final(self)),
            same_events(*old(self), *final(self)),
            same_holdings(*old(self), *final(self)),
    {
        let issued = self.total_issuance(asset_id);
        self.issuance.set(asset_id, sat_sub(issued, amount));
    }
}

} // verus!
