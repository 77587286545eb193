use vstd::prelude::*;
use crate::arith::spec_sat_add;
use crate::ledger::{
    same_config, same_events, same_free, same_holdings, same_issuance_except, same_permissions,
    same_reserved, GenericAsset,
};
use crate::types::{AssetId, Balance};

verus! {

/// The sentinel asset id of an imbalance made without one: such an
/// imbalance is a wildcard and adopts its peer's asset id when combined.
pub const UNSET_ASSET_ID: AssetId = 0;

/// Whether two imbalances may be combined: their asset ids match, or at
/// least one of them is still the unset sentinel.
pub open spec fn compatible(a: AssetId, b: AssetId) -> bool {
    a == b || a == UNSET_ASSET_ID || b == UNSET_ASSET_ID
}

/// The asset id a combination of two compatible imbalances carries: the
/// first one, unless it is still the unset sentinel.
pub open spec fn combined_asset(a: AssetId, b: AssetId) -> AssetId {
    if a == UNSET_ASSET_ID {
        b
    } else {
        a
    }
}

/// A pending, not yet reconciled increase of one asset's total issuance:
/// newly created supply.  Every positive imbalance must eventually be
/// consumed, either by combining it with another imbalance or by settling
/// it into a ledger, which adds its amount to the asset's total issuance.
#[derive(Debug)]
pub struct PositiveImbalance {
    pub amount: Balance,
    pub asset_id: AssetId,
}

/// A pending, not yet reconciled decrease of one asset's total issuance:
/// destroyed supply.  Must eventually be consumed like its positive
/// counterpart; settling subtracts its amount from the total issuance.
#[derive(Debug)]
pub struct NegativeImbalance {
    pub amount: Balance,
    pub asset_id: AssetId,
}

impl PositiveImbalance {
    /// What merging `other` into this imbalance yields: the saturating sum
    /// of the amounts under the matching asset id, with an unset id
    /// adopting the peer's.  Incompatible asset ids leave the imbalance
    /// unchanged, dropping `other`: a deliberately permissive fallback that
    /// mirrors how the combination refuses to mix assets.
    pub open spec fn spec_merge(self, other: PositiveImbalance) -> PositiveImbalance {
        if compatible(self.asset_id, other.asset_id) {
            PositiveImbalance {
                amount: spec_sat_add(self.amount, other.amount),
                asset_id: combined_asset(self.asset_id, other.asset_id),
            }
        } else {
            self
        }
    }

    /// What offsetting `other` against this imbalance yields: the residual
    /// carries the difference of the amounts and the polarity of the larger
    /// side (an exact tie leaves a zero imbalance of this polarity), under
    /// the shared asset id.  Incompatible asset ids leave the imbalance
    /// unchanged, dropping `other`.
    pub open spec fn spec_offset(self, other: NegativeImbalance) -> Result<
        PositiveImbalance,
        NegativeImbalance,
    > {
        if compatible(self.asset_id, other.asset_id) {
            let asset_id = combined_asset(self.asset_id, other.asset_id);
            if self.amount >= other.amount {
                Ok(PositiveImbalance { amount: (self.amount - other.amount) as Balance, asset_id })
            } else {
                Err(NegativeImbalance { amount: (other.amount - self.amount) as Balance, asset_id })
            }
        } else {
            Ok(self)
        }
    }

    /// An imbalance of nothing: zero amount, unset asset id.  The identity
    /// element of merging.
    pub fn zero() -> (r: PositiveImbalance)
        ensures
            r == (PositiveImbalance { amount: 0, asset_id: UNSET_ASSET_ID }),
    {
        PositiveImbalance { amount: 0, asset_id: UNSET_ASSET_ID }
    }

    /// An imbalance of `amount` units of `asset_id`.
    pub fn new(amount: Balance, asset_id: AssetId) -> (r: PositiveImbalance)
        ensures
            r == (PositiveImbalance { amount, asset_id }),
    {
        PositiveImbalance { amount, asset_id }
    }

    /// Reads the pending amount without consuming the imbalance.
    pub fn peek(&self) -> (r: Balance)
        ensures
            r == self.amount,
    {
        self.amount
    }

    /// Reads the asset id without consuming the imbalance.
    pub fn asset_id(&self) -> (r: AssetId)
        ensures
            r == self.asset_id,
    {
        self.asset_id
    }

    /// Combines two positive imbalances into one; see [`Self::spec_merge`].
    pub fn merge(self, other: PositiveImbalance) -> (r: PositiveImbalance)
        ensures
            r == self.spec_merge(other),
    {
        if self.asset_id == other.asset_id || self.asset_id == UNSET_ASSET_ID
            || other.asset_id == UNSET_ASSET_ID {
            let asset_id = if self.asset_id == UNSET_ASSET_ID {
                other.asset_id
            } else {
                self.asset_id
            };
            PositiveImbalance { amount: crate::arith::sat_add(self.amount, other.amount), asset_id }
        } else {
            self
        }
    }

    /// Merges `other` into this imbalance in place; the in-place form of
    /// [`Self::merge`].
    pub fn subsume(&mut self, other: PositiveImbalance)
        ensures
            *final(self) == old(self).spec_merge(other),
    {
        let merged = PositiveImbalance { amount: self.amount, asset_id: self.asset_id }.merge(
            other,
        );
        self.amount = merged.amount;
        self.asset_id = merged.asset_id;
    }

    /// Cancels `other` against this imbalance; see [`Self::spec_offset`].
    pub fn offset(self, other: NegativeImbalance) -> (r: Result<
        PositiveImbalance,
        NegativeImbalance,
    >)
        ensures
            r == self.spec_offset(other),
    {
        if self.asset_id == other.asset_id || self.asset_id == UNSET_ASSET_ID
            || other.asset_id == UNSET_ASSET_ID {
            let asset_id = if self.asset_id == UNSET_ASSET_ID {
                other.asset_id
            } else {
                self.asset_id
            };
            if self.amount >= other.amount {
                Ok(PositiveImbalance { amount: self.amount - other.amount, asset_id })
            } else {
                Err(NegativeImbalance { amount: other.amount - self.amount, asset_id })
            }
        } else {
            Ok(self)
        }
    }

    /// Consumes the imbalance and reconciles it into the ledger: the
    /// asset's total issuance rises by the pending amount, saturating.
    /// Nothing else changes.
    pub fn settle(self, ledger: &mut GenericAsset)
        requires
            old(ledger).wf(),
        ensures
            final(ledger).wf(),
            final(ledger).spec_issuance(self.asset_id)
                == spec_sat_add(old(ledger).spec_issuance(self.asset_id), self.amount),
            final(ledger).spec_has_asset(self.asset_id),
            same_issuance_except(*old(ledger), *final(ledger), self.asset_id),
            same_free(*old(ledger), *final(ledger)),
            same_reserved(*old(ledger), *final(ledger)),
            same_permissions(*old(ledger), *final(ledger)),
            same_config(*old(ledger), *final(ledger)),
            same_events(*old(ledger), *final(ledger)),
            same_holdings(*old(ledger), *final(ledger)),
    {
        ledger.issuance_saturating_add(self.asset_id, self.amount);
    }
}

impl NegativeImbalance {
    /// What merging `other` into this imbalance yields; the mirror of
    /// [`PositiveImbalance::spec_merge`].
    pub open spec fn spec_merge(self, other: NegativeImbalance) -> NegativeImbalance {
        if compatible(self.asset_id, other.asset_id) {
            NegativeImbalance {
                amount: spec_sat_add(self.amount, other.amount),
                asset_id: combined_asset(self.asset_id, other.asset_id),
            }
        } else {
            self
        }
    }

    /// What offsetting `other` against this imbalance yields; the mirror of
    /// [`PositiveImbalance::spec_offset`].
    pub open spec fn spec_offset(self, other: PositiveImbalance) -> Result<
        NegativeImbalance,
        PositiveImbalance,
    > {
        if compatible(self.asset_id, other.asset_id) {
            let asset_id = combined_asset(self.asset_id, other.asset_id);
            if self.amount >= other.amount {
                Ok(NegativeImbalance { amount: (self.amount - other.amount) as Balance, asset_id })
            } else {
                Err(PositiveImbalance { amount: (other.amount - self.amount) as Balance, asset_id })
            }
        } else {
            Ok(self)
        }
    }

    /// An imbalance of nothing: zero amount, unset asset id.
    pub fn zero() -> (r: NegativeImbalance)
        ensures
            r == (NegativeImbalance { amount: 0, asset_id: UNSET_ASSET_ID }),
    {
        NegativeImbalance { amount: 0, asset_id: UNSET_ASSET_ID }
    }

    /// An imbalance of `amount` units of `asset_id`.
    pub fn new(amount: Balance, asset_id: AssetId) -> (r: NegativeImbalance)
        ensures
            r == (NegativeImbalance { amount, asset_id }),
    {
        NegativeImbalance { amount, asset_id }
    }

    /// Reads the pending amount without consuming the imbalance.
    pub fn peek(&self) -> (r: Balance)
        ensures
            r == self.amount,
    {
        self.amount
    }

    /// Reads the asset id without consuming the imbalance.
    pub fn asset_id(&self) -> (r: AssetId)
        ensures
            r == self.asset_id,
    {
        self.asset_id
    }

    /// Combines two negative imbalances into one; see [`Self::spec_merge`].
    pub fn merge(self, other: NegativeImbalance) -> (r: NegativeImbalance)
        ensures
            r == self.spec_merge(other),
    {
        if self.asset_id == other.asset_id || self.asset_id == UNSET_ASSET_ID
            || other.asset_id == UNSET_ASSET_ID {
            let asset_id = if self.asset_id == UNSET_ASSET_ID {
                other.asset_id
            } else {
                self.asset_id
            };
            NegativeImbalance { amount: crate::arith::sat_add(self.amount, other.amount), asset_id }
        } else {
            self
        }
    }

    /// Merges `other` into this imbalance in place.
    pub fn subsume(&mut self, other: NegativeImbalance)
        ensures
            *final(self) == old(self).spec_merge(other),
    {
        let merged = NegativeImbalance { amount: self.amount, asset_id: self.asset_id }.merge(
            other,
        );
        self.amount = merged.amount;
        self.asset_id = merged.asset_id;
    }

    /// Cancels `other` against this imbalance; see [`Self::spec_offset`].
    pub fn offset(self, other: PositiveImbalance) -> (r: Result<
        NegativeImbalance,
        PositiveImbalance,
    >)
        ensures
            r == self.spec_offset(other),
    {
        if self.asset_id == other.asset_id || self.asset_id == UNSET_ASSET_ID
            || other.asset_id == UNSET_ASSET_ID {
            let asset_id = if self.asset_id == UNSET_ASSET_ID {
                other.asset_id
            } else {
                self.asset_id
            };
            if self.amount >= other.amount {
                Ok(NegativeImbalance { amount: self.amount - other.amount, asset_id })
            } else {
                Err(PositiveImbalance { amount: other.amount - self.amount, asset_id })
            }
        } else {
            Ok(self)
        }
    }

    /// Consumes the imbalance and reconciles it into the ledger: the
    /// asset's total issuance falls by the pending amount, saturating.
    /// Nothing else changes.
    pub fn settle(self, ledger: &mut GenericAsset)
        requires
            old(ledger).wf(),
        ensures
            final(ledger).wf(),
            final(ledger).spec_issuance(self.asset_id)
                == crate::arith::spec_sat_sub(old(ledger).spec_issuance(self.asset_id), self.amount),
            final(ledger).spec_has_asset(self.asset_id),
            same_issuance_except(*old(ledger), *final(ledger), self.asset_id),
            same_free(*old(ledger), *final(ledger)),
            same_reserved(*old(ledger), *final(ledger)),
            same_permissions(*old(ledger), *final(ledger)),
            same_config(*old(ledger), *final(ledger)),
            same_events(*old(ledger), *final(ledger)),
            same_holdings(*old(ledger), *final(ledger)),
    {
        ledger.issuance_saturating_sub(self.asset_id, self.amount);
    }
}

/// Merging positive imbalances is commutative: with compatible asset ids,
/// either order yields the same amount and the same asset id.
pub proof fn lemma_positive_merge_commutative(a: PositiveImbalance, b: PositiveImbalance)
    requires
        compatible(a.asset_id, b.asset_id),
    ensures
        a.spec_merge(b) == b.spec_merge(a),
{
}

/// Merging negative imbalances is commutative, as for positive ones.
pub proof fn lemma_negative_merge_commutative(a: NegativeImbalance, b: NegativeImbalance)
    requires
        compatible(a.asset_id, b.asset_id),
    ensures
        a.spec_merge(b) == b.spec_merge(a),
{
}

/// Merging positive imbalances is associative: when the asset ids combine
/// pairwise, grouping does not matter.
pub proof fn lemma_positive_merge_associative(
    a: PositiveImbalance,
    b: PositiveImbalance,
    c: PositiveImbalance,
)
    requires
        compatible(a.asset_id, b.asset_id),
        compatible(combined_asset(a.asset_id, b.asset_id), c.asset_id),
    ensures
        compatible(b.asset_id, c.asset_id),
        compatible(a.asset_id, combined_asset(b.asset_id, c.asset_id)),
        a.spec_merge(b).spec_merge(c) == a.spec_merge(b.spec_merge(c)),
{
}

/// Merging negative imbalances is associative, as for positive ones.
pub proof fn lemma_negative_merge_associative(
    a: NegativeImbalance,
    b: NegativeImbalance,
    c: NegativeImbalance,
)
    requires
        compatible(a.asset_id, b.asset_id),
        compatible(combined_asset(a.asset_id, b.asset_id), c.asset_id),
    ensures
        compatible(b.asset_id, c.asset_id),
        compatible(a.asset_id, combined_asset(b.asset_id, c.asset_id)),
        a.spec_merge(b).spec_merge(c) == a.spec_merge(b.spec_merge(c)),
{
}

/// Merging a zero imbalance is a no-op on the amount and adopts the peer's
/// asset id, in either order.
pub proof fn lemma_positive_merge_zero(a: PositiveImbalance)
    ensures
        a.spec_merge(PositiveImbalance { amount: 0, asset_id: UNSET_ASSET_ID }) == a,
        (PositiveImbalance { amount: 0, asset_id: UNSET_ASSET_ID }).spec_merge(a) == a,
{
}

/// The negative mirror of [`lemma_positive_merge_zero`].
pub proof fn lemma_negative_merge_zero(a: NegativeImbalance)
    ensures
        a.spec_merge(NegativeImbalance { amount: 0, asset_id: UNSET_ASSET_ID }) == a,
        (NegativeImbalance { amount: 0, asset_id: UNSET_ASSET_ID }).spec_merge(a) == a,
{
}

/// Offsetting is commutative in amount: whichever side the cancellation is
/// run from, the residual carries the same amount and the same asset id.
pub proof fn lemma_offset_commutative_amount(p: PositiveImbalance, n: NegativeImbalance)
    requires
        compatible(p.asset_id, n.asset_id),
    ensures
        match (p.spec_offset(n), n.spec_offset(p)) {
            (Ok(r1), Ok(r2)) => r1.amount == r2.amount && r1.asset_id == r2.asset_id,
            (Ok(r1), Err(r2)) => r1.amount == r2.amount && r1.asset_id == r2.asset_id,
            (Err(r1), Ok(r2)) => r1.amount == r2.amount && r1.asset_id == r2.asset_id,
            (Err(r1), Err(r2)) => r1.amount == r2.amount && r1.asset_id == r2.asset_id,
        },
{
}

/// Offsetting two negative imbalances one after the other equals offsetting
/// their merge, provided the asset ids combine pairwise and the merged
/// amount does not saturate: cancellation is associative with merging.  A
/// positive residual keeps absorbing the next negative imbalance by
/// offsetting; a negative residual absorbs it by merging.
pub proof fn lemma_offset_merge_associative(
    p: PositiveImbalance,
    n1: NegativeImbalance,
    n2: NegativeImbalance,
)
    requires
        compatible(n1.asset_id, n2.asset_id),
        compatible(p.asset_id, combined_asset(n1.asset_id, n2.asset_id)),
        n1.amount + n2.amount <= u64::MAX,
    ensures
        (match p.spec_offset(n1) {
            Ok(residual) => residual.spec_offset(n2),
            Err(residual) => Err(residual.spec_merge(n2)),
        }) == p.spec_offset(n1.spec_merge(n2)),
{
}

} // verus!
