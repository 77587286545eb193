use vstd::prelude::*;
use crate::types::{AccountId, AssetId, Balance};

verus! {

/// One stored row of the balance ledger: the free and the reserved balance
/// that `account` holds of asset `asset_id`.
#[derive(Clone, Copy, Debug)]
pub struct BalanceRecord {
    pub asset_id: AssetId,
    pub account: AccountId,
    pub free: Balance,
    pub reserved: Balance,
}

/// The record an account holds of an asset it was never given: all zero.
pub open spec fn empty_record(asset_id: AssetId, account: AccountId) -> BalanceRecord {
    BalanceRecord { asset_id, account, free: 0, reserved: 0 }
}

/// The row stored under `(asset_id, account)`, or the empty record when the
/// sequence holds none.
pub open spec fn record_at(s: Seq<BalanceRecord>, asset_id: AssetId, account: AccountId) -> BalanceRecord
    decreases s.len(),
{
    if s.len() == 0 {
        empty_record(asset_id, account)
    } else if s.last().asset_id == asset_id && s.last().account == account {
        s.last()
    } else {
        record_at(s.drop_last(), asset_id, account)
    }
}

/// What one row adds to the combined holdings of `asset_id`.
pub open spec fn row_amount(r: BalanceRecord, asset_id: AssetId) -> int {
    if r.asset_id == asset_id {
        r.free + r.reserved
    } else {
        0
    }
}

/// The combined holdings of `asset_id` over all stored rows: the sum of
/// every account's free plus reserved balance.
pub open spec fn holdings(s: Seq<BalanceRecord>, asset_id: AssetId) -> int
    decreases s.len(),
{
    if s.len() == 0 {
        0
    } else {
        holdings(s.drop_last(), asset_id) + row_amount(s.last(), asset_id)
    }
}

/// No two rows share a key, so each `(asset, account)` pair has one record.
pub open spec fn distinct_keys(s: Seq<BalanceRecord>) -> bool {
    forall|i: int, j: int| #![trigger s[i], s[j]]
        0 <= i < j < s.len() ==> !(s[i].asset_id == s[j].asset_id && s[i].account == s[j].account)
}

proof fn lemma_distinct_drop_last(s: Seq<BalanceRecord>)
    requires
        distinct_keys(s),
        s.len() > 0,
    ensures
        distinct_keys(s.drop_last()),
{
    assert forall|i: int, j: int| #![trigger s.drop_last()[i], s.drop_last()[j]]
        0 <= i < j < s.drop_last().len() implies !(s.drop_last()[i].asset_id
        == s.drop_last()[j].asset_id && s.drop_last()[i].account == s.drop_last()[j].account) by {
        assert(s.drop_last()[i] == s[i]);
        assert(s.drop_last()[j] == s[j]);
    }
}

/// The stored key of a row is the key it is found under.
proof fn lemma_record_at_keys(s: Seq<BalanceRecord>, asset_id: AssetId, account: AccountId)
    ensures
        record_at(s, asset_id, account).asset_id == asset_id,
        record_at(s, asset_id, account).account == account,
    decreases s.len(),
{
    if s.len() > 0 && !(s.last().asset_id == asset_id && s.last().account == account) {
        lemma_record_at_keys(s.drop_last(), asset_id, account);
    }
}

/// A row present at index `i` of a duplicate-free sequence is the row its
/// key looks up to.
proof fn lemma_record_at_index(s: Seq<BalanceRecord>, i: int)
    requires
        distinct_keys(s),
        0 <= i < s.len(),
    ensures
        record_at(s, s[i].asset_id, s[i].account) == s[i],
    decreases s.len(),
{
    if i == s.len() - 1 {
        assert(s.last() == s[i]);
    } else {
        lemma_distinct_drop_last(s);
        assert(!(s.last().asset_id == s[i].asset_id && s.last().account == s[i].account));
        assert(s.drop_last()[i] == s[i]);
        lemma_record_at_index(s.drop_last(), i);
    }
}

/// A key stored in no row looks up to the empty record.
proof fn lemma_record_at_absent(s: Seq<BalanceRecord>, asset_id: AssetId, account: AccountId)
    requires
        forall|i: int| 0 <= i < s.len()
            ==> !((#[trigger] s[i]).asset_id == asset_id && s[i].account == account),
    ensures
        record_at(s, asset_id, account) == empty_record(asset_id, account),
    decreases s.len(),
{
    if s.len() > 0 {
        assert(s[s.len() - 1] == s.last());
        assert forall|i: int| 0 <= i < s.drop_last().len()
            implies !((#[trigger] s.drop_last()[i]).asset_id == asset_id
            && s.drop_last()[i].account == account) by {
            assert(s.drop_last()[i] == s[i]);
        }
        lemma_record_at_absent(s.drop_last(), asset_id, account);
    }
}

/// Replacing the one row of a key rewrites exactly that key's record, leaves
/// every other record alone, and shifts each asset's holdings by the
/// difference between the new and the old row.
proof fn lemma_update_record(s: Seq<BalanceRecord>, i: int, r: BalanceRecord)
    requires
        distinct_keys(s),
        0 <= i < s.len(),
        r.asset_id == s[i].asset_id,
        r.account == s[i].account,
    ensures
        distinct_keys(s.update(i, r)),
        record_at(s.update(i, r), r.asset_id, r.account) == r,
        forall|a: AssetId, w: AccountId| !(a == r.asset_id && w == r.account)
            ==> #[trigger] record_at(s.update(i, r), a, w) == record_at(s, a, w),
        forall|x: AssetId| #[trigger] holdings(s.update(i, r), x)
            == holdings(s, x) - row_amount(s[i], x) + row_amount(r, x),
    decreases s.len(),
{
    let t = s.update(i, r);
    assert forall|i2: int, j2: int| #![trigger t[i2], t[j2]]
        0 <= i2 < j2 < t.len() implies !(t[i2].asset_id == t[j2].asset_id
        && t[i2].account == t[j2].account) by {
        assert(t[i2].asset_id == s[i2].asset_id && t[i2].account == s[i2].account);
        assert(t[j2].asset_id == s[j2].asset_id && t[j2].account == s[j2].account);
    }
    if i == s.len() - 1 {
        assert(t.last() == r);
        assert(t.drop_last() =~= s.drop_last());
        assert(s.last() == s[i]);
        assert forall|a: AssetId, w: AccountId| !(a == r.asset_id && w == r.account)
            implies #[trigger] record_at(t, a, w) == record_at(s, a, w) by {
            assert(record_at(t, a, w) == record_at(s.drop_last(), a, w));
            assert(record_at(s, a, w) == record_at(s.drop_last(), a, w));
        }
        assert forall|x: AssetId| #[trigger] holdings(t, x)
            == holdings(s, x) - row_amount(s[i], x) + row_amount(r, x) by {
            assert(holdings(t, x) == holdings(s.drop_last(), x) + row_amount(r, x));
            assert(holdings(s, x) == holdings(s.drop_last(), x) + row_amount(s[i], x));
        }
    } else {
        lemma_distinct_drop_last(s);
        assert(s.drop_last()[i] == s[i]);
        lemma_update_record(s.drop_last(), i, r);
        assert(t.last() == s.last());
        assert(t.drop_last() =~= s.drop_last().update(i, r));
        assert(!(s.last().asset_id == r.asset_id && s.last().account == r.account));
        assert(record_at(t, r.asset_id, r.account) == record_at(t.drop_last(), r.asset_id, r.account));
        assert forall|a: AssetId, w: AccountId| !(a == r.asset_id && w == r.account)
            implies #[trigger] record_at(t, a, w) == record_at(s, a, w) by {
            if s.last().asset_id == a && s.last().account == w {
                assert(record_at(t, a, w) == t.last());
                assert(record_at(s, a, w) == s.last());
            } else {
                assert(record_at(t, a, w) == record_at(t.drop_last(), a, w));
                assert(record_at(s, a, w) == record_at(s.drop_last(), a, w));
            }
        }
        assert forall|x: AssetId| #[trigger] holdings(t, x)
            == holdings(s, x) - row_amount(s[i], x) + row_amount(r, x) by {
            assert(holdings(t, x) == holdings(t.drop_last(), x) + row_amount(s.last(), x));
            assert(holdings(s, x) == holdings(s.drop_last(), x) + row_amount(s.last(), x));
        }
    }
}

/// Appending a row with a fresh key adds exactly that record and adds its
/// row_amountution to the holdings of its asset.
proof fn lemma_push_record(s: Seq<BalanceRecord>, r: BalanceRecord)
    requires
        distinct_keys(s),
        forall|i: int| 0 <= i < s.len()
            ==> !((#[trigger] s[i]).asset_id == r.asset_id && s[i].account == r.account),
    ensures
        distinct_keys(s.push(r)),
        record_at(s.push(r), r.asset_id, r.account) == r,
        forall|a: AssetId, w: AccountId| !(a == r.asset_id && w == r.account)
            ==> #[trigger] record_at(s.push(r), a, w) == record_at(s, a, w),
        forall|x: AssetId| #[trigger] holdings(s.push(r), x) == holdings(s, x) + row_amount(r, x),
{
    let t = s.push(r);
    assert(t.drop_last() =~= s);
    assert(t.last() == r);
    assert forall|i2: int, j2: int| #![trigger t[i2], t[j2]]
        0 <= i2 < j2 < t.len() implies !(t[i2].asset_id == t[j2].asset_id
        && t[i2].account == t[j2].account) by {
        if j2 < s.len() {
            assert(t[i2] == s[i2]);
            assert(t[j2] == s[j2]);
        } else {
            assert(t[j2] == r);
            assert(t[i2] == s[i2]);
        }
    }
    assert forall|a: AssetId, w: AccountId| !(a == r.asset_id && w == r.account)
        implies #[trigger] record_at(t, a, w) == record_at(s, a, w) by {
        assert(record_at(t, a, w) == record_at(t.drop_last(), a, w));
    }
    assert forall|x: AssetId| #[trigger] holdings(t, x) == holdings(s, x) + row_amount(r, x) by {
        assert(holdings(t, x) == holdings(t.drop_last(), x) + row_amount(r, x));
    }
}

/// Holdings are a sum of unsigned amounts, so they are never negative.
proof fn lemma_holdings_nonneg(s: Seq<BalanceRecord>, asset_id: AssetId)
    ensures
        holdings(s, asset_id) >= 0,
    decreases s.len(),
{
    if s.len() > 0 {
        lemma_holdings_nonneg(s.drop_last(), asset_id);
    }
}

/// One account's free plus reserved balance never exceeds the combined
/// holdings of the asset.
proof fn lemma_record_le_holdings(s: Seq<BalanceRecord>, asset_id: AssetId, account: AccountId)
    ensures
        record_at(s, asset_id, account).free + record_at(s, asset_id, account).reserved
            <= holdings(s, asset_id),
    decreases s.len(),
{
    lemma_record_at_keys(s, asset_id, account);
    if s.len() == 0 {
    } else if s.last().asset_id == asset_id && s.last().account == account {
        lemma_holdings_nonneg(s.drop_last(), asset_id);
    } else {
        lemma_record_le_holdings(s.drop_last(), asset_id, account);
        if s.last().asset_id == asset_id {
        } else {
            assert(row_amount(s.last(), asset_id) == 0);
        }
    }
}

/// The balance store: one record per `(asset, account)` pair, created
/// implicitly as zero on first write and never removed.
pub struct BalanceTable {
    entries: Vec<BalanceRecord>,
}

impl BalanceTable {
    /// Each `(asset, account)` pair is stored at most once.
    pub closed spec fn wf(self) -> bool {
        distinct_keys(self.entries@)
    }

    /// The record stored for `(asset_id, account)`, zero when absent.
    pub closed spec fn spec_record(self, asset_id: AssetId, account: AccountId) -> BalanceRecord {
        record_at(self.entries@, asset_id, account)
    }

    /// The free balance `account` holds of `asset_id`.
    pub open spec fn spec_free(self, asset_id: AssetId, account: AccountId) -> Balance {
        self.spec_record(asset_id, account).free
    }

    /// The reserved balance `account` holds of `asset_id`.
    pub open spec fn spec_reserved(self, asset_id: AssetId, account: AccountId) -> Balance {
        self.spec_record(asset_id, account).reserved
    }

    /// The sum over all accounts of free plus reserved balance of `asset_id`.
    pub closed spec fn spec_holdings(self, asset_id: AssetId) -> int {
        holdings(self.entries@, asset_id)
    }

    /// An account's own balances are bounded by the asset's holdings.
    pub proof fn lemma_within_holdings(self, asset_id: AssetId, account: AccountId)
        ensures
            self.spec_free(asset_id, account) + self.spec_reserved(asset_id, account)
                <= self.spec_holdings(asset_id),
            self.spec_holdings(asset_id) >= 0,
    {
        lemma_record_le_holdings(self.entries@, asset_id, account);
        lemma_holdings_nonneg(self.entries@, asset_id);
    }

    /// An empty store: every balance zero, every asset's holdings zero.
    pub fn new() -> (r: BalanceTable)
        ensures
            r.wf(),
            forall|a: AssetId, w: AccountId| #[trigger] r.spec_record(a, w) == empty_record(a, w),
            forall|x: AssetId| #[trigger] r.spec_holdings(x) == 0,
    {
        BalanceTable { entries: Vec::new() }
    }

    /// Looks up the record of `(asset_id, account)`; absent pairs read as zero.
    pub fn get(&self, asset_id: AssetId, account: AccountId) -> (r: BalanceRecord)
        requires
            self.wf(),
        ensures
            r == self.spec_record(asset_id, account),
            r.asset_id == asset_id,
            r.account == account,
    {
        proof {
            lemma_record_at_keys(self.entries@, asset_id, account);
        }
        let n = self.entries.len();
        let mut i: usize = 0;
        while i < n
            invariant
                n == self.entries.len(),
                i <= n,
                self.wf(),
                forall|j: int| 0 <= j < i
                    ==> !((#[trigger] self.entries@[j]).asset_id == asset_id
                        && self.entries@[j].account == account),
            decreases n - i,
        {
            let e = self.entries[i];
            if e.asset_id == asset_id && e.account == account {
                proof {
                    lemma_record_at_index(self.entries@, i as int);
                }
                return e;
            }
            i += 1;
        }
        proof {
            lemma_record_at_absent(self.entries@, asset_id, account);
        }
        BalanceRecord { asset_id, account, free: 0, reserved: 0 }
    }

    /// Overwrites the record of `(asset_id, account)` with the given free and
    /// reserved balances, creating the row if it was absent.
    pub fn set(&mut self, asset_id: AssetId, account: AccountId, free: Balance, reserved: Balance)
        requires
            old(self).wf(),
        ensures
            final(self).wf(),
            final(self).spec_record(asset_id, account)
                == (BalanceRecord { asset_id, account, free, reserved }),
            forall|a: AssetId, w: AccountId| !(a == asset_id && w == account)
                ==> #[trigger] final(self).spec_record(a, w) == old(self).spec_record(a, w),
            final(self).spec_holdings(asset_id) == old(self).spec_holdings(asset_id)
                - old(self).spec_free(asset_id, account) - old(self).spec_reserved(asset_id, account)
                + free + reserved,
            forall|x: AssetId| x != asset_id
                ==> #[trigger] final(self).spec_holdings(x) == old(self).spec_holdings(x),
    {
        proof {
            lemma_record_at_keys(old(self).entries@, asset_id, account);
        }
        let n = self.entries.len();
        let mut i: usize = 0;
        while i < n
            invariant
                *self == *old(self),
                n == self.entries.len(),
                i <= n,
                self.wf(),
                forall|j: int| 0 <= j < i
                    ==> !((#[trigger] self.entries@[j]).asset_id == asset_id
                        && self.entries@[j].account == account),
            decreases n - i,
        {
            let e = self.entries[i];
            if e.asset_id == asset_id && e.account == account {
                let rec = BalanceRecord { asset_id, account, free, reserved };
                let ghost s0 = self.entries@;
                self.entries.set(i, rec);
                proof {
                    lemma_record_at_index(s0, i as int);
                    lemma_update_record(s0, i as int, rec);
                }
                return;
            }
            i += 1;
        }
        let rec = BalanceRecord { asset_id, account, free, reserved };
        let ghost s0 = self.entries@;
        self.entries.push(rec);
        proof {
            lemma_record_at_absent(s0, asset_id, account);
            lemma_push_record(s0, rec);
        }
    }
}

} // verus!
