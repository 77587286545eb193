use vstd::prelude::*;
use crate::types::AssetId;

verus! {

/// One stored pair of the per-asset maps: an asset id and the value kept
/// under it (a total issuance, or a permission set).
#[derive(Clone, Copy, Debug)]
pub struct MapEntry<V: Copy> {
    pub id: AssetId,
    pub value: V,
}

/// The value stored under `id`, if any.
pub open spec fn value_at<V: Copy>(s: Seq<MapEntry<V>>, id: AssetId) -> Option<V>
    decreases s.len(),
{
    if s.len() == 0 {
        None
    } else if s.last().id == id {
        Some(s.last().value)
    } else {
        value_at(s.drop_last(), id)
    }
}

/// No two entries share an asset id.
pub open spec fn distinct_ids<V: Copy>(s: Seq<MapEntry<V>>) -> bool {
    forall|i: int, j: int| #![trigger s[i], s[j]]
        0 <= i < j < s.len() ==> s[i].id != s[j].id
}

proof fn lemma_ids_drop_last<V: Copy>(s: Seq<MapEntry<V>>)
    requires
        distinct_ids(s),
        s.len() > 0,
    ensures
        distinct_ids(s.drop_last()),
{
    assert forall|i: int, j: int| #![trigger s.drop_last()[i], s.drop_last()[j]]
        0 <= i < j < s.drop_last().len() implies s.drop_last()[i].id != s.drop_last()[j].id by {
        assert(s.drop_last()[i] == s[i]);
        assert(s.drop_last()[j] == s[j]);
    }
}

/// An entry present at index `i` of a duplicate-free sequence is the entry
/// its id looks up to.
proof fn lemma_value_at_index<V: Copy>(s: Seq<MapEntry<V>>, i: int)
    requires
        distinct_ids(s),
        0 <= i < s.len(),
    ensures
        value_at(s, s[i].id) == Some(s[i].value),
    decreases s.len(),
{
    if i == s.len() - 1 {
        assert(s.last() == s[i]);
    } else {
        lemma_ids_drop_last(s);
        assert(s.last().id != s[i].id);
        assert(s.drop_last()[i] == s[i]);
        lemma_value_at_index(s.drop_last(), i);
    }
}

/// An id stored in no entry looks up to nothing.
proof fn lemma_value_at_absent<V: Copy>(s: Seq<MapEntry<V>>, id: AssetId)
    requires
        forall|i: int| 0 <= i < s.len() ==> (#[trigger] s[i]).id != id,
    ensures
        value_at(s, id) is None,
    decreases s.len(),
{
    if s.len() > 0 {
        assert(s[s.len() - 1] == s.last());
        assert forall|i: int| 0 <= i < s.drop_last().len()
            implies (#[trigger] s.drop_last()[i]).id != id by {
            assert(s.drop_last()[i] == s[i]);
        }
        lemma_value_at_absent(s.drop_last(), id);
    }
}

/// Replacing the one entry of an id rewrites exactly that id's value and
/// leaves every other id's value alone.
proof fn lemma_update_entry<V: Copy>(s: Seq<MapEntry<V>>, i: int, e: MapEntry<V>)
    requires
        distinct_ids(s),
        0 <= i < s.len(),
        e.id == s[i].id,
    ensures
        distinct_ids(s.update(i, e)),
        value_at(s.update(i, e), e.id) == Some(e.value),
        forall|x: AssetId| x != e.id
            ==> #[trigger] value_at(s.update(i, e), x) == value_at(s, x),
    decreases s.len(),
{
    let t = s.update(i, e);
    assert forall|i2: int, j2: int| #![trigger t[i2], t[j2]]
        0 <= i2 < j2 < t.len() implies t[i2].id != t[j2].id by {
        assert(t[i2].id == s[i2].id);
        assert(t[j2].id == s[j2].id);
    }
    if i == s.len() - 1 {
        assert(t.last() == e);
        assert(t.drop_last() =~= s.drop_last());
        assert(s.last() == s[i]);
        assert forall|x: AssetId| x != e.id
            implies #[trigger] value_at(t, x) == value_at(s, x) by {
            assert(value_at(t, x) == value_at(s.drop_last(), x));
            assert(value_at(s, x) == value_at(s.drop_last(), x));
        }
    } else {
        lemma_ids_drop_last(s);
        assert(s.drop_last()[i] == s[i]);
        lemma_update_entry(s.drop_last(), i, e);
        assert(t.last() == s.last());
        assert(t.drop_last() =~= s.drop_last().update(i, e));
        assert(s.last().id != e.id);
        assert(value_at(t, e.id) == value_at(t.drop_last(), e.id));
        assert forall|x: AssetId| x != e.id
            implies #[trigger] value_at(t, x) == value_at(s, x) by {
            if s.last().id == x {
            } else {
                assert(value_at(t, x) == value_at(t.drop_last(), x));
                assert(value_at(s, x) == value_at(s.drop_last(), x));
            }
        }
    }
}

/// Appending an entry with a fresh id stores exactly that value under the id
/// and leaves every other id's value alone.
proof fn lemma_push_entry<V: Copy>(s: Seq<MapEntry<V>>, e: MapEntry<V>)
    requires
        distinct_ids(s),
        forall|i: int| 0 <= i < s.len() ==> (#[trigger] s[i]).id != e.id,
    ensures
        distinct_ids(s.push(e)),
        value_at(s.push(e), e.id) == Some(e.value),
        forall|x: AssetId| x != e.id ==> #[trigger] value_at(s.push(e), x) == value_at(s, x),
{
    let t = s.push(e);
    assert(t.drop_last() =~= s);
    assert(t.last() == e);
    assert forall|i2: int, j2: int| #![trigger t[i2], t[j2]]
        0 <= i2 < j2 < t.len() implies t[i2].id != t[j2].id by {
        if j2 < s.len() {
            assert(t[i2] == s[i2]);
            assert(t[j2] == s[j2]);
        } else {
            assert(t[j2] == e);
            assert(t[i2] == s[i2]);
        }
    }
    assert forall|x: AssetId| x != e.id
        implies #[trigger] value_at(t, x) == value_at(s, x) by {
        assert(value_at(t, x) == value_at(t.drop_last(), x));
    }
}

/// A per-asset store: at most one value per asset id.
pub struct AssetMap<V: Copy> {
    entries: Vec<MapEntry<V>>,
}

impl<V: Copy> AssetMap<V> {
    /// Each asset id is stored at most once.
    pub closed spec fn wf(self) -> bool {
        distinct_ids(self.entries@)
    }

    /// The value stored under `id`, if any.
    pub closed spec fn spec_get(self, id: AssetId) -> Option<V> {
        value_at(self.entries@, id)
    }

    /// An empty store.
    pub fn new() -> (r: AssetMap<V>)
        ensures
            r.wf(),
            forall|x: AssetId| #[trigger] r.spec_get(x) is None,
    {
        AssetMap { entries: Vec::new() }
    }

    /// Looks up the value stored under `id`.
    pub fn get(&self, id: AssetId) -> (r: Option<V>)
        requires
            self.wf(),
        ensures
            r == self.spec_get(id),
    {
        let n = self.entries.len();
        let mut i: usize = 0;
        while i < n
            invariant
                n == self.entries.len(),
                i <= n,
                self.wf(),
                forall|j: int| 0 <= j < i ==> (#[trigger] self.entries@[j]).id != id,
            decreases n - i,
        {
            let e = self.entries[i];
            if e.id == id {
                proof {
                    lemma_value_at_index(self.entries@, i as int);
                }
                return Some(e.value);
            }
            i += 1;
        }
        proof {
            lemma_value_at_absent(self.entries@, id);
        }
        None
    }

    /// Stores `value` under `id`, replacing what the id held before.
    pub fn set(&mut self, id: AssetId, value: V)
        requires
            old(self).wf(),
        ensures
            final(self).wf(),
            final(self).spec_get(id) == Some(value),
            forall|x: AssetId| x != id
                ==> #[trigger] final(self).spec_get(x) == old(self).spec_get(x),
    {
        let n = self.entries.len();
        let mut i: usize = 0;
        while i < n
            invariant
                *self == *old(self),
                n == self.entries.len(),
                i <= n,
                self.wf(),
                forall|j: int| 0 <= j < i ==> (#[trigger] self.entries@[j]).id != id,
            decreases n - i,
        {
            let e = self.entries[i];
            if e.id == id {
                let entry = MapEntry { id, value };
                let ghost s0 = self.entries@;
                self.entries.set(i, entry);
                proof {
                    lemma_update_entry(s0, i as int, entry);
                }
                return;
            }
            i += 1;
        }
        let entry = MapEntry { id, value };
        let ghost s0 = self.entries@;
        self.entries.push(entry);
        proof {
            lemma_push_entry(s0, entry);
        }
    }
}

} // verus!
