//! What the counters of a table add up to: the server's counters are the
//! sum of the models' counters, and so are those of each object.

use crate::model::ModelView;
use crate::stat::{absorbed, feeds, object_key, server_key, Metrics, Record, RecordView, StatTable};
use vstd::prelude::*;

verus! {

/// The counters under the key `k` of a table that was empty and then took
/// the records `recs`, first to last.
pub open spec fn tally(recs: Seq<RecordView>, k: ModelView) -> Metrics
    decreases recs.len(),
{
    if recs.len() == 0 {
        Metrics::zero()
    } else {
        absorbed(tally(recs.drop_last(), k), recs.last().key, recs.last().metrics, k)
    }
}

/// Counters of any size.
pub ghost struct Totals {
    pub hits: int,
    pub cached: int,
    pub bytes: int,
}

/// A count as a counter holds it: the largest value stands for all above it.
pub open spec fn capped(n: int) -> u64 {
    if n > u64::MAX {
        u64::MAX
    } else if n < 0 {
        0
    } else {
        n as u64
    }
}

impl Totals {
    /// The totals as counters hold them.
    pub open spec fn capped(self) -> Metrics {
        Metrics { hits: capped(self.hits), cached: capped(self.cached), bytes: capped(self.bytes) }
    }

    /// The totals and the counters `m` together.
    pub open spec fn with(self, m: Metrics) -> Totals {
        Totals {
            hits: self.hits + m.hits,
            cached: self.cached + m.cached,
            bytes: self.bytes + m.bytes,
        }
    }

    /// The totals without the counters `m`.
    pub open spec fn without(self, m: Metrics) -> Totals {
        Totals {
            hits: self.hits - m.hits,
            cached: self.cached - m.cached,
            bytes: self.bytes - m.bytes,
        }
    }

    /// Each total is at least the counter of `m`.
    pub open spec fn covers(self, m: Metrics) -> bool {
        self.hits >= m.hits && self.cached >= m.cached && self.bytes >= m.bytes
    }
}

/// Sum of the counters that stand under each of `keys` once `recs` are
/// counted.
pub open spec fn sum_of(recs: Seq<RecordView>, keys: Seq<ModelView>) -> Totals
    decreases keys.len(),
{
    if keys.len() == 0 {
        Totals { hits: 0, cached: 0, bytes: 0 }
    } else {
        sum_of(recs, keys.drop_last()).with(tally(recs, keys.last()))
    }
}

/// The values of the records in a vector.
pub open spec fn views(recs: Seq<Record>) -> Seq<RecordView> {
    recs.map_values(|r: Record| r@)
}

impl StatTable {
    /// The table that has counted `recs`, first to last.
    pub fn drained(recs: &Vec<Record>) -> (table: Self)
        ensures
            forall|k: ModelView| #[trigger] table.value(k) == tally(views(recs@), k),
    {
        let mut table = StatTable::new();
        let mut i: usize = 0;
        assert(views(recs@).take(0) =~= Seq::<RecordView>::empty());
        while i < recs.len()
            invariant
                i <= recs@.len(),
                forall|k: ModelView| #[trigger]
                    table.value(k) == tally(views(recs@).take(i as int), k),
            decreases recs@.len() - i,
        {
            let rec = Record::new(recs[i].key().clone(), recs[i].metrics());
            proof {
                let done = views(recs@).take(i as int);
                let next = views(recs@).take(i + 1);
                assert(next.drop_last() =~= done);
                assert(next.last() == rec@);
            }
            table.insert(rec);
            i += 1;
        }
        assert(views(recs@).take(i as int) =~= views(recs@));
        table
    }
}

/// With nothing counted, every sum is nothing.
proof fn lemma_sum_of_none(keys: Seq<ModelView>)
    ensures
        sum_of(Seq::empty(), keys) == (Totals { hits: 0, cached: 0, bytes: 0 }),
    decreases keys.len(),
{
    if keys.len() > 0 {
        lemma_sum_of_none(keys.drop_last());
    }
}

/// Where two histories differ at most under the key `target`, their sums
/// over `keys` differ by what stands under `target`, if it is one of the
/// keys, and not at all if it is none of them.
proof fn lemma_sum_differs_at(
    a: Seq<RecordView>,
    b: Seq<RecordView>,
    keys: Seq<ModelView>,
    target: ModelView,
)
    requires
        keys.no_duplicates(),
        forall|j: int|
            0 <= j < keys.len() && keys[j] != target ==> tally(b, #[trigger] keys[j]) == tally(
                a,
                keys[j],
            ),
    ensures
        keys.contains(target) ==> sum_of(a, keys).covers(tally(a, target)) && sum_of(b, keys)
            == sum_of(a, keys).without(tally(a, target)).with(tally(b, target)),
        !keys.contains(target) ==> sum_of(b, keys) == sum_of(a, keys),
        sum_of(a, keys).hits >= 0 && sum_of(a, keys).cached >= 0 && sum_of(a, keys).bytes >= 0,
    decreases keys.len(),
{
    if keys.len() > 0 {
        let init = keys.drop_last();
        let last = keys.last();
        assert forall|j: int| 0 <= j < init.len() && init[j] != target implies tally(
            b,
            #[trigger] init[j],
        ) == tally(a, init[j]) by {
            assert(init[j] == keys[j]);
        }
        assert(init.no_duplicates()) by {
            assert forall|i: int, j: int| 0 <= i < init.len() && 0 <= j < init.len() && i
                != j implies init[i] != init[j] by {
                assert(init[i] == keys[i] && init[j] == keys[j]);
            }
        }
        lemma_sum_differs_at(a, b, init, target);
        assert(keys[keys.len() - 1] == last);
        if last == target {
            assert(keys.contains(target));
            assert(!init.contains(target)) by {
                if init.contains(target) {
                    let j = choose|j: int| 0 <= j < init.len() && init[j] == target;
                    assert(keys[j] == keys[keys.len() - 1]);
                }
            }
        } else {
            assert(tally(b, last) == tally(a, last));
            if keys.contains(target) {
                let j = choose|j: int| 0 <= j < keys.len() && keys[j] == target;
                assert(init[j] == target);
                assert(init.contains(target));
            }
            if init.contains(target) {
                let j = choose|j: int| 0 <= j < init.len() && init[j] == target;
                assert(keys[j] == target);
            }
        }
    }
}

/// The rule behind both laws: the counters under a rollup key are the sum
/// of the counters under the model keys that feed it.
proof fn lemma_rollup(recs: Seq<RecordView>, rollup: ModelView, keys: Seq<ModelView>)
    requires
        rollup.name is None,
        keys.no_duplicates(),
        forall|j: int| 0 <= j < keys.len() ==> (#[trigger] keys[j]).is_leaf() && feeds(keys[j], rollup),
        forall|i: int|
            0 <= i < recs.len() && feeds((#[trigger] recs[i]).key, rollup) ==> if recs[i].key.is_leaf() {
                keys.contains(recs[i].key)
            } else {
                recs[i].metrics == Metrics::zero()
            },
    ensures
        tally(recs, rollup) == sum_of(recs, keys).capped(),
    decreases recs.len(),
{
    if recs.len() == 0 {
        lemma_sum_of_none(keys);
        assert(recs =~= Seq::empty());
    } else {
        let init = recs.drop_last();
        let r = recs.last();
        assert forall|i: int| 0 <= i < init.len() && feeds(
            (#[trigger] init[i]).key,
            rollup,
        ) implies if init[i].key.is_leaf() {
            keys.contains(init[i].key)
        } else {
            init[i].metrics == Metrics::zero()
        } by {
            assert(init[i] == recs[i]);
        }
        lemma_rollup(init, rollup, keys);
        assert(recs[recs.len() - 1] == r);
        assert forall|j: int| 0 <= j < keys.len() && keys[j] != r.key implies tally(
            recs,
            #[trigger] keys[j],
        ) == tally(init, keys[j]) by {
            assert(keys[j].is_leaf());
            assert(!feeds(r.key, keys[j]));
        }
        lemma_sum_differs_at(init, recs, keys, r.key);
        if feeds(r.key, rollup) {
            if r.key.is_leaf() {
                assert(keys.contains(r.key));
                assert(feeds(r.key, r.key));
                assert(tally(recs, r.key) == tally(init, r.key).plus(r.metrics));
                assert(tally(recs, rollup) == tally(init, rollup).plus(r.metrics));
            } else {
                assert(r.metrics == Metrics::zero());
                assert(tally(recs, rollup) == tally(init, rollup));
                if keys.contains(r.key) {
                    let j = choose|j: int| 0 <= j < keys.len() && keys[j] == r.key;
                    assert(keys[j].is_leaf());
                }
            }
        } else {
            assert(tally(recs, rollup) == tally(init, rollup));
            if keys.contains(r.key) {
                let j = choose|j: int| 0 <= j < keys.len() && keys[j] == r.key;
                assert(feeds(keys[j], rollup));
            }
        }
    }
}

/// Once any records are counted, the server's counters are the sum of the
/// counters of all models: of every key with an object and a name, each
/// taken once. This holds of records that come in under a model's key, or
/// under a key that is counted nowhere; a record without a name that
/// counts anything would be counted for the server and for no model.
pub proof fn lemma_server_counts_all_models(recs: Seq<RecordView>, keys: Seq<ModelView>)
    requires
        forall|i: int|
            0 <= i < recs.len() && (#[trigger] recs[i]).key.name is None ==> recs[i].metrics
                == Metrics::zero(),
        keys.no_duplicates(),
        forall|j: int| 0 <= j < keys.len() ==> (#[trigger] keys[j]).is_leaf(),
        forall|i: int|
            0 <= i < recs.len() && (#[trigger] recs[i]).key.is_leaf() ==> keys.contains(
                recs[i].key,
            ),
    ensures
        tally(recs, server_key()) == sum_of(recs, keys).capped(),
{
    lemma_rollup(recs, server_key(), keys);
}

/// Once any records are counted, the counters of an object are the sum of
/// the counters of its models: of every key with that object and a name,
/// each taken once. This holds of records that do not come in under the
/// object's own key, or count nothing there.
pub proof fn lemma_object_counts_its_models(
    recs: Seq<RecordView>,
    object: Seq<char>,
    keys: Seq<ModelView>,
)
    requires
        forall|i: int|
            0 <= i < recs.len() && (#[trigger] recs[i]).key == object_key(object)
                ==> recs[i].metrics == Metrics::zero(),
        keys.no_duplicates(),
        forall|j: int|
            0 <= j < keys.len() ==> (#[trigger] keys[j]).is_leaf() && keys[j].object == Some(
                object,
            ),
        forall|i: int|
            0 <= i < recs.len() && (#[trigger] recs[i]).key.is_leaf() && recs[i].key.object
                == Some(object) ==> keys.contains(recs[i].key),
    ensures
        tally(recs, object_key(object)) == sum_of(recs, keys).capped(),
{
    lemma_rollup(recs, object_key(object), keys);
}

/// The order in which two records come in does not matter: two histories
/// that differ by two neighbours changing places count the same.
pub proof fn lemma_neighbours_may_change_places(recs: Seq<RecordView>, i: int, k: ModelView)
    requires
        0 <= i,
        i + 1 < recs.len(),
    ensures
        tally(recs.update(i, recs[i + 1]).update(i + 1, recs[i]), k) == tally(recs, k),
    decreases recs.len(),
{
    let swapped = recs.update(i, recs[i + 1]).update(i + 1, recs[i]);
    if i + 2 == recs.len() {
        let front = recs.drop_last().drop_last();
        let (x, y) = (recs[i], recs[i + 1]);
        assert(swapped.drop_last().drop_last() =~= front);
        assert(swapped.last() == x && swapped.drop_last().last() == y);
        assert(recs.last() == y && recs.drop_last().last() == x);
        let before = tally(front, k);
        assert(tally(recs.drop_last(), k) == absorbed(before, x.key, x.metrics, k));
        assert(tally(swapped.drop_last(), k) == absorbed(before, y.key, y.metrics, k));
        before.lemma_plus_associates(x.metrics, y.metrics);
        before.lemma_plus_associates(y.metrics, x.metrics);
        x.metrics.lemma_plus_commutes(y.metrics);
    } else {
        let init = recs.drop_last();
        assert(swapped.drop_last() =~= init.update(i, init[i + 1]).update(i + 1, init[i]));
        assert(swapped.last() == recs.last());
        lemma_neighbours_may_change_places(init, i, k);
    }
}

/// A record with a name and no object changes no counter.
pub proof fn lemma_illegal_record_is_dropped(recs: Seq<RecordView>, r: RecordView, k: ModelView)
    requires
        r.key.is_illegal(),
    ensures
        tally(recs.push(r), k) == tally(recs, k),
{
    assert(recs.push(r).drop_last() =~= recs);
}

} // verus!
