//! Access counters, rolled up per model, per object and for the whole
//! server.

use crate::model::{Model, ModelView};
use core::ops::AddAssign;
use vstd::prelude::*;
use vstd::std_specs::cmp::PartialEqSpecImpl;

verus! {

/// Number of records that may wait to be counted.
pub const STAT_QUEUE_CAPACITY: usize = 500;

/// Statistic key: the model, the object or the server that is counted.
#[derive(Debug, Hash)]
pub struct StatKey {
    pub model: Model,
}

impl View for StatKey {
    type V = ModelView;

    open spec fn view(&self) -> ModelView {
        self.model@
    }
}

impl StatKey {
    /// The key of the model `name` of `object`.
    pub fn new(object: Option<&str>, name: Option<&str>) -> (key: Self)
        ensures
            key@ == (ModelView {
                object: crate::model::slice_text(object),
                name: crate::model::slice_text(name),
            }),
    {
        StatKey { model: Model::new(object, name) }
    }
}

impl Default for StatKey {
    fn default() -> (key: Self)
        ensures
            key@ == server_key(),
    {
        StatKey { model: Model::default() }
    }
}

impl Clone for StatKey {
    fn clone(&self) -> (key: Self)
        ensures
            key@ == self@,
    {
        StatKey { model: self.model.clone() }
    }
}

impl PartialEq for StatKey {
    fn eq(&self, other: &Self) -> (r: bool) {
        self.model == other.model
    }
}

impl PartialEqSpecImpl for StatKey {
    open spec fn obeys_eq_spec() -> bool {
        true
    }

    open spec fn eq_spec(&self, other: &Self) -> bool {
        self@ == other@
    }
}

impl Eq for StatKey {}

/// The key under which the whole server is counted.
pub open spec fn server_key() -> ModelView {
    ModelView { object: None, name: None }
}

/// The key under which all models of `object` are counted.
pub open spec fn object_key(object: Seq<char>) -> ModelView {
    ModelView { object: Some(object), name: None }
}

/// Sum of two counters, held at the largest value where it would pass it.
pub open spec fn capped_sum(a: u64, b: u64) -> u64 {
    if a + b > u64::MAX {
        u64::MAX
    } else {
        (a + b) as u64
    }
}

/// Statistic metrics.
#[derive(Debug, Clone, Copy, PartialEq, Eq, Structural)]
pub struct Metrics {
    /// Request count.
    pub hits: u64,
    /// Count of requests served from memory.
    pub cached: u64,
    /// Bytes requested.
    pub bytes: u64,
}

impl Default for Metrics {
    fn default() -> (m: Self)
        ensures
            m == Metrics::zero(),
    {
        Metrics { hits: 0, cached: 0, bytes: 0 }
    }
}

impl Metrics {
    /// Nothing counted.
    pub open spec fn zero() -> Metrics {
        Metrics { hits: 0, cached: 0, bytes: 0 }
    }

    /// Counters added one by one, each held at the largest value.
    pub open spec fn plus(self, other: Metrics) -> Metrics {
        Metrics {
            hits: capped_sum(self.hits, other.hits),
            cached: capped_sum(self.cached, other.cached),
            bytes: capped_sum(self.bytes, other.bytes),
        }
    }

    /// Adding nothing changes nothing.
    pub proof fn lemma_plus_zero(self)
        ensures
            self.plus(Metrics::zero()) == self,
            Metrics::zero().plus(self) == self,
    {
    }

    /// The order of two summands does not matter.
    pub proof fn lemma_plus_commutes(self, other: Metrics)
        ensures
            self.plus(other) == other.plus(self),
    {
    }

    /// The grouping of three summands does not matter.
    pub proof fn lemma_plus_associates(self, b: Metrics, c: Metrics)
        ensures
            self.plus(b).plus(c) == self.plus(b.plus(c)),
    {
    }
}

impl core::ops::AddAssign for Metrics {
    /// Adds `other` to the counters.
    fn add_assign(&mut self, other: Self)
        ensures
            *final(self) == old(self).plus(other),
    {
        self.hits = self.hits.saturating_add(other.hits);
        self.cached = self.cached.saturating_add(other.cached);
        self.bytes = self.bytes.saturating_add(other.bytes);
    }
}

/// Mathematical value of a [`Record`].
pub ghost struct RecordView {
    pub key: ModelView,
    pub metrics: Metrics,
}

/// Statistic record: counters to add under a key.
#[derive(Debug)]
pub struct Record {
    key: StatKey,
    metrics: Metrics,
}

impl View for Record {
    type V = RecordView;

    closed spec fn view(&self) -> RecordView {
        RecordView { key: self.key@, metrics: self.metrics }
    }
}

impl Record {
    /// The record that adds `metrics` under `key`.
    pub fn new(key: StatKey, metrics: Metrics) -> (rec: Self)
        ensures
            rec@ == (RecordView { key: key@, metrics }),
    {
        Record { key, metrics }
    }

    /// The key under which the record comes in.
    pub fn key(&self) -> (key: &StatKey)
        ensures
            key@ == self@.key,
    {
        &self.key
    }

    /// The counters that the record adds.
    pub fn metrics(&self) -> (metrics: Metrics)
        ensures
            metrics == self@.metrics,
    {
        self.metrics
    }
}

/// Whether a record under the key `from` is counted under the key `k`.
/// A record with a name but no object is counted nowhere. Any other record
/// is counted under its own key, under its object if it has a name, and
/// under the server if it has an object.
pub open spec fn feeds(from: ModelView, k: ModelView) -> bool {
    &&& !from.is_illegal()
    &&& {
        ||| k == from
        ||| from.name is Some && k == (ModelView { object: from.object, name: None })
        ||| from.object is Some && k == server_key()
    }
}

/// The counters of the key `k` after a record under `from` with the
/// counters `m` came in, where they were `before`.
pub open spec fn absorbed(before: Metrics, from: ModelView, m: Metrics, k: ModelView) -> Metrics {
    if feeds(from, k) {
        before.plus(m)
    } else {
        before
    }
}

/// One key of the table with its counters.
struct Entry {
    key: StatKey,
    metrics: Metrics,
}

/// The counters of the first entry under the key `k`; nothing counted
/// where there is none.
spec fn lookup(entries: Seq<Entry>, k: ModelView) -> Metrics
    decreases entries.len(),
{
    if entries.len() == 0 {
        Metrics::zero()
    } else if entries.first().key@ == k {
        entries.first().metrics
    } else {
        lookup(entries.drop_first(), k)
    }
}

/// No key stands twice in the entries.
spec fn distinct(entries: Seq<Entry>) -> bool {
    forall|i: int, j: int|
        0 <= i < j < entries.len() ==> (#[trigger] entries[i]).key@ != (#[trigger] entries[j]).key@
}

/// In-memory statistic table. Each key occurs once.
pub struct StatTable {
    entries: Vec<Entry>,
}

impl StatTable {
    #[verifier::type_invariant]
    spec fn keys_occur_once(&self) -> bool {
        distinct(self.entries@)
    }

    /// The counters under the key `k`; nothing counted for a key that the
    /// table has never seen.
    pub closed spec fn value(&self, k: ModelView) -> Metrics {
        lookup(self.entries@, k)
    }

    /// Create empty table.
    pub fn new() -> (table: Self)
        ensures
            forall|k: ModelView| #[trigger] table.value(k) == Metrics::zero(),
    {
        StatTable { entries: Vec::new() }
    }

    /// Index of the entry under `key`.
    fn find(&self, key: &StatKey) -> (at: Option<usize>)
        ensures
            match at {
                Some(i) => i < self.entries@.len() && self.entries@[i as int].key@ == key@,
                None => forall|j: int|
                    0 <= j < self.entries@.len() ==> (#[trigger] self.entries@[j]).key@ != key@,
            },
    {
        let mut i: usize = 0;
        while i < self.entries.len()
            invariant
                i <= self.entries@.len(),
                forall|j: int| 0 <= j < i ==> (#[trigger] self.entries@[j]).key@ != key@,
            decreases self.entries@.len() - i,
        {
            if self.entries[i].key == *key {
                return Some(i);
            }
            i += 1;
        }
        None
    }

    /// Adds `m` to the counters under `key`.
    fn bump(&mut self, key: StatKey, m: Metrics)
        ensures
            forall|k: ModelView| #[trigger]
                final(self).value(k) == if k == key@ {
                    old(self).value(k).plus(m)
                } else {
                    old(self).value(k)
                },
    {
        proof {
            use_type_invariant(&*self);
        }
        let found = self.find(&key);
        let mut entries: Vec<Entry> = Vec::new();
        core::mem::swap(&mut self.entries, &mut entries);
        let ghost before = entries@;
        match found {
            Some(i) => {
                let mut metrics = entries[i].metrics;
                metrics.add_assign(m);
                proof {
                    lemma_lookup_at(before, i as int);
                }
                entries.set(i, Entry { key, metrics });
                proof {
                    assert forall|k: ModelView| #[trigger]
                        lookup(entries@, k) == if k == key@ {
                            lookup(before, k).plus(m)
                        } else {
                            lookup(before, k)
                        } by {
                        lemma_lookup_update(before, i as int, entries@[i as int], k);
                    }
                    lemma_lookup_update(before, i as int, entries@[i as int], key@);
                }
            },
            None => {
                let mut metrics = Metrics::default();
                metrics.add_assign(m);
                entries.push(Entry { key, metrics });
                proof {
                    assert forall|k: ModelView| #[trigger]
                        lookup(entries@, k) == if k == key@ {
                            lookup(before, k).plus(m)
                        } else {
                            lookup(before, k)
                        } by {
                        lemma_lookup_push(before, entries@.last(), k);
                        lemma_lookup_absent(before, key@);
                    }
                    assert(distinct(entries@));
                }
            },
        }
        core::mem::swap(&mut self.entries, &mut entries);
    }

    /// Insert new metrics, calculate aggregates.
    pub fn insert(&mut self, rec: Record)
        ensures
            forall|k: ModelView| #[trigger]
                final(self).value(k) == absorbed(old(self).value(k), rec@.key, rec@.metrics, k),
    {
        let Record { key, metrics } = rec;
        if key.model.name.is_some() {
            if key.model.object.is_none() {
                // a name without an object is counted nowhere
                return ;
            }
            // all models of the object
            let object = StatKey {
                model: Model { object: crate::model::copied(&key.model.object), name: None },
            };
            self.bump(object, metrics);
        }
        if key.model.object.is_some() {
            // all models of all objects
            self.bump(StatKey::default(), metrics);
        }
        // the key itself
        self.bump(key, metrics);
    }

    /// Get metrics by the key.
    pub fn get(&self, key: &StatKey) -> (metrics: Metrics)
        ensures
            metrics == self.value(key@),
    {
        match self.find(key) {
            Some(i) => {
                proof {
                    use_type_invariant(self);
                    lemma_lookup_at(self.entries@, i as int);
                }
                self.entries[i].metrics
            },
            None => {
                proof {
                    lemma_lookup_absent(self.entries@, key@);
                }
                Metrics::default()
            },
        }
    }
}

/// Where no key stands twice, looking a key up finds its entry.
proof fn lemma_lookup_at(entries: Seq<Entry>, i: int)
    requires
        distinct(entries),
        0 <= i < entries.len(),
    ensures
        lookup(entries, entries[i].key@) == entries[i].metrics,
    decreases entries.len(),
{
    if i > 0 {
        let rest = entries.drop_first();
        assert(entries[0].key@ != entries[i].key@);
        assert(rest[i - 1] == entries[i]);
        assert(distinct(rest)) by {
            assert forall|a: int, b: int| 0 <= a < b < rest.len() implies (#[trigger] rest[a]).key@
                != (#[trigger] rest[b]).key@ by {
                assert(rest[a] == entries[a + 1]);
                assert(rest[b] == entries[b + 1]);
            }
        }
        lemma_lookup_at(rest, i - 1);
    }
}

/// A key that no entry has counts nothing.
proof fn lemma_lookup_absent(entries: Seq<Entry>, k: ModelView)
    requires
        forall|j: int| 0 <= j < entries.len() ==> (#[trigger] entries[j]).key@ != k,
    ensures
        lookup(entries, k) == Metrics::zero(),
    decreases entries.len(),
{
    if entries.len() > 0 {
        let rest = entries.drop_first();
        assert(entries[0].key@ != k);
        assert forall|j: int| 0 <= j < rest.len() implies (#[trigger] rest[j]).key@ != k by {
            assert(rest[j] == entries[j + 1]);
        }
        lemma_lookup_absent(rest, k);
    }
}

/// New counters for one entry change what is found under its key, and
/// nothing else.
proof fn lemma_lookup_update(entries: Seq<Entry>, i: int, e: Entry, k: ModelView)
    requires
        distinct(entries),
        0 <= i < entries.len(),
        e.key@ == entries[i].key@,
    ensures
        distinct(entries.update(i, e)),
        lookup(entries.update(i, e), k) == if k == e.key@ {
            e.metrics
        } else {
            lookup(entries, k)
        },
    decreases entries.len(),
{
    let after = entries.update(i, e);
    assert(distinct(after)) by {
        assert forall|a: int, b: int| 0 <= a < b < after.len() implies (#[trigger] after[a]).key@
            != (#[trigger] after[b]).key@ by {
            assert(after[a].key@ == entries[a].key@);
            assert(after[b].key@ == entries[b].key@);
        }
    }
    if i == 0 {
        assert(after.drop_first() =~= entries.drop_first());
    } else {
        let rest = entries.drop_first();
        assert(entries[0].key@ != entries[i].key@);
        assert(rest[i - 1] == entries[i]);
        assert(distinct(rest)) by {
            assert forall|a: int, b: int| 0 <= a < b < rest.len() implies (#[trigger] rest[a]).key@
                != (#[trigger] rest[b]).key@ by {
                assert(rest[a] == entries[a + 1]);
                assert(rest[b] == entries[b + 1]);
            }
        }
        assert(after.drop_first() =~= rest.update(i - 1, e));
        lemma_lookup_update(rest, i - 1, e, k);
    }
}

/// A new entry behind the others is found only where none of them has its key.
proof fn lemma_lookup_push(entries: Seq<Entry>, e: Entry, k: ModelView)
    ensures
        lookup(entries.push(e), k) == if lookup_hits(entries, k) {
            lookup(entries, k)
        } else if k == e.key@ {
            e.metrics
        } else {
            Metrics::zero()
        },
        !lookup_hits(entries, k) ==> lookup(entries, k) == Metrics::zero(),
    decreases entries.len(),
{
    let after = entries.push(e);
    if entries.len() == 0 {
        assert(after.first() == e);
        assert(after.drop_first() =~= entries);
        assert(!lookup_hits(entries, k));
        assert(lookup(entries, k) == Metrics::zero());
        assert(lookup(after, k) == if k == e.key@ {
            e.metrics
        } else {
            Metrics::zero()
        });
    } else {
        let rest = entries.drop_first();
        assert(after.first() == entries.first());
        assert(after.drop_first() =~= rest.push(e));
        lemma_lookup_push(rest, e, k);
        if entries[0].key@ == k {
            assert(lookup_hits(entries, k));
            assert(lookup(after, k) == lookup(entries, k));
        } else {
            assert(lookup(after, k) == lookup(rest.push(e), k));
            assert(lookup(entries, k) == lookup(rest, k));
            if lookup_hits(entries, k) {
                let j = choose|j: int| 0 <= j < entries.len() && (#[trigger] entries[j]).key@ == k;
                assert(rest[j - 1] == entries[j]);
                assert(lookup_hits(rest, k));
            }
            if lookup_hits(rest, k) {
                let j = choose|j: int| 0 <= j < rest.len() && (#[trigger] rest[j]).key@ == k;
                assert(entries[j + 1] == rest[j]);
                assert(lookup_hits(entries, k));
            }
        }
    }
}

/// Some entry has the key `k`.
spec fn lookup_hits(entries: Seq<Entry>, k: ModelView) -> bool {
    exists|j: int| 0 <= j < entries.len() && (#[trigger] entries[j]).key@ == k
}

} // verus!
