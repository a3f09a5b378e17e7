use std::collections::VecDeque;

use vstd::prelude::*;

use vstd::string::*;

use crate::text::{push_quoted, quoted, str_equal, strip_prefix};

verus! {

/// What identifies one generation of a database file: its canonical path,
/// size, modification and change times, and the file-system identity.
#[derive(Debug, PartialEq, Eq, Hash)]
pub struct DatabaseIdentity {
    pub canonical_path: String,
    pub size: u64,
    pub modified_ns: u64,
    pub changed_ns: i64,
    pub volume_id: i64,
    pub file_id: i64,
    pub file_id_high: i64,
}

/// Mathematical model of a database identity.
pub struct IdentityModel {
    pub canonical_path: Seq<char>,
    pub size: u64,
    pub modified_ns: u64,
    pub changed_ns: i64,
    pub volume_id: i64,
    pub file_id: i64,
    pub file_id_high: i64,
}

impl View for DatabaseIdentity {
    type V = IdentityModel;

    open spec fn view(&self) -> IdentityModel {
        IdentityModel {
            canonical_path: self.canonical_path@,
            size: self.size,
            modified_ns: self.modified_ns,
            changed_ns: self.changed_ns,
            volume_id: self.volume_id,
            file_id: self.file_id,
            file_id_high: self.file_id_high,
        }
    }
}

impl DatabaseIdentity {
    /// A copy with the same model.
    pub fn duplicate(&self) -> (r: DatabaseIdentity)
        ensures
            r@ == self@,
    {
        DatabaseIdentity {
            canonical_path: self.canonical_path.clone(),
            size: self.size,
            modified_ns: self.modified_ns,
            changed_ns: self.changed_ns,
            volume_id: self.volume_id,
            file_id: self.file_id,
            file_id_high: self.file_id_high,
        }
    }
}

impl Clone for DatabaseIdentity {
    fn clone(&self) -> (r: Self)
        ensures
            r@ == self@,
    {
        self.duplicate()
    }
}

/// Whether two identities name the same generation.
pub fn identity_eq(a: &DatabaseIdentity, b: &DatabaseIdentity) -> (r: bool)
    ensures
        r == (a@ == b@),
{
    str_equal(a.canonical_path.as_str(), b.canonical_path.as_str()) && a.size == b.size
        && a.modified_ns == b.modified_ns && a.changed_ns == b.changed_ns && a.volume_id
        == b.volume_id && a.file_id == b.file_id && a.file_id_high == b.file_id_high
}

/// The bytes that a snapshot of this generation counts for: its size, or
/// `usize::MAX` where the size does not fit a `usize`.
pub open spec fn size_bytes(id: IdentityModel) -> int {
    if id.size <= usize::MAX {
        id.size as int
    } else {
        usize::MAX as int
    }
}

/// Addition that stops at `usize::MAX`.
pub open spec fn sat_add(a: int, b: int) -> int {
    if a + b > usize::MAX {
        usize::MAX as int
    } else {
        a + b
    }
}

/// Subtraction that stops at zero.
pub open spec fn sat_sub(a: int, b: int) -> int {
    if a - b < 0 {
        0
    } else {
        a - b
    }
}

/// The position of the entry for `key`, if any (the first one).
pub open spec fn key_index<R>(entries: Seq<(IdentityModel, R)>, key: IdentityModel) -> Option<int> {
    if exists|i: int|
        0 <= i < entries.len() && #[trigger] entries[i].0 == key && forall|j: int|
            0 <= j < i ==> entries[j].0 != key {
        Some(
            choose|i: int|
                0 <= i < entries.len() && #[trigger] entries[i].0 == key && forall|j: int|
                    0 <= j < i ==> entries[j].0 != key,
        )
    } else {
        None
    }
}

/// The entries after storing `value` under `key`: an existing entry is
/// replaced in place, a new key is appended.
pub open spec fn store<R>(entries: Seq<(IdentityModel, R)>, key: IdentityModel, value: R) -> Seq<
    (IdentityModel, R),
> {
    match key_index(entries, key) {
        Some(i) => entries.update(i, (key, value)),
        None => entries.push((key, value)),
    }
}

/// Eviction in insertion order: while the counted bytes exceed the limit
/// and more than one snapshot is cached, the oldest generation in the
/// order is dropped (and its bytes uncounted); reaching the newest
/// generation moves it to the back and stops.
pub open spec fn evict<R>(
    entries: Seq<(IdentityModel, R)>,
    order: Seq<IdentityModel>,
    bytes: int,
    newest: IdentityModel,
    max: int,
) -> (Seq<(IdentityModel, R)>, Seq<IdentityModel>, int)
    decreases order.len(),
{
    if bytes > max && entries.len() > 1 && order.len() > 0 {
        let oldest = order[0];
        if oldest == newest {
            (entries, order.drop_first().push(oldest), bytes)
        } else {
            match key_index(entries, oldest) {
                Some(i) => evict(
                    entries.remove(i),
                    order.drop_first(),
                    sat_sub(bytes, size_bytes(oldest)),
                    newest,
                    max,
                ),
                None => evict(entries, order.drop_first(), bytes, newest, max),
            }
        }
    } else {
        (entries, order, bytes)
    }
}

/// The models of cache entries.
pub open spec fn entries_model<R>(entries: Seq<(DatabaseIdentity, R)>) -> Seq<(IdentityModel, R)> {
    entries.map_values(|e: (DatabaseIdentity, R)| (e.0@, e.1))
}

/// The models of identities.
pub open spec fn order_model(order: Seq<DatabaseIdentity>) -> Seq<IdentityModel> {
    order.map_values(|id: DatabaseIdentity| id@)
}

/// No two entries have the same key.
pub open spec fn distinct_keys<R>(entries: Seq<(IdentityModel, R)>) -> bool {
    forall|i: int, j: int| 0 <= i < j < entries.len() ==> #[trigger] entries[i].0 != #[trigger] entries[j].0
}

/// Where keys are distinct, the position of a key is where it is.
pub proof fn lemma_key_index_distinct<R>(entries: Seq<(IdentityModel, R)>, key: IdentityModel, i: int)
    requires
        distinct_keys(entries),
        0 <= i < entries.len(),
        entries[i].0 == key,
    ensures
        key_index(entries, key) == Some(i),
{
    assert forall|j: int| 0 <= j < i implies entries[j].0 != key by {
        assert(entries[j].0 != entries[i].0);
    }
    let c = choose|c: int|
        0 <= c < entries.len() && #[trigger] entries[c].0 == key && forall|j: int|
            0 <= j < c ==> entries[j].0 != key;
    if c > i {
        assert(entries[i].0 != key);
    }
    if c < i {
        assert(entries[c].0 != entries[i].0);
    }
}

/// A key's entry is where `key_index` says, and has that key.
pub proof fn lemma_key_index_found<R>(entries: Seq<(IdentityModel, R)>, key: IdentityModel)
    ensures
        key_index(entries, key) matches Some(i) ==> 0 <= i < entries.len() && entries[i].0 == key,
        key_index(entries, key) is None ==> forall|j: int|
            0 <= j < entries.len() ==> #[trigger] entries[j].0 != key,
{
    if key_index(entries, key) is None {
        assert forall|j: int| 0 <= j < entries.len() implies #[trigger] entries[j].0 != key by {
            if entries[j].0 == key {
                // the first occurrence would have been found
                lemma_first_occurrence(entries, key, j);
            }
        }
    }
}

/// If a key occurs, it has a first occurrence.
pub proof fn lemma_first_occurrence<R>(entries: Seq<(IdentityModel, R)>, key: IdentityModel, j: int)
    requires
        0 <= j < entries.len(),
        entries[j].0 == key,
    ensures
        key_index(entries, key) is Some,
    decreases j,
{
    if exists|i: int| 0 <= i < j && entries[i].0 == key {
        let i = choose|i: int| 0 <= i < j && entries[i].0 == key;
        lemma_first_occurrence(entries, key, i);
    } else {
        assert(0 <= j < entries.len() && entries[j].0 == key && forall|x: int|
            0 <= x < j ==> entries[x].0 != key);
    }
}

/// Storing keeps keys distinct and leaves the key with the value.
pub proof fn lemma_store<R>(entries: Seq<(IdentityModel, R)>, key: IdentityModel, value: R)
    requires
        distinct_keys(entries),
    ensures
        distinct_keys(store(entries, key, value)),
        key_index(store(entries, key, value), key) matches Some(i) && store(entries, key, value)[i].1
            == value,
{
    lemma_key_index_found(entries, key);
    let stored = store(entries, key, value);
    match key_index(entries, key) {
        Some(i) => {
            assert forall|a: int, b: int| 0 <= a < b < stored.len() implies #[trigger] stored[a].0
                != #[trigger] stored[b].0 by {
                assert(entries[a].0 != entries[b].0);
            }
            lemma_key_index_distinct(stored, key, i);
        },
        None => {
            assert forall|a: int, b: int| 0 <= a < b < stored.len() implies #[trigger] stored[a].0
                != #[trigger] stored[b].0 by {
                if b < entries.len() {
                    assert(entries[a].0 != entries[b].0);
                }
            }
            lemma_key_index_distinct(stored, key, entries.len() as int);
        },
    }
}

/// Eviction keeps keys distinct and never drops the newest generation.
pub proof fn lemma_evict_keeps<R>(
    entries: Seq<(IdentityModel, R)>,
    order: Seq<IdentityModel>,
    bytes: int,
    newest: IdentityModel,
    max: int,
    value: R,
)
    requires
        distinct_keys(entries),
        key_index(entries, newest) matches Some(i) && entries[i].1 == value,
    ensures
        distinct_keys(evict(entries, order, bytes, newest, max).0),
        key_index(evict(entries, order, bytes, newest, max).0, newest) matches Some(i) && evict(
            entries,
            order,
            bytes,
            newest,
            max,
        ).0[i].1 == value,
    decreases order.len(),
{
    if bytes > max && entries.len() > 1 && order.len() > 0 {
        let oldest = order[0];
        if oldest != newest {
            lemma_key_index_found(entries, oldest);
            if let Some(j) = key_index(entries, oldest) {
                let rest = entries.remove(j);
                let i = key_index(entries, newest)->Some_0;
                lemma_key_index_found(entries, newest);
                assert(i != j);
                assert forall|a: int, b: int| 0 <= a < b < rest.len() implies #[trigger] rest[a].0
                    != #[trigger] rest[b].0 by {
                    let a0 = if a < j { a } else { a + 1 };
                    let b0 = if b < j { b } else { b + 1 };
                    assert(rest[a] == entries[a0]);
                    assert(rest[b] == entries[b0]);
                    assert(entries[a0].0 != entries[b0].0);
                }
                let i2 = if i < j { i } else { i - 1 };
                assert(rest[i2] == entries[i]);
                lemma_key_index_distinct(rest, newest, i2);
                lemma_evict_keeps(rest, order.drop_first(), sat_sub(bytes, size_bytes(oldest)), newest, max, value);
            } else {
                lemma_evict_keeps(entries, order.drop_first(), bytes, newest, max, value);
            }
        }
    }
}

/// The bytes counted for some cached generations.
pub open spec fn sum_sizes<R>(entries: Seq<(IdentityModel, R)>) -> int
    decreases entries.len(),
{
    if entries.len() == 0 {
        0
    } else {
        size_bytes(entries[0].0) + sum_sizes(entries.drop_first())
    }
}

/// A cache state whose order lists the cached generations as they were
/// inserted, once each, and whose count is their total size.
pub open spec fn consistent<R>(entries: Seq<(IdentityModel, R)>, order: Seq<IdentityModel>, bytes: int) -> bool {
    &&& distinct_keys(entries)
    &&& order == entries.map_values(|e: (IdentityModel, R)| e.0)
    &&& bytes == sum_sizes(entries)
}

/// Appending an entry adds its size to the total.
pub proof fn lemma_sum_sizes_push<R>(entries: Seq<(IdentityModel, R)>, e: (IdentityModel, R))
    ensures
        sum_sizes(entries.push(e)) == sum_sizes(entries) + size_bytes(e.0),
    decreases entries.len(),
{
    if entries.len() > 0 {
        assert(entries.push(e).drop_first() =~= entries.drop_first().push(e));
        assert(entries.push(e)[0] == entries[0]);
        lemma_sum_sizes_push(entries.drop_first(), e);
        assert(sum_sizes(entries.push(e)) == size_bytes(entries[0].0) + sum_sizes(entries.push(e).drop_first()));
        assert(sum_sizes(entries) == size_bytes(entries[0].0) + sum_sizes(entries.drop_first()));
    } else {
        assert(sum_sizes(entries) == 0);
        assert(entries.push(e).drop_first() =~= Seq::<(IdentityModel, R)>::empty());
        assert(sum_sizes(entries.push(e).drop_first()) == 0);
        assert(entries.push(e)[0] == e);
    }
}

/// A total of sizes is never negative.
pub proof fn lemma_sum_sizes_nonneg<R>(entries: Seq<(IdentityModel, R)>)
    ensures
        sum_sizes(entries) >= 0,
    decreases entries.len(),
{
    if entries.len() > 0 {
        lemma_sum_sizes_nonneg(entries.drop_first());
    }
}

/// Eviction from a state whose order lists its distinct generations, the
/// newest last, keeps that shape and ends within the limit or with the
/// newest alone; from a state whose count is its total size, it keeps the
/// count exact.
pub proof fn lemma_evict_consistent<R>(
    entries: Seq<(IdentityModel, R)>,
    order: Seq<IdentityModel>,
    bytes: int,
    newest: IdentityModel,
    max: int,
)
    requires
        distinct_keys(entries),
        order == entries.map_values(|e: (IdentityModel, R)| e.0),
        entries.len() > 0,
        entries.last().0 == newest,
    ensures
        distinct_keys(evict(entries, order, bytes, newest, max).0),
        evict(entries, order, bytes, newest, max).1 == evict(entries, order, bytes, newest, max).0.map_values(
            |e: (IdentityModel, R)| e.0,
        ),
        bytes == sum_sizes(entries) ==> consistent(
            evict(entries, order, bytes, newest, max).0,
            evict(entries, order, bytes, newest, max).1,
            evict(entries, order, bytes, newest, max).2,
        ),
        evict(entries, order, bytes, newest, max).2 <= max || evict(entries, order, bytes, newest, max).0.len() == 1,
        evict(entries, order, bytes, newest, max).0.len() > 0,
        evict(entries, order, bytes, newest, max).0.last().0 == newest,
    decreases order.len(),
{
    assert(order.len() == entries.len());
    if bytes > max && entries.len() > 1 && order.len() > 0 {
        let oldest = order[0];
        assert(oldest == entries[0].0);
        assert(oldest != newest) by {
            assert(entries[0].0 != entries[entries.len() - 1].0);
        }
        lemma_key_index_distinct(entries, oldest, 0);
        let rest = entries.remove(0);
        assert(rest =~= entries.drop_first());
        lemma_sum_sizes_nonneg(rest);
        assert forall|a: int, b: int| 0 <= a < b < rest.len() implies #[trigger] rest[a].0
            != #[trigger] rest[b].0 by {
            assert(entries[a + 1].0 != entries[b + 1].0);
        }
        assert(order.drop_first() =~= rest.map_values(|e: (IdentityModel, R)| e.0));
        lemma_evict_consistent(rest, order.drop_first(), sat_sub(bytes, size_bytes(oldest)), newest, max);
    }
}

/// Eviction kept the entries after the shortest prefix of the oldest
/// generations whose removal brings the counted total within the limit (all
/// but the last entry, if none does), with their order and their exact
/// total.
pub open spec fn drops_shortest_prefix<R>(
    entries: Seq<(IdentityModel, R)>,
    order: Seq<IdentityModel>,
    max: int,
    r: (Seq<(IdentityModel, R)>, Seq<IdentityModel>, int),
) -> bool {
    exists|m: int|
        0 <= m < entries.len() && r.0 == #[trigger] entries.skip(m) && r.1 == order.skip(m) && r.2
            == sum_sizes(entries.skip(m)) && (forall|j: int|
            0 <= j < m ==> #[trigger] sum_sizes(entries.skip(j)) > max) && (sum_sizes(
            entries.skip(m),
        ) <= max || m == entries.len() - 1)
}

/// From a consistent state whose newest generation is last, eviction drops
/// the shortest prefix of the oldest generations that brings the total
/// within the limit.
proof fn lemma_evict_prefix<R>(
    entries: Seq<(IdentityModel, R)>,
    order: Seq<IdentityModel>,
    bytes: int,
    newest: IdentityModel,
    max: int,
)
    requires
        consistent(entries, order, bytes),
        entries.len() > 0,
        entries.last().0 == newest,
    ensures
        drops_shortest_prefix(entries, order, max, evict(entries, order, bytes, newest, max)),
    decreases order.len(),
{
    assert(order.len() == entries.len());
    if bytes > max && entries.len() > 1 && order.len() > 0 {
        let oldest = order[0];
        assert(oldest == entries[0].0);
        assert(oldest != newest) by {
            assert(entries[0].0 != entries[entries.len() - 1].0);
        }
        lemma_key_index_distinct(entries, oldest, 0);
        let rest = entries.remove(0);
        assert(rest =~= entries.drop_first());
        lemma_sum_sizes_nonneg(rest);
        assert forall|a: int, b: int| 0 <= a < b < rest.len() implies #[trigger] rest[a].0
            != #[trigger] rest[b].0 by {
            assert(entries[a + 1].0 != entries[b + 1].0);
        }
        assert(order.drop_first() =~= rest.map_values(|e: (IdentityModel, R)| e.0));
        let next = sat_sub(bytes, size_bytes(oldest));
        assert(next == sum_sizes(rest));
        lemma_evict_prefix(rest, order.drop_first(), next, newest, max);
        let r = evict(rest, order.drop_first(), next, newest, max);
        let m = choose|m: int|
            0 <= m < rest.len() && r.0 == #[trigger] rest.skip(m) && r.1 == order.drop_first().skip(
                m,
            ) && r.2 == sum_sizes(rest.skip(m)) && (forall|j: int|
                0 <= j < m ==> #[trigger] sum_sizes(rest.skip(j)) > max) && (sum_sizes(rest.skip(m))
                <= max || m == rest.len() - 1);
        assert(entries.skip(m + 1) =~= rest.skip(m));
        assert(order.skip(m + 1) =~= order.drop_first().skip(m));
        assert forall|j: int| 0 <= j < m + 1 implies #[trigger] sum_sizes(entries.skip(j)) > max by {
            if j == 0 {
                assert(entries.skip(0) =~= entries);
            } else {
                assert(entries.skip(j) =~= rest.skip(j - 1));
            }
        }
        assert(evict(entries, order, bytes, newest, max) == r);
        assert(r.0 == entries.skip(m + 1));
    } else {
        assert(entries.skip(0) =~= entries);
        assert(order.skip(0) =~= order);
        assert(evict(entries, order, bytes, newest, max) == (entries, order, bytes));
        assert(entries.skip(0) == entries);
    }
}

/// The snapshot cache stays within its byte limit: inserting a generation
/// that is not cached into a consistent cache leaves a cache that lists its
/// distinct generations in insertion order, keeps the new snapshot, and
/// counts at most the limit unless the new snapshot is the only one left.
/// Whenever the total of the sizes fits a `usize` (beyond, the count
/// saturates), the count stays that exact total, and eviction drops exactly
/// the shortest prefix of the oldest generations that brings it within the
/// limit (all but the new one if none does), keeping every other snapshot.
pub proof fn law_cache_stays_within_limit<R>(
    entries: Seq<(IdentityModel, R)>,
    order: Seq<IdentityModel>,
    bytes: int,
    identity: IdentityModel,
    reader: R,
    max: int,
)
    requires
        consistent(entries, order, bytes),
        key_index(entries, identity) is None,
    ensures
        ({
            let (e, o, b) = evict(
                store(entries, identity, reader),
                order.push(identity),
                sat_add(bytes, size_bytes(identity)),
                identity,
                max,
            );
            &&& distinct_keys(e)
            &&& o == e.map_values(|x: (IdentityModel, R)| x.0)
            &&& bytes + size_bytes(identity) <= usize::MAX ==> consistent(e, o, b)
            &&& bytes + size_bytes(identity) <= usize::MAX ==> drops_shortest_prefix(
                store(entries, identity, reader),
                order.push(identity),
                max,
                (e, o, b),
            )
            &&& b <= max || e.len() == 1
            &&& key_index(e, identity) matches Some(i) && e[i].1 == reader
        }),
{
    let stored = store(entries, identity, reader);
    assert(stored == entries.push((identity, reader)));
    lemma_store(entries, identity, reader);
    lemma_sum_sizes_push(entries, (identity, reader));
    lemma_key_index_found(entries, identity);
    assert(order.push(identity) =~= stored.map_values(|e: (IdentityModel, R)| e.0));
    lemma_evict_consistent(stored, order.push(identity), sat_add(bytes, size_bytes(identity)), identity, max);
    lemma_evict_keeps(stored, order.push(identity), sat_add(bytes, size_bytes(identity)), identity, max, reader);
    if bytes + size_bytes(identity) <= usize::MAX {
        lemma_evict_prefix(stored, order.push(identity), sat_add(bytes, size_bytes(identity)), identity, max);
    }
}

/// Snapshots of database generations, kept in insertion order and counted
/// by their bytes.
pub struct ReaderCache<R> {
    readers: Vec<(DatabaseIdentity, R)>,
    insertion_order: VecDeque<DatabaseIdentity>,
    bytes: usize,
}

impl<R> ReaderCache<R> {
    /// The cached generations with their snapshots.
    pub closed spec fn entries(&self) -> Seq<(IdentityModel, R)> {
        entries_model(self.readers@)
    }

    /// The generations in the order they were inserted.
    pub closed spec fn order(&self) -> Seq<IdentityModel> {
        order_model(self.insertion_order@)
    }

    /// The counted bytes.
    pub closed spec fn counted(&self) -> int {
        self.bytes as int
    }

    /// The cache holds at most one snapshot per generation.
    pub open spec fn wf(&self) -> bool {
        distinct_keys(self.entries())
    }

    /// The order lists the cached generations once each, and the count is
    /// their total size.
    pub open spec fn is_consistent(&self) -> bool {
        consistent(self.entries(), self.order(), self.counted())
    }

    /// An empty cache.
    pub fn new() -> (r: Self)
        ensures
            r.wf(),
            r.is_consistent(),
            r.entries() == Seq::<(IdentityModel, R)>::empty(),
            r.order() == Seq::<IdentityModel>::empty(),
            r.counted() == 0,
    {
        let r = ReaderCache { readers: Vec::new(), insertion_order: VecDeque::new(), bytes: 0 };
        assert(r.entries() =~= Seq::<(IdentityModel, R)>::empty());
        assert(r.order() =~= Seq::<IdentityModel>::empty());
        assert(r.order() =~= r.entries().map_values(|e: (IdentityModel, R)| e.0));
        r
    }

    /// The number of counted bytes.
    pub fn bytes(&self) -> (r: usize)
        ensures
            r == self.counted(),
    {
        self.bytes
    }

    /// The number of cached snapshots.
    pub fn len(&self) -> (r: usize)
        ensures
            r == self.entries().len(),
    {
        self.readers.len()
    }

    /// The position of the snapshot for a generation.
    fn position(&self, identity: &DatabaseIdentity) -> (r: Option<usize>)
        ensures
            match r {
                Some(i) => key_index(self.entries(), identity@) == Some(i as int) && i
                    < self.readers@.len(),
                None => key_index(self.entries(), identity@) is None,
            },
    {
        let ghost es = self.entries();
        let n = self.readers.len();
        let mut i: usize = 0;
        while i < n
            invariant
                n == self.readers@.len(),
                es == entries_model(self.readers@),
                i <= n,
                forall|j: int| 0 <= j < i ==> #[trigger] es[j].0 != identity@,
            decreases n - i,
        {
            if identity_eq(&self.readers[i].0, identity) {
                proof {
                    assert(es[i as int].0 == identity@);
                    let c = choose|c: int|
                        0 <= c < es.len() && #[trigger] es[c].0 == identity@ && forall|j: int|
                            0 <= j < c ==> es[j].0 != identity@;
                    if c < i {
                        assert(es[c].0 != identity@);
                    }
                    if c > i {
                        assert(es[i as int].0 != identity@);
                    }
                }
                return Some(i);
            }
            assert(es[i as int].0 != identity@);
            i = i + 1;
        }
        proof {
            if exists|c: int|
                0 <= c < es.len() && #[trigger] es[c].0 == identity@ && forall|j: int|
                    0 <= j < c ==> es[j].0 != identity@ {
                let c = choose|c: int|
                    0 <= c < es.len() && #[trigger] es[c].0 == identity@ && forall|j: int|
                        0 <= j < c ==> es[j].0 != identity@;
                assert(es[c].0 != identity@);
            }
        }
        None
    }

    /// The snapshot cached for a generation.
    pub fn get(&self, identity: &DatabaseIdentity) -> (r: Option<&R>)
        ensures
            match key_index(self.entries(), identity@) {
                Some(i) => r == Some(&self.entries()[i].1),
                None => r is None,
            },
    {
        match self.position(identity) {
            Some(i) => Some(&self.readers[i].1),
            None => None,
        }
    }

    /// Caches the snapshot of a generation and counts its bytes, then
    /// evicts the oldest generations while the counted bytes exceed
    /// `max_bytes` and more than one snapshot is cached. The newest
    /// snapshot always stays.
    pub fn insert(&mut self, identity: DatabaseIdentity, reader: R, max_bytes: usize)
        requires
            old(self).wf(),
        ensures
            final(self).wf(),
            (final(self).entries(), final(self).order(), final(self).counted()) == evict(
                store(old(self).entries(), identity@, reader),
                old(self).order().push(identity@),
                sat_add(old(self).counted(), size_bytes(identity@)),
                identity@,
                max_bytes as int,
            ),
            key_index(final(self).entries(), identity@) matches Some(i) && final(self).entries()[i].1
                == reader,
    {
        let reader_bytes: usize = if identity.size <= (usize::MAX as u64) {
            identity.size as usize
        } else {
            usize::MAX
        };
        self.bytes = self.bytes.saturating_add(reader_bytes);
        let ghost old_order = self.order();
        self.insertion_order.push_back(identity.duplicate());
        assert(self.order() =~= old_order.push(identity@));
        let ghost old_entries = self.entries();
        match self.position(&identity) {
            Some(i) => {
                self.readers.set(i, (identity.duplicate(), reader));
                assert(self.entries() =~= store(old_entries, identity@, reader));
            },
            None => {
                self.readers.push((identity.duplicate(), reader));
                assert(self.entries() =~= store(old_entries, identity@, reader));
            },
        }
        proof {
            lemma_store(old_entries, identity@, reader);
            lemma_evict_keeps(
                self.entries(),
                self.order(),
                self.bytes as int,
                identity@,
                max_bytes as int,
                reader,
            );
        }
        let ghost target = evict(
            self.entries(),
            self.order(),
            self.bytes as int,
            identity@,
            max_bytes as int,
        );
        while self.bytes > max_bytes && self.readers.len() > 1
            invariant_except_break
                evict(self.entries(), self.order(), self.bytes as int, identity@, max_bytes as int)
                    == target,
            ensures
                (self.entries(), self.order(), self.bytes as int) == target,
            decreases self.insertion_order@.len(),
        {
            let ghost before_order = self.order();
            let oldest = match self.insertion_order.pop_front() {
                Some(oldest) => oldest,
                None => {
                    break;
                },
            };
            assert(self.order() =~= before_order.drop_first());
            if identity_eq(&oldest, &identity) {
                self.insertion_order.push_back(oldest);
                assert(self.order() =~= before_order.drop_first().push(before_order[0]));
                break;
            }
            let ghost before_entries = self.entries();
            match self.position(&oldest) {
                Some(i) => {
                    self.readers.remove(i);
                    assert(self.entries() =~= before_entries.remove(i as int));
                    let oldest_bytes: usize = if oldest.size <= (usize::MAX as u64) {
                        oldest.size as usize
                    } else {
                        usize::MAX
                    };
                    self.bytes = self.bytes.saturating_sub(oldest_bytes);
                },
                None => {},
            }
        }
    }

    /// Whether a generation is cached.
    pub fn contains(&self, identity: &DatabaseIdentity) -> (r: bool)
        ensures
            r == key_index(self.entries(), identity@) is Some,
    {
        self.position(identity).is_some()
    }
}


/// The default limit on cached snapshot bytes: 512 MiB.
pub const DEFAULT_CACHE_MAX_BYTES: usize = 536870912;

/// The environment variable that overrides the limit.
pub const CACHE_MAX_BYTES_ENV: &'static str = "MAXMINDDB_POLARS_CACHE_MAX_BYTES";

/// What the limit's environment variable holds.
#[derive(Debug, PartialEq, Eq)]
pub enum CacheLimitSetting {
    /// The variable is not set.
    Unset,
    /// The variable holds text that is not valid Unicode.
    NotUnicode,
    /// The variable holds this text.
    Text(String),
}

/// Why a decimal number could not be read.
#[derive(Debug, PartialEq, Eq)]
pub enum NumberError {
    /// There was no text.
    Empty,
    /// A character is not a decimal digit.
    InvalidDigit,
    /// The number does not fit a `usize`.
    TooLarge,
}

/// Whether a character is an ASCII decimal digit.
pub open spec fn is_digit(c: char) -> bool {
    '0' <= c <= '9'
}

/// The value of an ASCII decimal digit.
pub open spec fn digit_value(c: char) -> int {
    c as int - '0' as int
}

/// Reads digits from the left: the first non-digit, or the first prefix
/// whose value exceeds `usize::MAX`, stops the reading.
pub open spec fn read_digits(s: Seq<char>, acc: int) -> Result<int, NumberError>
    decreases s.len(),
{
    if s.len() == 0 {
        Ok(acc)
    } else if !is_digit(s[0]) {
        Err(NumberError::InvalidDigit)
    } else if acc * 10 + digit_value(s[0]) > usize::MAX {
        Err(NumberError::TooLarge)
    } else {
        read_digits(s.drop_first(), acc * 10 + digit_value(s[0]))
    }
}

/// A non-negative decimal number as Rust's `usize` parser reads it: an
/// optional leading `+`, then one or more digits, within `usize::MAX`.
pub open spec fn parse_usize(s: Seq<char>) -> Result<int, NumberError> {
    if s.len() == 0 {
        Err(NumberError::Empty)
    } else if s == seq!['+'] || s == seq!['-'] {
        Err(NumberError::InvalidDigit)
    } else if s[0] == '+' {
        read_digits(s.drop_first(), 0)
    } else {
        read_digits(s, 0)
    }
}

/// Reads a non-negative decimal number.
pub fn parse_usize_text(text: &str) -> (r: Result<usize, NumberError>)
    ensures
        match r {
            Ok(n) => parse_usize(text@) == Ok::<int, NumberError>(n as int),
            Err(e) => parse_usize(text@) == Err::<int, NumberError>(e),
        },
{
    let n = text.unicode_len();
    if n == 0 {
        return Err(NumberError::Empty);
    }
    let first = text.get_char(0);
    if n == 1 && (first == '+' || first == '-') {
        assert(text@ =~= seq![first]);
        return Err(NumberError::InvalidDigit);
    }
    proof {
        if text@ == seq!['+'] || text@ == seq!['-'] {
            assert(text@.len() == 1);
        }
    }
    let mut i: usize = if first == '+' { 1 } else { 0 };
    let ghost digits = if first == '+' { text@.drop_first() } else { text@ };
    let mut acc: usize = 0;
    assert(text@.skip(i as int) =~= digits);
    assert(parse_usize(text@) == read_digits(digits, 0));
    while i < n
        invariant
            n == text@.len(),
            parse_usize(text@) == read_digits(digits, 0),
            i <= n,
            read_digits(digits, 0) == read_digits(text@.skip(i as int), acc as int),
        decreases n - i,
    {
        let c = text.get_char(i);
        assert(text@.skip(i as int)[0] == c);
        assert(text@.skip(i as int).drop_first() =~= text@.skip(i + 1));
        if !('0' <= c && c <= '9') {
            return Err(NumberError::InvalidDigit);
        }
        let d = (c as u32 - '0' as u32) as usize;
        assert(d as int == digit_value(c));
        if acc > (usize::MAX - d) / 10 {
            assert(acc * 10 + d > usize::MAX) by (nonlinear_arith)
                requires
                    acc > (usize::MAX - d) / 10,
                    d <= 9,
            ;
            return Err(NumberError::TooLarge);
        }
        assert(acc * 10 + d <= usize::MAX) by (nonlinear_arith)
            requires
                acc <= (usize::MAX - d) / 10,
                d <= 9,
        ;
        acc = acc * 10 + d;
        i = i + 1;
    }
    assert(text@.skip(n as int) =~= Seq::<char>::empty());
    Ok(acc)
}

/// Why the configured limit cannot be used.
pub open spec fn limit_error_text(setting: CacheLimitSetting, e: NumberError) -> Seq<char> {
    "MAXMINDDB_POLARS_CACHE_MAX_BYTES must be a non-negative integer number of bytes: "@ + match e {
        NumberError::Empty => "cannot parse integer from empty string"@,
        NumberError::InvalidDigit => "invalid digit found in string"@,
        NumberError::TooLarge => "number too large to fit in target type"@,
    }
}

/// The snapshot byte limit that a setting gives: the default when unset,
/// the number it holds, or the reason it cannot be used.
pub fn parse_cache_max_bytes(setting: &CacheLimitSetting) -> (r: Result<usize, String>)
    ensures
        match setting {
            CacheLimitSetting::Unset => r == Ok::<usize, String>(DEFAULT_CACHE_MAX_BYTES),
            CacheLimitSetting::NotUnicode => r matches Err(m) && m@
                == "MAXMINDDB_POLARS_CACHE_MAX_BYTES must be valid UTF-8"@,
            CacheLimitSetting::Text(text) => match parse_usize(text@) {
                Ok(n) => r matches Ok(x) && x == n,
                Err(e) => r matches Err(m) && m@ == limit_error_text(*setting, e),
            },
        },
{
    match setting {
        CacheLimitSetting::Unset => Ok(DEFAULT_CACHE_MAX_BYTES),
        CacheLimitSetting::NotUnicode => Err(
            "MAXMINDDB_POLARS_CACHE_MAX_BYTES must be valid UTF-8".to_owned(),
        ),
        CacheLimitSetting::Text(text) => match parse_usize_text(text.as_str()) {
            Ok(n) => Ok(n),
            Err(e) => {
                let mut m = String::new();
                m.append(
                    "MAXMINDDB_POLARS_CACHE_MAX_BYTES must be a non-negative integer number of bytes: ",
                );
                match e {
                    NumberError::Empty => m.append("cannot parse integer from empty string"),
                    NumberError::InvalidDigit => m.append("invalid digit found in string"),
                    NumberError::TooLarge => m.append("number too large to fit in target type"),
                }
                assert(m@ =~= limit_error_text(*setting, e));
                Err(m)
            },
        },
    }
}


/// Why a snapshot of a database file cannot be used.
#[derive(Debug, PartialEq, Eq)]
pub enum SnapshotError {
    /// The path now resolves elsewhere.
    PathChanged { expected: String, actual: String },
    /// The file is not the generation the expression was built for.
    ChangedAfterConstruction { path: String },
    /// The file changed while its bytes were read.
    ChangedWhileReading { path: String },
}

/// The text of a snapshot error.
pub open spec fn snapshot_error_text(e: SnapshotError) -> Seq<char> {
    match e {
        SnapshotError::PathChanged { expected, actual } => "MMDB path identity changed from "@
            + quoted(expected@) + " to "@ + quoted(actual@) + "; reconstruct the expression"@,
        SnapshotError::ChangedAfterConstruction { path } => "MMDB file "@ + quoted(path@)
            + " changed after expression construction; reconstruct the expression"@,
        SnapshotError::ChangedWhileReading { path } => "MMDB file "@ + quoted(path@)
            + " changed while it was being read; reconstruct the expression"@,
    }
}

impl SnapshotError {
    /// The text of this error.
    pub fn message(&self) -> (r: String)
        ensures
            r@ == snapshot_error_text(*self),
    {
        let mut out = String::new();
        match self {
            SnapshotError::PathChanged { expected, actual } => {
                out.append("MMDB path identity changed from ");
                push_quoted(&mut out, expected.as_str());
                out.append(" to ");
                push_quoted(&mut out, actual.as_str());
                out.append("; reconstruct the expression");
            },
            SnapshotError::ChangedAfterConstruction { path } => {
                out.append("MMDB file ");
                push_quoted(&mut out, path.as_str());
                out.append(" changed after expression construction; reconstruct the expression");
            },
            SnapshotError::ChangedWhileReading { path } => {
                out.append("MMDB file ");
                push_quoted(&mut out, path.as_str());
                out.append(" changed while it was being read; reconstruct the expression");
            },
        }
        assert(out@ =~= snapshot_error_text(*self));
        out
    }
}

/// The path must still resolve to the canonical path of the generation.
pub fn check_resolved_path(identity: &DatabaseIdentity, resolved: &str) -> (r: Result<
    (),
    SnapshotError,
>)
    ensures
        resolved@ == identity.canonical_path@ <==> r is Ok,
        r matches Err(e) ==> e matches SnapshotError::PathChanged { expected, actual } && expected@
            == identity.canonical_path@ && actual@ == resolved@,
{
    if str_equal(resolved, identity.canonical_path.as_str()) {
        Ok(())
    } else {
        Err(
            SnapshotError::PathChanged {
                expected: identity.canonical_path.clone(),
                actual: resolved.to_owned(),
            },
        )
    }
}

/// The file on disk must be the generation the expression was built for.
pub fn check_generation(identity: &DatabaseIdentity, current: &DatabaseIdentity) -> (r: Result<
    (),
    SnapshotError,
>)
    ensures
        current@ == identity@ <==> r is Ok,
        r matches Err(e) ==> e matches SnapshotError::ChangedAfterConstruction { path } && path@
            == identity.canonical_path@,
{
    if identity_eq(current, identity) {
        Ok(())
    } else {
        Err(SnapshotError::ChangedAfterConstruction { path: identity.canonical_path.clone() })
    }
}

/// The file must not have changed while its bytes were read.
pub fn check_unchanged(
    identity: &DatabaseIdentity,
    before: &DatabaseIdentity,
    after: &DatabaseIdentity,
) -> (r: Result<(), SnapshotError>)
    ensures
        after@ == before@ <==> r is Ok,
        r matches Err(e) ==> e matches SnapshotError::ChangedWhileReading { path } && path@
            == identity.canonical_path@,
{
    if identity_eq(after, before) {
        Ok(())
    } else {
        Err(SnapshotError::ChangedWhileReading { path: identity.canonical_path.clone() })
    }
}

/// A change time in nanoseconds from its seconds and nanoseconds, if it
/// fits an `i64`.
pub fn changed_ns(seconds: i64, nanoseconds: i64) -> (r: Option<i64>)
    ensures
        match r {
            Some(t) => t as int == seconds * 1_000_000_000 + nanoseconds,
            None => !(i64::MIN <= seconds * 1_000_000_000 + nanoseconds <= i64::MAX),
        },
{
    let total: i128 = (seconds as i128) * 1_000_000_000i128 + (nanoseconds as i128);
    if total >= -0x8000_0000_0000_0000i128 && total <= 0x7fff_ffff_ffff_ffffi128 {
        Some(total as i64)
    } else {
        None
    }
}

/// The 64 bits of an unsigned number read as a signed one.
pub fn signed_bits(value: u64) -> (r: i64)
    ensures
        r as int == if value <= i64::MAX {
            value as int
        } else {
            value - 0x1_0000_0000_0000_0000
        },
{
    if value <= 0x7fff_ffff_ffff_ffff {
        value as i64
    } else {
        let low = (value - 0x8000_0000_0000_0000) as i64;
        low - 0x7fff_ffff_ffff_ffff - 1
    }
}

/// A Windows verbatim path in its ordinary form: `\\?\UNC\server\share`
/// becomes `\\server\share` and `\\?\C:\x` becomes `C:\x`.
pub fn strip_verbatim_prefix(path: &str) -> (r: String)
    ensures
        r@ == if path@.len() >= 8 && path@.take(8) == "\\\\?\\UNC\\"@ {
            "\\\\"@ + path@.skip(8)
        } else if path@.len() >= 4 && path@.take(4) == "\\\\?\\"@ {
            path@.skip(4)
        } else {
            path@
        },
{
    proof {
        reveal_strlit("\\\\?\\UNC\\");
        reveal_strlit("\\\\?\\");
    }
    match strip_prefix(path, "\\\\?\\UNC\\") {
        Some(rest) => {
            let mut out = String::new();
            out.append("\\\\");
            out.append(rest);
            assert(out@ =~= "\\\\"@ + path@.skip(8));
            out
        },
        None => match strip_prefix(path, "\\\\?\\") {
            Some(rest) => rest.to_owned(),
            None => path.to_owned(),
        },
    }
}

} // verus!
