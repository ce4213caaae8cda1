//! The cache of the fastest operation for each autotune key.
//!
//! Entries come from this process, from a store that outlives it, or from a read-only seed. Those
//! that this process did not produce are served only once their checksum was found to match.

use crate::cache_metrics::{
    record_autotune_seed_entries_loaded, record_autotune_writable_entries_loaded,
    record_autotune_write, CacheCounters,
};
use crate::duration::Duration;
use crate::tune_operation::{AutotuneError, AutotuneKey};
use vstd::hash_map::StringHashMap;
use vstd::prelude::*;
use vstd::string::StringExecFns;

verus! {

use vstd::std_specs::cmp::PartialEqSpec;

/// What is known of the checksum of an entry.
#[derive(Debug)]
pub enum ChecksumState {
    /// It is that of the candidates.
    Match,
    /// It is not that of the candidates.
    NoMatch,
    /// It is still to be compared.
    ToBeVerified(String),
}

/// What is cached for a key.
#[derive(Debug)]
pub enum CacheEntry {
    /// The fastest operation was found.
    Done {
        /// What is known of the checksum of the candidates.
        checksum: ChecksumState,
        /// The index of the fastest operation.
        fastest_index: usize,
    },
    /// The key is being tuned.
    Pending,
}

/// What is known of an entry.
pub enum EntryView {
    /// The key is being tuned.
    Pending,
    /// The fastest operation can be served.
    Valid {
        /// The index of the fastest operation.
        fastest_index: usize,
    },
    /// The entry is for other candidates.
    Invalid {
        /// The index of the fastest operation among those.
        fastest_index: usize,
    },
    /// The entry is for the candidates with a checksum, which may be others.
    Unverified {
        /// The checksum.
        checksum: Seq<char>,
        /// The index of the fastest operation.
        fastest_index: usize,
    },
}

impl View for CacheEntry {
    type V = EntryView;

    open spec fn view(&self) -> EntryView {
        match *self {
            CacheEntry::Pending => EntryView::Pending,
            CacheEntry::Done { checksum, fastest_index } => match checksum {
                ChecksumState::Match => EntryView::Valid { fastest_index },
                ChecksumState::NoMatch => EntryView::Invalid { fastest_index },
                ChecksumState::ToBeVerified(checksum) => EntryView::Unverified {
                    checksum: checksum@,
                    fastest_index,
                },
            },
        }
    }
}

/// Persistent cache key.
#[derive(Debug)]
pub struct PersistentCacheKey<K> {
    /// The autotune key identifying the operation.
    pub key: K,
    /// The checksum of the candidates.
    pub checksum: String,
}

/// Persistent cache entry.
///
/// Only the index of the fastest candidate is read back. Everything else is stored so that an
/// entry can be inspected after the fact.
#[derive(Debug)]
pub struct PersistentCacheValue<O, B> {
    /// Index of the fastest candidate operation.
    pub fastest_index: usize,
    /// Benchmarking results for all autotune candidates.
    pub results: Vec<AutotuneResult<O>>,
    /// Optional input size bounds for which the autotune result applies.
    pub bounds: Option<B>,
    /// Optional execution time limit for the autotune process.
    pub limit: Option<Duration>,
}

/// The result of an autotune job.
#[derive(Debug)]
pub struct AutotuneResult<O> {
    /// The outcome of the benchmark.
    pub outcome: Result<O, AutotuneError>,
}

impl<O> AutotuneResult<O> {
    /// A job that failed.
    pub fn error(error: AutotuneError) -> (result: Self)
        ensures
            result.outcome == Err::<O, AutotuneError>(error),
    {
        AutotuneResult { outcome: Err(error) }
    }

    /// A job that succeeded.
    pub fn success(outcome: O) -> (result: Self)
        ensures
            result.outcome == Ok::<O, AutotuneError>(outcome),
    {
        AutotuneResult { outcome: Ok(outcome) }
    }
}

impl<O: PartialEq> PartialEq for AutotuneResult<O> {
    fn eq(&self, other: &Self) -> (same: bool) {
        match (&self.outcome, &other.outcome) {
            (Ok(lhs), Ok(rhs)) => *lhs == *rhs,
            (Ok(_), Err(_)) => false,
            (Err(_), Ok(_)) => false,
            // Which error it was makes no difference.
            (Err(_), Err(_)) => true,
        }
    }
}

impl<O: PartialEq> vstd::std_specs::cmp::PartialEqSpecImpl for AutotuneResult<O> {
    open spec fn obeys_eq_spec() -> bool {
        O::obeys_eq_spec()
    }

    open spec fn eq_spec(&self, other: &Self) -> bool {
        match (self.outcome, other.outcome) {
            (Ok(lhs), Ok(rhs)) => lhs.eq_spec(&rhs),
            (Ok(_), Err(_)) => false,
            (Err(_), Ok(_)) => false,
            (Err(_), Err(_)) => true,
        }
    }
}

/// An entry that a store or a seed holds.
#[derive(Debug)]
pub struct StoredEntry<K> {
    /// The key.
    pub key: K,
    /// The checksum of the candidates.
    pub checksum: String,
    /// The index of the fastest operation.
    pub fastest_index: usize,
}

/// Reads back what is needed of a persistent entry.
pub fn stored_entry<K, O, B>(
    key: PersistentCacheKey<K>,
    value: &PersistentCacheValue<O, B>,
) -> (entry: StoredEntry<K>)
    ensures
        entry.key == key.key,
        entry.checksum == key.checksum,
        entry.fastest_index == value.fastest_index,
{
    StoredEntry { key: key.key, checksum: key.checksum, fastest_index: value.fastest_index }
}

/// The read-only entries of a seed, one for each key.
#[derive(Debug)]
pub struct SeedCache<K> {
    entries: Vec<StoredEntry<K>>,
}

impl<K: AutotuneKey> View for SeedCache<K> {
    type V = Map<Seq<char>, (Seq<char>, usize)>;

    closed spec fn view(&self) -> Map<Seq<char>, (Seq<char>, usize)> {
        seed_map(self.entries@)
    }
}

/// What entries map their keys to; the last one of a key counts.
pub open spec fn seed_map<K: AutotuneKey>(entries: Seq<StoredEntry<K>>) -> Map<Seq<char>, (Seq<char>, usize)>
    decreases entries.len(),
{
    if entries.len() == 0 {
        Map::empty()
    } else {
        let entry = entries.last();
        seed_map(entries.drop_last()).insert(entry.key.text(), (entry.checksum@, entry.fastest_index))
    }
}

/// No key occurs twice.
pub open spec fn distinct_keys<K: AutotuneKey>(entries: Seq<StoredEntry<K>>) -> bool {
    forall|i: int, j: int|
        0 <= i < j < entries.len() ==> (#[trigger] entries[i]).key.text() != (
        #[trigger] entries[j]).key.text()
}

impl<K: AutotuneKey> SeedCache<K> {
    /// Each key has one entry.
    pub closed spec fn wf(&self) -> bool {
        distinct_keys(self.entries@)
    }

    /// Number of keys.
    pub closed spec fn count(&self) -> nat {
        self.entries@.len()
    }

    /// A seed with no entries.
    pub fn new() -> (seed: Self)
        ensures
            seed.wf(),
            seed@ == Map::<Seq<char>, (Seq<char>, usize)>::empty(),
            seed.count() == 0,
    {
        SeedCache { entries: Vec::new() }
    }

    /// Sets the entry of a key.
    pub fn insert(&mut self, key: K, checksum: String, fastest_index: usize)
        requires
            old(self).wf(),
        ensures
            final(self).wf(),
            final(self)@ == old(self)@.insert(key.text(), (checksum@, fastest_index)),
            final(self).count() == old(self).count() + (if old(self)@.contains_key(key.text()) {
                0int
            } else {
                1int
            }),
    {
        let text = key.to_text();
        let ghost before = self.entries@;
        let mut index: usize = 0;
        while index < self.entries.len()
            invariant
                text@ == key.text(),
                index <= self.entries.len(),
                self.entries@ == before,
                distinct_keys(before),
                forall|i: int| 0 <= i < index ==> (#[trigger] before[i]).key.text() != key.text(),
            ensures
                index <= self.entries.len(),
                self.entries@ == before,
                forall|i: int| 0 <= i < index ==> (#[trigger] before[i]).key.text() != key.text(),
                index < before.len() ==> before[index as int].key.text() == key.text(),
            decreases self.entries.len() - index,
        {
            if self.entries[index].key.to_text() == text {
                break;
            }
            index = index + 1;
        }
        let found = index < self.entries.len();
        let ghost at = index as int;
        let ghost added = (key.text(), (checksum@, fastest_index));
        if found {
            self.entries.remove(index);
        }
        let ghost rest = self.entries@;
        self.entries.push(StoredEntry { key, checksum, fastest_index });
        proof {
            assert(self.entries@.drop_last() =~= rest);
            lemma_seed_keys(before);
            if found {
                lemma_seed_remove(before, at);
                assert(rest =~= before.remove(at));
                assert(seed_map(before).contains_key(added.0)) by {
                    assert(before[at].key.text() == added.0);
                }
                assert(seed_map(rest).insert(added.0, added.1) =~= seed_map(before).insert(
                    added.0,
                    added.1,
                ));
                assert forall|i: int, j: int| 0 <= i < j < self.entries@.len() implies (
                #[trigger] self.entries@[i]).key.text() != (#[trigger] self.entries@[j]).key.text() by {
                    let a = if i < at {
                        i
                    } else {
                        i + 1
                    };
                    assert(before[a] == rest[i]);
                    if j == rest.len() {
                        assert(before[at].key.text() == added.0);
                        if a < at {
                            assert(before[a].key.text() != before[at].key.text());
                        } else {
                            assert(before[at].key.text() != before[a].key.text());
                        }
                    } else {
                        let b = if j < at {
                            j
                        } else {
                            j + 1
                        };
                        assert(before[b] == rest[j]);
                        assert(before[a].key.text() != before[b].key.text());
                    }
                }
            } else {
                assert(rest =~= before);
                assert(!seed_map(before).contains_key(added.0));
            }
        }
    }
}

/// The entries among what lines of a seed were read as; a line may not be read as one.
pub open spec fn decoded_entries<K: AutotuneKey>(lines: Seq<Option<StoredEntry<K>>>) -> Seq<StoredEntry<K>>
    decreases lines.len(),
{
    if lines.len() == 0 {
        Seq::empty()
    } else {
        let rest = decoded_entries(lines.drop_last());
        match lines.last() {
            Some(entry) => rest.push(entry),
            None => rest,
        }
    }
}

/// Gathers the entries that the lines of a seed were read as; the last one of a key counts.
pub fn seed_of<K: AutotuneKey>(decoded: Vec<Option<StoredEntry<K>>>) -> (seed: SeedCache<K>)
    ensures
        seed.wf(),
        seed@ == seed_map(decoded_entries(decoded@)),
        seed.count() == seed@.dom().len(),
{
    let mut seed = SeedCache::new();
    let ghost all = decoded@;
    let mut lines = decoded;
    let mut index: usize = 0;
    assert(all.take(0) =~= Seq::<Option<StoredEntry<K>>>::empty());
    while index < lines.len()
        invariant
            index <= lines.len(),
            lines@.len() == all.len(),
            forall|i: int| index <= i < all.len() ==> #[trigger] lines@[i] == all[i],
            seed.wf(),
            seed@ == seed_map(decoded_entries(all.take(index as int))),
            seed@.dom().finite(),
            seed.count() == seed@.dom().len(),
        decreases lines.len() - index,
    {
        proof {
            let next = all.take(index + 1);
            assert(next.drop_last() =~= all.take(index as int));
            assert(next.last() == lines@[index as int]);
        }
        match lines[index].take() {
            Some(entry) => {
                let ghost entries = decoded_entries(all.take(index as int));
                let ghost former = seed@;
                let ghost value = (entry.checksum@, entry.fastest_index);
                proof {
                    assert(entries.push(entry).drop_last() =~= entries);
                    assert(former.insert(entry.key.text(), value).dom() =~= former.dom().insert(
                        entry.key.text(),
                    ));
                }
                seed.insert(entry.key, entry.checksum, entry.fastest_index);
            },
            None => {},
        }
        index = index + 1;
    }
    assert(all.take(index as int) =~= all);
    seed
}

proof fn lemma_seed_keys<K: AutotuneKey>(entries: Seq<StoredEntry<K>>)
    ensures
        forall|k: Seq<char>| #[trigger]
            seed_map(entries).contains_key(k) <==> exists|i: int|
                0 <= i < entries.len() && (#[trigger] entries[i]).key.text() == k,
    decreases entries.len(),
{
    if entries.len() > 0 {
        let rest = entries.drop_last();
        lemma_seed_keys(rest);
        assert forall|k: Seq<char>| #[trigger]
            seed_map(entries).contains_key(k) <==> exists|i: int|
                0 <= i < entries.len() && (#[trigger] entries[i]).key.text() == k by {
            if seed_map(rest).contains_key(k) {
                let i = choose|i: int| 0 <= i < rest.len() && (#[trigger] rest[i]).key.text() == k;
                assert(entries[i].key.text() == k);
            }
            if entries.last().key.text() == k {
                assert(entries[entries.len() - 1].key.text() == k);
            }
            if exists|i: int| 0 <= i < entries.len() && (#[trigger] entries[i]).key.text() == k {
                let i = choose|i: int| 0 <= i < entries.len() && (#[trigger] entries[i]).key.text() == k;
                if i < rest.len() {
                    assert(rest[i].key.text() == k);
                }
            }
        }
    }
}

/// With distinct keys, each entry is what its key maps to.
proof fn lemma_seed_lookup<K: AutotuneKey>(entries: Seq<StoredEntry<K>>, i: int)
    requires
        distinct_keys(entries),
        0 <= i < entries.len(),
    ensures
        seed_map(entries).contains_key(entries[i].key.text()),
        seed_map(entries)[entries[i].key.text()] == (entries[i].checksum@, entries[i].fastest_index),
    decreases entries.len(),
{
    let rest = entries.drop_last();
    if i < rest.len() {
        assert(distinct_keys(rest)) by {
            assert forall|a: int, b: int| 0 <= a < b < rest.len() implies (
            #[trigger] rest[a]).key.text() != (#[trigger] rest[b]).key.text() by {
                assert(entries[a].key.text() != entries[b].key.text());
            }
        }
        lemma_seed_lookup(rest, i);
        assert(entries[i].key.text() != entries[entries.len() - 1].key.text());
    }
}

/// With distinct keys, taking out an entry takes out its key.
proof fn lemma_seed_remove<K: AutotuneKey>(entries: Seq<StoredEntry<K>>, at: int)
    requires
        distinct_keys(entries),
        0 <= at < entries.len(),
    ensures
        seed_map(entries.remove(at)) == seed_map(entries).remove(entries[at].key.text()),
{
    let fewer = entries.remove(at);
    let key = entries[at].key.text();
    lemma_seed_keys(entries);
    lemma_seed_keys(fewer);
    assert(distinct_keys(fewer)) by {
        assert forall|a: int, b: int| 0 <= a < b < fewer.len() implies (
        #[trigger] fewer[a]).key.text() != (#[trigger] fewer[b]).key.text() by {
            let c = if a < at {
                a
            } else {
                a + 1
            };
            let d = if b < at {
                b
            } else {
                b + 1
            };
            assert(entries[c].key.text() != entries[d].key.text());
        }
    }
    assert forall|k: Seq<char>| seed_map(fewer).contains_key(k) <==> #[trigger] seed_map(
        entries,
    ).remove(key).contains_key(k) by {
        if seed_map(fewer).contains_key(k) {
            let i = choose|i: int| 0 <= i < fewer.len() && (#[trigger] fewer[i]).key.text() == k;
            let j = if i < at {
                i
            } else {
                i + 1
            };
            assert(entries[j].key.text() == k);
            if i < at {
                assert(entries[j].key.text() != entries[at].key.text());
            } else {
                assert(entries[at].key.text() != entries[j].key.text());
            }
        }
        if seed_map(entries).contains_key(k) && k != key {
            let j = choose|j: int| 0 <= j < entries.len() && (#[trigger] entries[j]).key.text() == k;
            let i = if j < at {
                j
            } else {
                j - 1
            };
            assert(fewer[i].key.text() == k);
        }
    }
    assert forall|k: Seq<char>| #[trigger] seed_map(fewer).contains_key(k) implies seed_map(
        fewer,
    )[k] == seed_map(entries)[k] by {
        let i = choose|i: int| 0 <= i < fewer.len() && (#[trigger] fewer[i]).key.text() == k;
        let j = if i < at {
            i
        } else {
            i + 1
        };
        assert(entries[j] == fewer[i]);
        lemma_seed_lookup(fewer, i);
        lemma_seed_lookup(entries, j);
    }
    assert(seed_map(fewer) =~= seed_map(entries).remove(key));
}

/// Result of the cache try.
#[derive(Clone, Copy, Debug, PartialEq, Eq, Structural)]
pub enum TuneCacheResult {
    /// An operation is found.
    Hit {
        /// The index of the fastest operation to execute.
        fastest_index: usize,
    },
    /// The operation might be cached, but we don't know yet whether the checksum is valid.
    Unchecked,
    /// A tuning job is in flight for this key: callers run the operation rather than block on it.
    Pending,
    /// No operation is found yet.
    Miss,
}

/// What came of storing a result.
#[derive(Clone, Copy, Debug, PartialEq, Eq, Structural)]
pub enum StoreOutcome {
    /// It was stored.
    Stored,
    /// The store holds another result of this process for the key.
    DuplicatedKey,
    /// Another process stored a result for the key first.
    KeyOutOfSync,
    /// The store failed.
    Backend,
}

/// How loud an event is reported.
#[derive(Clone, Copy, Debug, PartialEq, Eq, Structural)]
pub enum Report {
    /// Not at all.
    Silent,
    /// For debugging only.
    Debug,
    /// As a warning.
    Warn,
}

/// What is cached, by key.
pub type Memory = Map<Seq<char>, EntryView>;

/// An entry that was produced elsewhere may take the place of what is cached for its key: nothing,
/// or an entry that was produced elsewhere too and not verified.
pub open spec fn is_replaceable(memory: Memory, key: Seq<char>) -> bool {
    !memory.contains_key(key) || memory[key] is Unverified
}

/// What is cached once an entry that was produced elsewhere is merged.
pub open spec fn merged(
    memory: Memory,
    key: Seq<char>,
    checksum: Seq<char>,
    fastest_index: usize,
) -> Memory {
    if is_replaceable(memory, key) {
        memory.insert(key, EntryView::Unverified { checksum, fastest_index })
    } else {
        memory
    }
}

/// What is cached once entries that were produced elsewhere are merged, one after the other.
pub open spec fn merged_all<K: AutotuneKey>(memory: Memory, entries: Seq<StoredEntry<K>>) -> Memory
    decreases entries.len(),
{
    if entries.len() == 0 {
        memory
    } else {
        let entry = entries.last();
        merged(
            merged_all(memory, entries.drop_last()),
            entry.key.text(),
            entry.checksum@,
            entry.fastest_index,
        )
    }
}

/// What is cached once a seed is merged.
pub open spec fn seeded(memory: Memory, seed: Map<Seq<char>, (Seq<char>, usize)>) -> Memory {
    Map::new(
        |k: Seq<char>| memory.contains_key(k) || seed.contains_key(k),
        |k: Seq<char>|
            if seed.contains_key(k) && is_replaceable(memory, k) {
                EntryView::Unverified { checksum: seed[k].0, fastest_index: seed[k].1 }
            } else {
                memory[k]
            },
    )
}

/// What the cache serves for a key.
pub open spec fn serves(memory: Memory, key: Seq<char>) -> TuneCacheResult {
    if !memory.contains_key(key) {
        TuneCacheResult::Miss
    } else {
        match memory[key] {
            EntryView::Pending => TuneCacheResult::Pending,
            EntryView::Unverified { checksum, fastest_index } => TuneCacheResult::Unchecked,
            EntryView::Invalid { fastest_index } => TuneCacheResult::Miss,
            EntryView::Valid { fastest_index } => TuneCacheResult::Hit { fastest_index },
        }
    }
}

/// What is cached once the entry of a key is held against the checksum of the candidates.
pub open spec fn verified(memory: Memory, key: Seq<char>, checksum: Seq<char>) -> Memory {
    if memory.contains_key(key) {
        match memory[key] {
            EntryView::Unverified { checksum: expected, fastest_index } => memory.insert(
                key,
                if expected == checksum {
                    EntryView::Valid { fastest_index }
                } else {
                    EntryView::Invalid { fastest_index }
                },
            ),
            _ => memory,
        }
    } else {
        memory
    }
}

/// Use to find and reuse the best kernel for some input.
pub struct TuneCache<K> {
    in_memory_cache: StringHashMap<CacheEntry>,
    persistent: bool,
    seed_cache: Option<SeedCache<K>>,
    hydrated: bool,
    generation: u32,
}

/// What a cache holds.
pub struct TuneCacheView {
    /// What is cached, by key.
    pub memory: Memory,
    /// Whether results are kept in a store that outlives the process.
    pub persistent: bool,
    /// The seed, if one is configured.
    pub seed: Option<Map<Seq<char>, (Seq<char>, usize)>>,
    /// Number of keys in the seed.
    pub seed_count: nat,
    /// Whether everything that the store holds was merged.
    pub hydrated: bool,
    /// The environment generation that the entries belong to.
    pub generation: u32,
}

impl<K: AutotuneKey> View for TuneCache<K> {
    type V = TuneCacheView;

    closed spec fn view(&self) -> TuneCacheView {
        TuneCacheView {
            memory: memory_view(self.in_memory_cache@),
            persistent: self.persistent,
            seed: match self.seed_cache {
                Some(seed) => Some(seed@),
                None => None,
            },
            seed_count: match self.seed_cache {
                Some(seed) => seed.count(),
                None => 0,
            },
            hydrated: self.hydrated,
            generation: self.generation,
        }
    }
}

/// What entries are known to be.
pub open spec fn memory_view(entries: Map<Seq<char>, CacheEntry>) -> Memory {
    entries.map_values(|entry: CacheEntry| entry@)
}

/// What is cached after a seed was loaded, and once more counted.
pub open spec fn after_seed(view: TuneCacheView) -> TuneCacheView {
    match view.seed {
        Some(seed) => TuneCacheView { memory: seeded(view.memory, seed), ..view },
        None => view,
    }
}

/// The counters after a seed was loaded.
pub open spec fn seed_counted(counters: CacheCounters, view: TuneCacheView) -> CacheCounters {
    match view.seed {
        Some(_) => CacheCounters {
            autotune_seed_entries_loaded: counters.autotune_seed_entries_loaded.wrapping_add(
                view.seed_count as u64,
            ),
            ..counters
        },
        None => counters,
    }
}

/// What is cached after the store was walked.
pub open spec fn after_sync<K: AutotuneKey>(view: TuneCacheView, entries: Seq<StoredEntry<K>>, complete: bool) ->
    TuneCacheView {
    if view.hydrated || !view.persistent {
        view
    } else {
        TuneCacheView {
            memory: merged_all(view.memory, entries),
            hydrated: complete,
            ..view
        }
    }
}

/// The counters after the store was walked.
pub open spec fn sync_counted<K: AutotuneKey>(
    counters: CacheCounters,
    view: TuneCacheView,
    entries: Seq<StoredEntry<K>>,
) -> CacheCounters {
    if view.hydrated || !view.persistent {
        counters
    } else {
        CacheCounters {
            autotune_writable_entries_loaded:
                counters.autotune_writable_entries_loaded.wrapping_add(entries.len() as u64),
            ..counters
        }
    }
}

impl<K: AutotuneKey> TuneCache<K> {
    /// The seed has one entry for each key.
    pub closed spec fn wf(&self) -> bool {
        match self.seed_cache {
            Some(seed) => seed.wf(),
            None => true,
        }
    }

    /// A cache with nothing in it: process-local, or kept in a store.
    pub fn empty(persistent: bool, seed: Option<SeedCache<K>>, hydrated: bool, generation: u32) -> (
    cache: Self)
        requires
            seed matches Some(seed) ==> seed.wf(),
        ensures
            cache.wf(),
            cache@.memory == Memory::empty(),
            cache@.persistent == persistent,
            cache@.seed == (match seed {
                Some(seed) => Some(seed@),
                None => None,
            }),
            cache@.seed_count == (match seed {
                Some(seed) => seed.count(),
                None => 0,
            }),
            cache@.hydrated == hydrated,
            cache@.generation == generation,
    {
        let cache = TuneCache {
            in_memory_cache: StringHashMap::new(),
            persistent,
            seed_cache: seed,
            hydrated,
            generation,
        };
        assert(cache@.memory =~= Memory::empty());
        cache
    }

    /// Opens a cache. With `disable_cache` it is process-local; else its seed and what the store
    /// holds are merged. `generation` is that of the environment before the store was opened.
    pub fn new(
        disable_cache: bool,
        generation: u32,
        seed: Option<SeedCache<K>>,
        stored: Vec<StoredEntry<K>>,
        complete: bool,
        counters: &mut CacheCounters,
    ) -> (cache: Self)
        requires
            seed matches Some(seed) ==> seed.wf(),
        ensures
            cache.wf(),
            cache@.generation == generation,
            cache@.persistent <==> !disable_cache,
            cache@.hydrated <==> disable_cache || complete,
            forall|key: Seq<char>|
                (#[trigger] serves(cache@.memory, key)) is Miss || serves(cache@.memory, key)
                    is Unchecked,
            disable_cache ==> {
                &&& cache@.memory == Memory::empty()
                &&& !cache@.persistent
                &&& cache@.seed is None
                &&& cache@.hydrated
                &&& *final(counters) == *old(counters)
            },
            !disable_cache ==> {
                let fresh = TuneCacheView {
                    memory: Memory::empty(),
                    persistent: true,
                    seed: match seed {
                        Some(seed) => Some(seed@),
                        None => None,
                    },
                    seed_count: match seed {
                        Some(seed) => seed.count(),
                        None => 0,
                    },
                    hydrated: false,
                    generation,
                };
                &&& cache@ == after_sync(after_seed(fresh), stored@, complete)
                &&& *final(counters) == sync_counted(
                    seed_counted(*old(counters), fresh),
                    fresh,
                    stored@,
                )
            },
    {
        if disable_cache {
            return TuneCache::empty(false, None, true, generation);
        }
        let mut cache = TuneCache::empty(true, seed, false, generation);
        cache.load_seed_into_memory(counters);
        let ghost seeds = cache@.memory;
        proof {
            lemma_all_unverified(seeds, stored@);
        }
        cache.sync_persistent(stored, complete, counters);
        cache
    }

    /// Merges the entries of the seed, as unverified ones.
    pub fn load_seed_into_memory(&mut self, counters: &mut CacheCounters)
        requires
            old(self).wf(),
        ensures
            final(self).wf(),
            final(self)@ == after_seed(old(self)@),
            *final(counters) == seed_counted(*old(counters), old(self)@),
    {
        let seed = match self.seed_cache.take() {
            Some(seed) => seed,
            None => {
                return;
            },
        };
        let ghost before = self@.memory;
        let ghost entries = seed.entries@;
        let loaded: u64 = seed.entries.len() as u64;
        let mut index: usize = 0;
        proof {
            assert(entries.take(0) =~= Seq::<StoredEntry<K>>::empty());
            assert(self@.memory =~= seeded(before, seed_map(entries.take(0))));
        }
        while index < seed.entries.len()
            invariant
                index <= seed.entries.len(),
                seed.entries@ == entries,
                distinct_keys(entries),
                self.persistent == old(self).persistent,
                self.hydrated == old(self).hydrated,
                self.generation == old(self).generation,
                self@.memory == seeded(before, seed_map(entries.take(index as int))),
            decreases seed.entries.len() - index,
        {
            let key = seed.entries[index].key.to_text();
            let checksum = seed.entries[index].checksum.clone();
            let fastest_index: usize = seed.entries[index].fastest_index;
            let ghost done = entries.take(index as int);
            let ghost next = entries.take(index + 1);
            let ghost memory = self@.memory;
            proof {
                assert(next.drop_last() =~= done);
                assert(next.last() == entries[index as int]);
                lemma_seed_keys(done);
                if seed_map(done).contains_key(key@) {
                    let i = choose|i: int| 0 <= i < done.len() && (#[trigger] done[i]).key.text() == key@;
                    assert(entries[i].key.text() != entries[index as int].key.text());
                }
            }
            self.merge_text(key, checksum, fastest_index);
            proof {
                assert(self@.memory =~= seeded(before, seed_map(next)));
            }
            index = index + 1;
        }
        assert(entries.take(index as int) =~= entries);
        self.seed_cache = Some(seed);
        record_autotune_seed_entries_loaded(counters, loaded);
    }

    /// Merges an entry without clobbering state produced by this process. An entry of the store is
    /// allowed to replace a seed (both are unverified), while a live tune, a locally finalized
    /// result, or a checksum failure remains authoritative until the next reset.
    pub fn merge_hydrated(&mut self, key: K, checksum: String, fastest_index: usize)
        ensures
            final(self)@ == (TuneCacheView {
                memory: merged(old(self)@.memory, key.text(), checksum@, fastest_index),
                ..old(self)@
            }),
            !old(self)@.memory.contains_key(key.text()) ==> serves(
                final(self)@.memory,
                key.text(),
            ) is Unchecked,
            !(serves(old(self)@.memory, key.text()) is Unchecked) && old(
                self,
            )@.memory.contains_key(key.text()) ==> final(self)@.memory == old(self)@.memory,
            old(self).wf() ==> final(self).wf(),
    {
        self.merge_text(key.to_text(), checksum, fastest_index);
    }

    fn merge_text(&mut self, key: String, checksum: String, fastest_index: usize)
        ensures
            final(self)@ == (TuneCacheView {
                memory: merged(old(self)@.memory, key@, checksum@, fastest_index),
                ..old(self)@
            }),
            old(self).wf() ==> final(self).wf(),
    {
        let replace = match self.in_memory_cache.get(key.as_str()) {
            None => true,
            Some(CacheEntry::Pending) => false,
            Some(CacheEntry::Done { checksum: ChecksumState::Match, .. }) => false,
            Some(CacheEntry::Done { checksum: ChecksumState::NoMatch, .. }) => false,
            Some(CacheEntry::Done { checksum: ChecksumState::ToBeVerified(_), .. }) => true,
        };
        let ghost name = key@;
        let ghost before = self.in_memory_cache@;
        if replace {
            self.in_memory_cache.insert(
                key,
                CacheEntry::Done {
                    checksum: ChecksumState::ToBeVerified(checksum),
                    fastest_index,
                },
            );
        }
        assert(self@.memory =~= merged(old(self)@.memory, name, checksum@, fastest_index));
    }

    /// Returns what the cache serves for a key.
    pub fn fastest(&self, key: &K) -> (result: TuneCacheResult)
        ensures
            result == serves(self@.memory, key.text()),
    {
        let text = key.to_text();
        match self.in_memory_cache.get(text.as_str()) {
            None => TuneCacheResult::Miss,
            Some(CacheEntry::Pending) => TuneCacheResult::Pending,
            Some(CacheEntry::Done { checksum, fastest_index }) => match checksum {
                // Don't know yet.
                ChecksumState::ToBeVerified(_) => TuneCacheResult::Unchecked,
                // Can't use this.
                ChecksumState::NoMatch => TuneCacheResult::Miss,
                ChecksumState::Match => TuneCacheResult::Hit { fastest_index: *fastest_index },
            },
        }
    }

    /// Returns what is cached for a key.
    pub fn entry(&self, key: &K) -> (entry: Option<&CacheEntry>)
        ensures
            match entry {
                Some(entry) => {
                    &&& self@.memory.contains_key(key.text())
                    &&& entry@ == self@.memory[key.text()]
                },
                None => !self@.memory.contains_key(key.text()),
            },
    {
        let text = key.to_text();
        self.in_memory_cache.get(text.as_str())
    }

    /// Holds the entry of a key against the checksum of the candidates, if it was not yet, and
    /// returns what the cache serves for the key.
    pub fn validate_checksum(&mut self, key: &K, checksum: &str) -> (result: TuneCacheResult)
        ensures
            final(self)@ == (TuneCacheView {
                memory: verified(old(self)@.memory, key.text(), checksum@),
                ..old(self)@
            }),
            result == serves(final(self)@.memory, key.text()),
            !(result is Unchecked),
            !(serves(old(self)@.memory, key.text()) is Unchecked) ==> result == serves(
                old(self)@.memory,
                key.text(),
            ),
            old(self)@.memory.contains_key(key.text()) ==> (old(self)@.memory[key.text()] matches
                EntryView::Unverified { checksum: expected, fastest_index } ==> result == (
            if expected == checksum@ {
                TuneCacheResult::Hit { fastest_index }
            } else {
                TuneCacheResult::Miss
            })),
            old(self).wf() ==> final(self).wf(),
    {
        let text = key.to_text();
        let decided = match self.in_memory_cache.get(text.as_str()) {
            Some(
                CacheEntry::Done { checksum: ChecksumState::ToBeVerified(expected), fastest_index },
            ) => {
                let found = String::from_str(checksum);
                Some((*expected == found, *fastest_index))
            },
            _ => None,
        };
        match decided {
            Some((matches, fastest_index)) => {
                let state = if matches {
                    ChecksumState::Match
                } else {
                    ChecksumState::NoMatch
                };
                self.in_memory_cache.insert(
                    text,
                    CacheEntry::Done { checksum: state, fastest_index },
                );
            },
            None => {},
        }
        assert(self@.memory =~= verified(old(self)@.memory, key.text(), checksum@));
        self.fastest(key)
    }

    /// Mark a key as being tuned, so that concurrent callers do not start a second job for it.
    pub fn mark_pending(&mut self, key: K)
        ensures
            final(self)@ == (TuneCacheView {
                memory: old(self)@.memory.insert(key.text(), EntryView::Pending),
                ..old(self)@
            }),
            serves(final(self)@.memory, key.text()) is Pending,
            forall|other: Seq<char>|
                other != key.text() ==> #[trigger] serves(final(self)@.memory, other) == serves(
                    old(self)@.memory,
                    other,
                ),
            old(self).wf() ==> final(self).wf(),
    {
        self.in_memory_cache.insert(key.to_text(), CacheEntry::Pending);
        assert(self@.memory =~= old(self)@.memory.insert(key.text(), EntryView::Pending));
    }

    /// Caches the result of a tune.
    pub fn cache_insert(&mut self, key: K, fastest_index: usize)
        ensures
            final(self)@ == (TuneCacheView {
                memory: old(self)@.memory.insert(key.text(), EntryView::Valid { fastest_index }),
                ..old(self)@
            }),
            serves(final(self)@.memory, key.text()) == (TuneCacheResult::Hit { fastest_index }),
            forall|other: Seq<char>|
                other != key.text() ==> #[trigger] serves(final(self)@.memory, other) == serves(
                    old(self)@.memory,
                    other,
                ),
            old(self).wf() ==> final(self).wf(),
    {
        self.in_memory_cache.insert(
            key.to_text(),
            CacheEntry::Done { checksum: ChecksumState::Match, fastest_index },
        );
        assert(self@.memory =~= old(self)@.memory.insert(
            key.text(),
            EntryView::Valid { fastest_index },
        ));
    }

    /// Drops tuning state belonging to a previous environment, so a switch re-hydrates and re-tunes
    /// rather than serving the old environment's picks.
    ///
    /// `generation` is that of the environment now. A process-local cache survives switches.
    /// In-flight tunes are dropped with everything else.
    pub fn reset_if_environment_switched(&mut self, generation: u32, counters: &mut CacheCounters)
        requires
            old(self).wf(),
        ensures
            final(self).wf(),
            final(self)@ == (if !old(self)@.persistent || generation == old(self)@.generation {
                old(self)@
            } else {
                after_seed(
                    TuneCacheView {
                        memory: Memory::empty(),
                        hydrated: false,
                        generation,
                        ..old(self)@
                    },
                )
            }),
            old(self)@.persistent ==> final(self)@.generation == generation,
            !old(self)@.persistent ==> final(self)@ == old(self)@,
            old(self)@.persistent && generation != old(self)@.generation
                ==> !final(self)@.hydrated && forall|key: Seq<char>|
                !(#[trigger] serves(final(self)@.memory, key) is Hit),
            *final(counters) == (if !old(self)@.persistent || generation == old(
                self,
            )@.generation {
                *old(counters)
            } else {
                seed_counted(*old(counters), old(self)@)
            }),
    {
        if !self.persistent {
            return;
        }
        if generation == self.generation {
            return;
        }
        self.generation = generation;
        self.in_memory_cache.clear();
        self.hydrated = false;
        assert(self@.memory =~= Memory::empty());
        self.load_seed_into_memory(counters);
    }

    /// Returns whether the store is to be walked: everything it holds was not merged yet.
    pub fn needs_sync(&self) -> (needed: bool)
        ensures
            needed == (!self@.hydrated && self@.persistent),
    {
        !self.hydrated && self.persistent
    }

    /// Merges everything that the store delivered, as unverified entries; `complete` tells whether
    /// that is everything it holds. Returns how many entries there were.
    pub fn sync_persistent(
        &mut self,
        entries: Vec<StoredEntry<K>>,
        complete: bool,
        counters: &mut CacheCounters,
    ) -> (delivered: usize)
        requires
            old(self).wf(),
        ensures
            final(self).wf(),
            final(self)@ == after_sync(old(self)@, entries@, complete),
            *final(counters) == sync_counted(*old(counters), old(self)@, entries@),
            delivered == (if old(self)@.hydrated || !old(self)@.persistent {
                0
            } else {
                entries@.len() as int
            }),
            final(self)@.hydrated == (old(self)@.hydrated || old(self)@.persistent && complete),
            final(self)@.generation == old(self)@.generation,
            final(self)@.seed == old(self)@.seed,
    {
        if self.hydrated {
            return 0;
        }
        if !self.persistent {
            return 0;
        }
        let delivered: usize = entries.len();
        let ghost before = self@;
        let mut index: usize = 0;
        assert(entries@.take(0) =~= Seq::<StoredEntry<K>>::empty());
        while index < entries.len()
            invariant
                index <= entries.len(),
                self.wf(),
                self@ == (TuneCacheView {
                    memory: merged_all(before.memory, entries@.take(index as int)),
                    ..before
                }),
            decreases entries.len() - index,
        {
            proof {
                let next = entries@.take(index + 1);
                assert(next.drop_last() =~= entries@.take(index as int));
                assert(next.last() == entries@[index as int]);
            }
            self.merge_text(
                entries[index].key.to_text(),
                entries[index].checksum.clone(),
                entries[index].fastest_index,
            );
            index = index + 1;
        }
        assert(entries@.take(index as int) =~= entries@);
        self.hydrated = complete;
        record_autotune_writable_entries_loaded(counters, delivered as u64);
        delivered
    }

    /// Returns whether results are kept in a store.
    pub fn persists(&self) -> (persists: bool)
        ensures
            persists == self@.persistent,
    {
        self.persistent
    }

    /// A result was handed to the store, with an outcome: counts it if it was stored, and tells how
    /// loud the outcome is reported. Another process that was faster is routine.
    pub fn persistent_cache_insert(outcome: StoreOutcome, counters: &mut CacheCounters) -> (report:
        Report)
        ensures
            report == (match outcome {
                StoreOutcome::Stored => Report::Silent,
                StoreOutcome::DuplicatedKey => Report::Warn,
                StoreOutcome::KeyOutOfSync => Report::Debug,
                StoreOutcome::Backend => Report::Warn,
            }),
            *final(counters) == (if outcome is Stored {
                CacheCounters {
                    autotune_writes: old(counters).autotune_writes.wrapping_add(1),
                    ..*old(counters)
                }
            } else {
                *old(counters)
            }),
    {
        match outcome {
            StoreOutcome::Stored => {
                record_autotune_write(counters);
                Report::Silent
            },
            StoreOutcome::DuplicatedKey => Report::Warn,
            StoreOutcome::KeyOutOfSync => Report::Debug,
            StoreOutcome::Backend => Report::Warn,
        }
    }
}

/// Keys are kept apart: what is cached, merged or verified for one key changes nothing of what is
/// served for another, and equal keys are served the same.
pub proof fn law_keys_are_kept_apart<K: AutotuneKey>(
    memory: Memory,
    key: K,
    other: K,
    entry: EntryView,
    checksum: Seq<char>,
    fastest_index: usize,
)
    ensures
        key@ == other@ ==> serves(memory, key.text()) == serves(memory, other.text()),
        key@ != other@ ==> {
            let served = serves(memory, other.text());
            &&& serves(memory.insert(key.text(), entry), other.text()) == served
            &&& serves(merged(memory, key.text(), checksum, fastest_index), other.text()) == served
            &&& serves(verified(memory, key.text(), checksum), other.text()) == served
        },
{
    K::text_tells_key(&key, &other);
}

/// Merging never changes what this process produced: a tune in flight, a result that was found or
/// verified here, or one that was found to be for other candidates.
pub proof fn law_merge_keeps_local_state<K: AutotuneKey>(memory: Memory, entries: Seq<StoredEntry<K>>, key: Seq<char>)
    requires
        memory.contains_key(key),
        !(memory[key] is Unverified),
    ensures
        merged_all(memory, entries).contains_key(key),
        merged_all(memory, entries)[key] == memory[key],
        serves(merged_all(memory, entries), key) == serves(memory, key),
    decreases entries.len(),
{
    if entries.len() > 0 {
        law_merge_keeps_local_state(memory, entries.drop_last(), key);
    }
}

/// What the store holds wins over the seed: where both have an entry for a key, the last one that
/// the store delivered is cached.
pub proof fn law_store_wins_over_seed<K: AutotuneKey>(
    seed: Map<Seq<char>, (Seq<char>, usize)>,
    entries: Seq<StoredEntry<K>>,
    at: int,
)
    requires
        0 <= at < entries.len(),
        forall|i: int| at < i < entries.len() ==> (#[trigger] entries[i]).key.text() != entries[at].key.text(),
    ensures
        ({
            let memory = merged_all(seeded(Memory::empty(), seed), entries);
            &&& memory.contains_key(entries[at].key.text())
            &&& memory[entries[at].key.text()] == (EntryView::Unverified {
                checksum: entries[at].checksum@,
                fastest_index: entries[at].fastest_index,
            })
        }),
    decreases entries.len(),
{
    let start = seeded(Memory::empty(), seed);
    lemma_all_unverified(start, entries.drop_last());
    if at < entries.len() - 1 {
        let rest = entries.drop_last();
        assert forall|i: int| at < i < rest.len() implies (#[trigger] rest[i]).key.text()
            != rest[at].key.text() by {
            assert(entries[i].key.text() != entries[at].key.text());
        }
        law_store_wins_over_seed(seed, rest, at);
        assert(entries[entries.len() - 1].key.text() != entries[at].key.text());
    }
}

proof fn lemma_all_unverified<K: AutotuneKey>(memory: Memory, entries: Seq<StoredEntry<K>>)
    requires
        forall|k: Seq<char>| #[trigger] memory.contains_key(k) ==> memory[k] is Unverified,
    ensures
        forall|k: Seq<char>| #[trigger]
            merged_all(memory, entries).contains_key(k) ==> merged_all(
                memory,
                entries,
            )[k] is Unverified,
    decreases entries.len(),
{
    if entries.len() > 0 {
        lemma_all_unverified(memory, entries.drop_last());
    }
}

/// Nothing that was produced elsewhere is served before its checksum was found to match.
pub proof fn law_merged_is_not_served(
    memory: Memory,
    key: Seq<char>,
    checksum: Seq<char>,
    fastest_index: usize,
)
    ensures
        ({
            let after = merged(memory, key, checksum, fastest_index);
            serves(after, key) is Hit ==> serves(memory, key) == serves(after, key)
        }),
{
}

/// A verdict on a checksum is final: holding the entry against another checksum, or merging the
/// entry again, changes nothing.
pub proof fn law_verdict_is_final(
    memory: Memory,
    key: Seq<char>,
    checksum: Seq<char>,
    other: Seq<char>,
    again: Seq<char>,
    fastest_index: usize,
)
    requires
        memory.contains_key(key),
    ensures
        ({
            let once = verified(memory, key, checksum);
            &&& verified(once, key, other) == once
            &&& merged(once, key, again, fastest_index) == once
        }),
{
}

/// An entry is served after its own checksum was compared, and is a miss after any other one was.
pub proof fn law_checksum_decides(
    memory: Memory,
    key: Seq<char>,
    own: Seq<char>,
    checksum: Seq<char>,
    fastest_index: usize,
)
    requires
        memory.contains_key(key),
        memory[key] == (EntryView::Unverified { checksum: own, fastest_index }),
    ensures
        serves(verified(memory, key, checksum), key) == (if checksum == own {
            TuneCacheResult::Hit { fastest_index }
        } else {
            TuneCacheResult::Miss
        }),
{
}

/// After a switch of the environment nothing is served that was tuned before it: only the entries
/// of the seed are left, unverified.
pub proof fn law_switch_drops_results(view: TuneCacheView, key: Seq<char>)
    requires
        view.memory == Memory::empty(),
    ensures
        !(serves(after_seed(view).memory, key) is Hit),
        !(serves(after_seed(view).memory, key) is Pending),
        view.seed matches Some(seed) ==> (serves(after_seed(view).memory, key) is Unchecked
            <==> seed.contains_key(key)),
{
}

} // verus!
