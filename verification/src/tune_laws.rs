//! What the autotune cache serves, and what it takes from a seed and from a store.

use crate::cache_metrics::CacheCounters;
use crate::tune_cache::{
    seed_of, EntryView, Memory, SeedCache, StoredEntry, TuneCacheResult, TuneCacheView,
};
use crate::tune_operation::AutotuneKey;
use vstd::prelude::*;

verus! {

use crate::tune_cache::{
    after_seed, after_sync, decoded_entries, merged, merged_all, seed_counted, seed_map, seeded,
    serves, sync_counted, verified,
};

/// The cache serves a hit exactly for a result that is known to be valid, with its index. It says
/// that a job is in flight exactly while one is, and asks for the checksum exactly for a result
/// that was not verified. Everything else is a miss: no result, and one that does not fit the
/// candidates.
pub proof fn law_what_is_served(memory: Memory, key: Seq<char>, fastest_index: usize)
    ensures
        ({
            let served = serves(memory, key);
            let known = memory.contains_key(key);
            &&& served == (TuneCacheResult::Hit { fastest_index }) <==> known && memory[key] == (
            EntryView::Valid { fastest_index })
            &&& served is Hit <==> known && memory[key] is Valid
            &&& served is Pending <==> known && memory[key] is Pending
            &&& served is Unchecked <==> known && memory[key] is Unverified
            &&& served is Miss <==> !known || memory[key] is Invalid
        }),
{
}

/// A key goes from a miss to pending, and from pending to a hit with the result of the job; nothing
/// that comes from elsewhere in between, and no checksum, changes that.
pub proof fn law_life_of_a_key<K: AutotuneKey>(
    memory: Memory,
    key: Seq<char>,
    entries: Seq<StoredEntry<K>>,
    checksum: Seq<char>,
    fastest_index: usize,
)
    ensures
        ({
            let waiting = memory.insert(key, EntryView::Pending);
            let tuned = waiting.insert(key, EntryView::Valid { fastest_index });
            &&& serves(waiting, key) is Pending
            &&& serves(merged_all(waiting, entries), key) is Pending
            &&& serves(verified(waiting, key, checksum), key) is Pending
            &&& serves(tuned, key) == (TuneCacheResult::Hit { fastest_index })
            &&& serves(merged_all(tuned, entries), key) == (TuneCacheResult::Hit { fastest_index })
            &&& serves(verified(tuned, key, checksum), key) == (TuneCacheResult::Hit {
                fastest_index,
            })
        }),
{
    let waiting = memory.insert(key, EntryView::Pending);
    let tuned = waiting.insert(key, EntryView::Valid { fastest_index });
    crate::tune_cache::law_merge_keeps_local_state(waiting, entries, key);
    crate::tune_cache::law_merge_keeps_local_state(tuned, entries, key);
}

/// A result from elsewhere is asked for its checksum, and is then a hit if and only if it has that
/// of the candidates; a result that was refused is a miss for good.
pub proof fn law_result_from_elsewhere(
    memory: Memory,
    key: Seq<char>,
    checksum: Seq<char>,
    fastest_index: usize,
    candidates: Seq<char>,
)
    requires
        serves(memory, key) is Miss,
        !memory.contains_key(key),
    ensures
        ({
            let known = merged(memory, key, checksum, fastest_index);
            let checked = verified(known, key, candidates);
            &&& serves(known, key) is Unchecked
            &&& serves(checked, key) is Hit <==> checksum == candidates
            &&& serves(checked, key) is Hit ==> serves(checked, key) == (TuneCacheResult::Hit {
                fastest_index,
            })
            &&& serves(checked, key) is Miss <==> checksum != candidates
            &&& serves(merged(checked, key, candidates, fastest_index), key) == serves(checked, key)
        }),
{
}

/// A seed fills what is not known yet, and takes the place of what was not verified; it changes
/// nothing else, and every key of it is known afterwards.
pub proof fn law_seed_fills(
    memory: Memory,
    seed: Map<Seq<char>, (Seq<char>, usize)>,
    key: Seq<char>,
)
    ensures
        ({
            let after = seeded(memory, seed);
            let own = memory.contains_key(key) && !(memory[key] is Unverified);
            &&& after.contains_key(key) <==> memory.contains_key(key) || seed.contains_key(key)
            &&& own ==> after[key] == memory[key]
            &&& seed.contains_key(key) && !own ==> after[key] is Unverified
                && after[key]->Unverified_checksum == seed[key].0
                && after[key]->Unverified_fastest_index == seed[key].1
            &&& memory.contains_key(key) && !seed.contains_key(key) ==> after[key] == memory[key]
        }),
{
}

/// Loading a seed twice is loading it once.
pub proof fn law_seed_is_loaded_once(
    memory: Memory,
    seed: Map<Seq<char>, (Seq<char>, usize)>,
)
    ensures
        seeded(seeded(memory, seed), seed) == seeded(memory, seed),
{
    assert(seeded(seeded(memory, seed), seed) =~= seeded(memory, seed));
}

/// Where a seed has several entries for a key, the last one counts; it has a key exactly if some
/// entry has it.
pub proof fn law_last_entry_of_a_key_counts<K: AutotuneKey>(
    entries: Seq<StoredEntry<K>>,
    at: int,
)
    requires
        0 <= at < entries.len(),
        forall|i: int|
            at < i < entries.len() ==> (#[trigger] entries[i]).key.text() != entries[at].key.text(),
    ensures
        seed_map(entries).contains_key(entries[at].key.text()),
        seed_map(entries)[entries[at].key.text()].0 == entries[at].checksum@,
        seed_map(entries)[entries[at].key.text()].1 == entries[at].fastest_index,
    decreases entries.len(),
{
    if at < entries.len() - 1 {
        let rest = entries.drop_last();
        assert forall|i: int| at < i < rest.len() implies (#[trigger] rest[i]).key.text()
            != rest[at].key.text() by {
            assert(entries[i].key.text() != entries[at].key.text());
        }
        law_last_entry_of_a_key_counts(rest, at);
        assert(entries[entries.len() - 1].key.text() != entries[at].key.text());
    }
}

/// A seed has no key that no entry of it has.
pub proof fn law_seed_adds_no_key<K: AutotuneKey>(entries: Seq<StoredEntry<K>>, key: Seq<char>)
    requires
        forall|i: int| 0 <= i < entries.len() ==> (#[trigger] entries[i]).key.text() != key,
    ensures
        !seed_map(entries).contains_key(key),
    decreases entries.len(),
{
    if entries.len() > 0 {
        let rest = entries.drop_last();
        assert forall|i: int| 0 <= i < rest.len() implies (#[trigger] rest[i]).key.text() != key by {
            assert(entries[i].key.text() != key);
        }
        law_seed_adds_no_key(rest, key);
        assert(entries[entries.len() - 1].key.text() != key);
    }
}

/// Every line that was read as an entry counts, in its order, and no other line does.
pub proof fn law_lines_are_read_in_order<K: AutotuneKey>(
    first: Seq<Option<StoredEntry<K>>>,
    second: Seq<Option<StoredEntry<K>>>,
    entry: StoredEntry<K>,
)
    ensures
        decoded_entries(first + second) == decoded_entries(first) + decoded_entries(second),
        decoded_entries(seq![Some(entry)]) == seq![entry],
        decoded_entries(seq![None::<StoredEntry<K>>]) == Seq::<StoredEntry<K>>::empty(),
    decreases second.len(),
{
    reveal_with_fuel(decoded_entries, 2);
    assert(seq![Some(entry)].drop_last() =~= Seq::<Option<StoredEntry<K>>>::empty());
    assert(seq![None::<StoredEntry<K>>].drop_last() =~= Seq::<Option<StoredEntry<K>>>::empty());
    assert(decoded_entries(seq![Some(entry)]) =~= seq![entry]);
    assert(decoded_entries(seq![None::<StoredEntry<K>>]) =~= Seq::<StoredEntry<K>>::empty());
    if second.len() == 0 {
        assert(first + second =~= first);
        assert(decoded_entries(first) + decoded_entries(second) =~= decoded_entries(first));
    } else {
        law_lines_are_read_in_order(first, second.drop_last(), entry);
        assert((first + second).drop_last() =~= first + second.drop_last());
        assert((first + second).last() == second.last());
        assert(decoded_entries(first + second) =~= decoded_entries(first) + decoded_entries(
            second,
        ));
    }
}

/// A seed that is read from lines has, for each key, the entry of the last line with that key.
pub proof fn law_last_line_of_a_key_counts<K: AutotuneKey>(
    lines: Vec<Option<StoredEntry<K>>>,
    seed: SeedCache<K>,
    at: int,
)
    requires
        call_ensures(seed_of, (lines,), seed),
        0 <= at < lines@.len(),
        lines@[at] is Some,
        forall|i: int|
            at < i < lines@.len() ==> ((#[trigger] lines@[i]) is Some ==> (
            lines@[i]->0).key.text() != (lines@[at]->0).key.text()),
    ensures
        ({
            let entry = lines@[at]->0;
            &&& seed@.contains_key(entry.key.text())
            &&& seed@[entry.key.text()].0 == entry.checksum@
            &&& seed@[entry.key.text()].1 == entry.fastest_index
        }),
{
    let entry = lines@[at]->0;
    let first = lines@.take(at);
    let second = lines@.skip(at + 1);
    assert(lines@ =~= first + seq![Some(entry)] + second);
    law_lines_are_read_in_order(first + seq![Some(entry)], second, entry);
    law_lines_are_read_in_order(first, seq![Some(entry)], entry);
    let before = decoded_entries(first);
    let after = decoded_entries(second);
    let all = decoded_entries(lines@);
    assert(all =~= before + seq![entry] + after);
    let place = before.len() as int;
    assert(all[place] == entry);
    assert forall|i: int| place < i < all.len() implies (#[trigger] all[i]).key.text()
        != all[place].key.text() by {
        let n = i - place - 1;
        assert(all[i] == after[n]);
        lemma_entry_is_of_a_line(second, n);
        let j = choose|j: int| 0 <= j < second.len() && second[j] == Some(after[n]);
        assert(lines@[at + 1 + j] == second[j]);
    }
    law_last_entry_of_a_key_counts(all, place);
}

proof fn lemma_entry_is_of_a_line<K: AutotuneKey>(lines: Seq<Option<StoredEntry<K>>>, n: int)
    requires
        0 <= n < decoded_entries(lines).len(),
    ensures
        exists|j: int| 0 <= j < lines.len() && lines[j] == Some(decoded_entries(lines)[n]),
    decreases lines.len(),
{
    if lines.len() > 0 {
        let rest = lines.drop_last();
        if n < decoded_entries(rest).len() {
            lemma_entry_is_of_a_line(rest, n);
            let j = choose|j: int|
                0 <= j < rest.len() && rest[j] == Some(decoded_entries(rest)[n]);
            assert(lines[j] == Some(decoded_entries(lines)[n]));
        } else {
            assert(lines[lines.len() - 1] == Some(decoded_entries(lines)[n]));
        }
    }
}

/// Merging entries in two goes is merging them in one, and one entry is merged under its own key.
pub proof fn law_entries_are_merged_in_order<K: AutotuneKey>(
    memory: Memory,
    first: Seq<StoredEntry<K>>,
    second: Seq<StoredEntry<K>>,
    entry: StoredEntry<K>,
)
    ensures
        merged_all(memory, first + second) == merged_all(merged_all(memory, first), second),
        !memory.contains_key(entry.key.text()) ==> merged_all(memory, seq![entry])
            == memory.insert(
            entry.key.text(),
            EntryView::Unverified {
                checksum: entry.checksum@,
                fastest_index: entry.fastest_index,
            },
        ),
        merged_all(memory, Seq::<StoredEntry<K>>::empty()) == memory,
    decreases second.len(),
{
    reveal_with_fuel(merged_all, 2);
    assert(seq![entry].drop_last() =~= Seq::<StoredEntry<K>>::empty());
    if second.len() == 0 {
        assert(first + second =~= first);
    } else {
        law_entries_are_merged_in_order(memory, first, second.drop_last(), entry);
        assert((first + second).drop_last() =~= first + second.drop_last());
        assert((first + second).last() == second.last());
    }
}

/// The store is walked only for a cache that is kept in one, and until it was walked to its end;
/// once that is so, another walk changes nothing. A walk changes neither the seed, nor the
/// environment, nor that the cache is kept in a store.
pub proof fn law_store_is_walked_until_its_end<K: AutotuneKey>(
    view: TuneCacheView,
    entries: Seq<StoredEntry<K>>,
    more: Seq<StoredEntry<K>>,
    complete: bool,
    again: bool,
)
    ensures
        ({
            let after = after_sync(view, entries, complete);
            &&& after.persistent == view.persistent
            &&& after.seed == view.seed
            &&& after.seed_count == view.seed_count
            &&& after.generation == view.generation
            &&& view.persistent ==> (after.hydrated <==> view.hydrated || complete)
            &&& !view.persistent ==> after == view
            &&& view.persistent && (view.hydrated || complete) ==> after_sync(after, more, again)
                == after
            &&& view.persistent && !view.hydrated ==> after.memory == merged_all(
                view.memory,
                entries,
            )
        }),
{
}

/// What is loaded is counted by how much there was, each where it belongs: entries of the seed, and
/// entries of the store. Nothing else is counted, and nothing where nothing was loaded.
pub proof fn law_loads_are_counted<K: AutotuneKey>(
    c: CacheCounters,
    view: TuneCacheView,
    entries: Seq<StoredEntry<K>>,
)
    ensures
        ({
            let a = seed_counted(c, view);
            let b = sync_counted(c, view, entries);
            let walked = view.persistent && !view.hydrated;
            &&& view.seed is Some ==> a.autotune_seed_entries_loaded
                == c.autotune_seed_entries_loaded.wrapping_add(view.seed_count as u64)
            &&& view.seed is None ==> a == c
            &&& a.autotune_writable_entries_loaded == c.autotune_writable_entries_loaded
            &&& a.autotune_hits == c.autotune_hits && a.autotune_misses == c.autotune_misses
                && a.autotune_writes == c.autotune_writes
            &&& walked ==> b.autotune_writable_entries_loaded
                == c.autotune_writable_entries_loaded.wrapping_add(entries.len() as u64)
            &&& !walked ==> b == c
            &&& b.autotune_seed_entries_loaded == c.autotune_seed_entries_loaded
            &&& b.autotune_hits == c.autotune_hits && b.autotune_misses == c.autotune_misses
                && b.autotune_writes == c.autotune_writes
        }),
{
}

/// Loading the seed changes what is cached and nothing else.
pub proof fn law_seed_changes_memory_only(view: TuneCacheView)
    ensures
        ({
            let after = after_seed(view);
            &&& after.persistent == view.persistent
            &&& after.seed == view.seed
            &&& after.seed_count == view.seed_count
            &&& after.hydrated == view.hydrated
            &&& after.generation == view.generation
            &&& view.seed is None ==> after.memory == view.memory
            &&& view.seed is Some ==> forall|key: Seq<char>|
                (view.seed->0).contains_key(key) ==> #[trigger] after.memory.contains_key(key)
        }),
{
}

} // verus!
