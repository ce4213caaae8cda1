//! Cache metrics for startup observability.

use crate::duration::{duration_nanos, Duration};
use vstd::prelude::*;

verus! {

use crate::duration::counted_nanos;

/// Counters of autotune and compilation-cache activity.
#[derive(Clone, Copy, Debug, PartialEq, Eq, Structural)]
pub struct CacheCounters {
    /// Resolved autotune cache hits.
    pub autotune_hits: u64,
    /// Autotune keys that required tuning.
    pub autotune_misses: u64,
    /// Newly tuned results written to the persistent cache.
    pub autotune_writes: u64,
    /// Seed-cache entries loaded across initialized tuners.
    pub autotune_seed_entries_loaded: u64,
    /// Writable-cache entries loaded across initialized tuners.
    pub autotune_writable_entries_loaded: u64,
    /// Compiled-kernel cache hits.
    pub compilation_cache_hits: u64,
    /// Compiled-kernel cache misses.
    pub compilation_cache_misses: u64,
    /// Compiled kernels written to the persistent cache.
    pub compilation_cache_writes: u64,
    /// Kernels compiled with NVRTC after a compilation-cache miss.
    pub nvrtc_compilations: u64,
    /// Nanoseconds spent compiling kernels with NVRTC.
    pub nvrtc_compilation_nanos: u64,
    /// PTX modules loaded into a backend context.
    pub module_loads: u64,
    /// Nanoseconds spent loading PTX modules and resolving entry points.
    pub module_load_nanos: u64,
}

impl Default for CacheCounters {
    fn default() -> (counters: Self)
        ensures
            counters == CacheCounters::zero(),
    {
        CacheCounters {
            autotune_hits: 0,
            autotune_misses: 0,
            autotune_writes: 0,
            autotune_seed_entries_loaded: 0,
            autotune_writable_entries_loaded: 0,
            compilation_cache_hits: 0,
            compilation_cache_misses: 0,
            compilation_cache_writes: 0,
            nvrtc_compilations: 0,
            nvrtc_compilation_nanos: 0,
            module_loads: 0,
            module_load_nanos: 0,
        }
    }
}

impl CacheCounters {
    /// Nothing was counted.
    pub open spec fn zero() -> Self {
        CacheCounters {
            autotune_hits: 0,
            autotune_misses: 0,
            autotune_writes: 0,
            autotune_seed_entries_loaded: 0,
            autotune_writable_entries_loaded: 0,
            compilation_cache_hits: 0,
            compilation_cache_misses: 0,
            compilation_cache_writes: 0,
            nvrtc_compilations: 0,
            nvrtc_compilation_nanos: 0,
            module_loads: 0,
            module_load_nanos: 0,
        }
    }
}

/// Snapshot of autotune and compilation-cache activity.
#[derive(Clone, Copy, Debug, PartialEq, Eq, Structural)]
pub struct CacheMetrics {
    /// Resolved autotune cache hits.
    pub autotune_hits: u64,
    /// Autotune keys that required tuning.
    pub autotune_misses: u64,
    /// Newly tuned results written to the persistent cache.
    pub autotune_writes: u64,
    /// Seed-cache entries loaded across initialized tuners.
    pub autotune_seed_entries_loaded: u64,
    /// Writable-cache entries loaded across initialized tuners.
    pub autotune_writable_entries_loaded: u64,
    /// Compiled-kernel cache hits.
    pub compilation_cache_hits: u64,
    /// Compiled-kernel cache misses.
    pub compilation_cache_misses: u64,
    /// Compiled kernels written to the persistent cache.
    pub compilation_cache_writes: u64,
    /// Kernels compiled with NVRTC after a compilation-cache miss.
    pub nvrtc_compilations: u64,
    /// Wall time spent compiling kernels with NVRTC.
    pub nvrtc_compilation_time: Duration,
    /// PTX modules loaded into a backend context.
    pub module_loads: u64,
    /// Wall time spent loading PTX modules and resolving entry points.
    pub module_load_time: Duration,
}

impl Default for CacheMetrics {
    fn default() -> (metrics: Self)
        ensures
            metrics == snapshot(CacheCounters::zero()),
    {
        CacheMetrics {
            autotune_hits: 0,
            autotune_misses: 0,
            autotune_writes: 0,
            autotune_seed_entries_loaded: 0,
            autotune_writable_entries_loaded: 0,
            compilation_cache_hits: 0,
            compilation_cache_misses: 0,
            compilation_cache_writes: 0,
            nvrtc_compilations: 0,
            nvrtc_compilation_time: Duration { nanos: 0 },
            module_loads: 0,
            module_load_time: Duration { nanos: 0 },
        }
    }
}

/// What a snapshot shows of the counters.
pub open spec fn snapshot(counters: CacheCounters) -> CacheMetrics {
    CacheMetrics {
        autotune_hits: counters.autotune_hits,
        autotune_misses: counters.autotune_misses,
        autotune_writes: counters.autotune_writes,
        autotune_seed_entries_loaded: counters.autotune_seed_entries_loaded,
        autotune_writable_entries_loaded: counters.autotune_writable_entries_loaded,
        compilation_cache_hits: counters.compilation_cache_hits,
        compilation_cache_misses: counters.compilation_cache_misses,
        compilation_cache_writes: counters.compilation_cache_writes,
        nvrtc_compilations: counters.nvrtc_compilations,
        nvrtc_compilation_time: Duration { nanos: counters.nvrtc_compilation_nanos as u128 },
        module_loads: counters.module_loads,
        module_load_time: Duration { nanos: counters.module_load_nanos as u128 },
    }
}

impl CacheMetrics {
    /// The delta from an earlier snapshot: each counter on its own, and never below zero.
    pub open spec fn delta_spec(self, earlier: Self) -> Self {
        CacheMetrics {
            autotune_hits: self.autotune_hits.saturating_sub(
                earlier.autotune_hits,
            ),
            autotune_misses: self.autotune_misses.saturating_sub(
                earlier.autotune_misses,
            ),
            autotune_writes: self.autotune_writes.saturating_sub(
                earlier.autotune_writes,
            ),
            autotune_seed_entries_loaded: self.autotune_seed_entries_loaded.saturating_sub(
                earlier.autotune_seed_entries_loaded,
            ),
            autotune_writable_entries_loaded: self.autotune_writable_entries_loaded.saturating_sub(
                earlier.autotune_writable_entries_loaded,
            ),
            compilation_cache_hits: self.compilation_cache_hits.saturating_sub(
                earlier.compilation_cache_hits,
            ),
            compilation_cache_misses: self.compilation_cache_misses.saturating_sub(
                earlier.compilation_cache_misses,
            ),
            compilation_cache_writes: self.compilation_cache_writes.saturating_sub(
                earlier.compilation_cache_writes,
            ),
            nvrtc_compilations: self.nvrtc_compilations.saturating_sub(
                earlier.nvrtc_compilations,
            ),
            nvrtc_compilation_time: Duration {
                nanos: self.nvrtc_compilation_time.nanos.saturating_sub(
                    earlier.nvrtc_compilation_time.nanos,
                ),
            },
            module_loads: self.module_loads.saturating_sub(
                earlier.module_loads,
            ),
            module_load_time: Duration {
                nanos: self.module_load_time.nanos.saturating_sub(
                    earlier.module_load_time.nanos,
                ),
            },
        }
    }

    /// Returns the non-negative counter delta from an earlier snapshot.
    pub fn delta(self, earlier: Self) -> (delta: Self)
        ensures
            delta == self.delta_spec(earlier),
    {
        CacheMetrics {
            autotune_hits: self.autotune_hits.saturating_sub(
                earlier.autotune_hits,
            ),
            autotune_misses: self.autotune_misses.saturating_sub(
                earlier.autotune_misses,
            ),
            autotune_writes: self.autotune_writes.saturating_sub(
                earlier.autotune_writes,
            ),
            autotune_seed_entries_loaded: self.autotune_seed_entries_loaded.saturating_sub(
                earlier.autotune_seed_entries_loaded,
            ),
            autotune_writable_entries_loaded: self.autotune_writable_entries_loaded.saturating_sub(
                earlier.autotune_writable_entries_loaded,
            ),
            compilation_cache_hits: self.compilation_cache_hits.saturating_sub(
                earlier.compilation_cache_hits,
            ),
            compilation_cache_misses: self.compilation_cache_misses.saturating_sub(
                earlier.compilation_cache_misses,
            ),
            compilation_cache_writes: self.compilation_cache_writes.saturating_sub(
                earlier.compilation_cache_writes,
            ),
            nvrtc_compilations: self.nvrtc_compilations.saturating_sub(
                earlier.nvrtc_compilations,
            ),
            nvrtc_compilation_time: self.nvrtc_compilation_time.saturating_sub(
                earlier.nvrtc_compilation_time,
            ),
            module_loads: self.module_loads.saturating_sub(
                earlier.module_loads,
            ),
            module_load_time: self.module_load_time.saturating_sub(
                earlier.module_load_time,
            ),
        }
    }

    /// The snapshot contains work that a fully warm cache should avoid.
    pub open spec fn has_cache_miss_spec(self) -> bool {
        ||| self.autotune_misses != 0
        ||| self.autotune_writes != 0
        ||| self.compilation_cache_misses != 0
        ||| self.compilation_cache_writes != 0
        ||| self.nvrtc_compilations != 0
    }

    /// Returns whether the snapshot contains work that a fully warm cache should avoid.
    pub fn has_cache_miss(&self) -> (miss: bool)
        ensures
            miss == self.has_cache_miss_spec(),
    {
        self.autotune_misses > 0 || self.autotune_writes > 0 || self.compilation_cache_misses > 0
            || self.compilation_cache_writes > 0 || self.nvrtc_compilations > 0
    }
}

/// Returns the current cache metrics.
pub fn cache_metrics(counters: &CacheCounters) -> (metrics: CacheMetrics)
    ensures
        metrics == snapshot(*counters),
{
    CacheMetrics {
        autotune_hits: counters.autotune_hits,
        autotune_misses: counters.autotune_misses,
        autotune_writes: counters.autotune_writes,
        autotune_seed_entries_loaded: counters.autotune_seed_entries_loaded,
        autotune_writable_entries_loaded: counters.autotune_writable_entries_loaded,
        compilation_cache_hits: counters.compilation_cache_hits,
        compilation_cache_misses: counters.compilation_cache_misses,
        compilation_cache_writes: counters.compilation_cache_writes,
        nvrtc_compilations: counters.nvrtc_compilations,
        nvrtc_compilation_time: Duration::from_nanos(counters.nvrtc_compilation_nanos),
        module_loads: counters.module_loads,
        module_load_time: Duration::from_nanos(counters.module_load_nanos),
    }
}

/// Records one resolved autotune cache hit.
pub fn record_autotune_hit(counters: &mut CacheCounters)
    ensures
        *final(counters) == (CacheCounters {
            autotune_hits: old(counters).autotune_hits.wrapping_add(1),
            ..*old(counters)
        }),
{
    counters.autotune_hits = counters.autotune_hits.wrapping_add(1);
}

/// Records one autotune key that requires tuning.
pub fn record_autotune_miss(counters: &mut CacheCounters)
    ensures
        *final(counters) == (CacheCounters {
            autotune_misses: old(counters).autotune_misses.wrapping_add(1),
            ..*old(counters)
        }),
{
    counters.autotune_misses = counters.autotune_misses.wrapping_add(1);
}

/// Records one newly tuned persistent-cache write.
pub fn record_autotune_write(counters: &mut CacheCounters)
    ensures
        *final(counters) == (CacheCounters {
            autotune_writes: old(counters).autotune_writes.wrapping_add(1),
            ..*old(counters)
        }),
{
    counters.autotune_writes = counters.autotune_writes.wrapping_add(1);
}

/// Records seed-cache entries loaded by an initialized tuner.
pub fn record_autotune_seed_entries_loaded(counters: &mut CacheCounters, entries: u64)
    ensures
        *final(counters) == (CacheCounters {
            autotune_seed_entries_loaded: old(counters).autotune_seed_entries_loaded
                .wrapping_add(entries),
            ..*old(counters)
        }),
{
    counters.autotune_seed_entries_loaded = counters.autotune_seed_entries_loaded
        .wrapping_add(entries);
}

/// Records writable-cache entries loaded by an initialized tuner.
pub fn record_autotune_writable_entries_loaded(counters: &mut CacheCounters, entries: u64)
    ensures
        *final(counters) == (CacheCounters {
            autotune_writable_entries_loaded: old(counters).autotune_writable_entries_loaded
                .wrapping_add(entries),
            ..*old(counters)
        }),
{
    counters.autotune_writable_entries_loaded = counters.autotune_writable_entries_loaded
        .wrapping_add(entries);
}

/// Records one compiled-kernel cache hit.
pub fn record_compilation_cache_hit(counters: &mut CacheCounters)
    ensures
        *final(counters) == (CacheCounters {
            compilation_cache_hits: old(counters).compilation_cache_hits.wrapping_add(1),
            ..*old(counters)
        }),
{
    counters.compilation_cache_hits = counters.compilation_cache_hits.wrapping_add(1);
}

/// Records one compiled-kernel cache miss.
pub fn record_compilation_cache_miss(counters: &mut CacheCounters)
    ensures
        *final(counters) == (CacheCounters {
            compilation_cache_misses: old(counters).compilation_cache_misses.wrapping_add(1),
            ..*old(counters)
        }),
{
    counters.compilation_cache_misses = counters.compilation_cache_misses.wrapping_add(1);
}

/// Records one compiled-kernel persistent-cache write.
pub fn record_compilation_cache_write(counters: &mut CacheCounters)
    ensures
        *final(counters) == (CacheCounters {
            compilation_cache_writes: old(counters).compilation_cache_writes.wrapping_add(1),
            ..*old(counters)
        }),
{
    counters.compilation_cache_writes = counters.compilation_cache_writes.wrapping_add(1);
}

/// Records one NVRTC kernel compilation and its duration.
pub fn record_nvrtc_compilation(counters: &mut CacheCounters, duration: Duration)
    ensures
        *final(counters) == (CacheCounters {
            nvrtc_compilations: old(counters).nvrtc_compilations.wrapping_add(1),
            nvrtc_compilation_nanos: old(counters).nvrtc_compilation_nanos.wrapping_add(
                counted_nanos(duration),
            ),
            ..*old(counters)
        }),
{
    counters.nvrtc_compilations = counters.nvrtc_compilations.wrapping_add(1);
    counters.nvrtc_compilation_nanos =
    counters.nvrtc_compilation_nanos.wrapping_add(duration_nanos(duration));
}

/// Records one PTX module load and its duration.
pub fn record_module_load(counters: &mut CacheCounters, duration: Duration)
    ensures
        *final(counters) == (CacheCounters {
            module_loads: old(counters).module_loads.wrapping_add(1),
            module_load_nanos: old(counters).module_load_nanos.wrapping_add(
                counted_nanos(duration),
            ),
            ..*old(counters)
        }),
{
    counters.module_loads = counters.module_loads.wrapping_add(1);
    counters.module_load_nanos =
    counters.module_load_nanos.wrapping_add(duration_nanos(duration));
}

/// The delta of a snapshot from itself shows no activity, and the delta from before anything was
/// counted shows all of it.
pub proof fn law_delta_bounds(metrics: CacheMetrics)
    ensures
        metrics.delta_spec(metrics) == snapshot(CacheCounters::zero()),
        metrics.delta_spec(snapshot(CacheCounters::zero())) == metrics,
{
}

/// No counter is less than it was.
pub open spec fn grew(before: CacheCounters, after: CacheCounters) -> bool {
    &&& before.autotune_hits <= after.autotune_hits
    &&& before.autotune_misses <= after.autotune_misses
    &&& before.autotune_writes <= after.autotune_writes
    &&& before.autotune_seed_entries_loaded <= after.autotune_seed_entries_loaded
    &&& before.autotune_writable_entries_loaded <= after.autotune_writable_entries_loaded
    &&& before.compilation_cache_hits <= after.compilation_cache_hits
    &&& before.compilation_cache_misses <= after.compilation_cache_misses
    &&& before.compilation_cache_writes <= after.compilation_cache_writes
    &&& before.nvrtc_compilations <= after.nvrtc_compilations
    &&& before.nvrtc_compilation_nanos <= after.nvrtc_compilation_nanos
    &&& before.module_loads <= after.module_loads
    &&& before.module_load_nanos <= after.module_load_nanos
}

/// What is counted between two snapshots is what their delta shows, as long as no counter wraps
/// around; and the delta tells of work that a warm cache avoids if and only if there was some.
pub proof fn law_delta_shows_activity(before: CacheCounters, after: CacheCounters)
    requires
        grew(before, after),
    ensures
        ({
            let delta = snapshot(after).delta_spec(snapshot(before));
            &&& delta.autotune_hits == after.autotune_hits - before.autotune_hits
            &&& delta.autotune_misses == after.autotune_misses - before.autotune_misses
            &&& delta.autotune_writes == after.autotune_writes - before.autotune_writes
            &&& delta.autotune_seed_entries_loaded == after.autotune_seed_entries_loaded
                - before.autotune_seed_entries_loaded
            &&& delta.autotune_writable_entries_loaded == after.autotune_writable_entries_loaded
                - before.autotune_writable_entries_loaded
            &&& delta.compilation_cache_hits == after.compilation_cache_hits
                - before.compilation_cache_hits
            &&& delta.compilation_cache_misses == after.compilation_cache_misses
                - before.compilation_cache_misses
            &&& delta.compilation_cache_writes == after.compilation_cache_writes
                - before.compilation_cache_writes
            &&& delta.nvrtc_compilations == after.nvrtc_compilations - before.nvrtc_compilations
            &&& delta.module_loads == after.module_loads - before.module_loads
            &&& delta.nvrtc_compilation_time.nanos == after.nvrtc_compilation_nanos
                - before.nvrtc_compilation_nanos
            &&& delta.module_load_time.nanos == after.module_load_nanos - before.module_load_nanos
            &&& delta.has_cache_miss_spec() <==> (after.autotune_misses != before.autotune_misses
                || after.autotune_writes != before.autotune_writes
                || after.compilation_cache_misses != before.compilation_cache_misses
                || after.compilation_cache_writes != before.compilation_cache_writes
                || after.nvrtc_compilations != before.nvrtc_compilations)
        }),
{
}

/// A delta is never below zero: a counter that is less than it was shows as no activity, whatever
/// the others show.
pub proof fn law_delta_is_never_negative(earlier: CacheMetrics, later: CacheMetrics)
    ensures
        ({
            let delta = later.delta_spec(earlier);
            &&& later.autotune_hits <= earlier.autotune_hits ==> delta.autotune_hits == 0
            &&& later.autotune_misses <= earlier.autotune_misses ==> delta.autotune_misses == 0
            &&& later.autotune_writes <= earlier.autotune_writes ==> delta.autotune_writes == 0
            &&& later.autotune_seed_entries_loaded <= earlier.autotune_seed_entries_loaded
                ==> delta.autotune_seed_entries_loaded == 0
            &&& later.autotune_writable_entries_loaded <= earlier.autotune_writable_entries_loaded
                ==> delta.autotune_writable_entries_loaded == 0
            &&& later.compilation_cache_hits <= earlier.compilation_cache_hits
                ==> delta.compilation_cache_hits == 0
            &&& later.compilation_cache_misses <= earlier.compilation_cache_misses
                ==> delta.compilation_cache_misses == 0
            &&& later.compilation_cache_writes <= earlier.compilation_cache_writes
                ==> delta.compilation_cache_writes == 0
            &&& later.nvrtc_compilations <= earlier.nvrtc_compilations
                ==> delta.nvrtc_compilations == 0
            &&& later.module_loads <= earlier.module_loads ==> delta.module_loads == 0
            &&& later.autotune_hits > earlier.autotune_hits ==> delta.autotune_hits
                == later.autotune_hits - earlier.autotune_hits
            &&& later.autotune_misses > earlier.autotune_misses ==> delta.autotune_misses
                == later.autotune_misses - earlier.autotune_misses
            &&& later.autotune_writes > earlier.autotune_writes ==> delta.autotune_writes
                == later.autotune_writes - earlier.autotune_writes
            &&& later.autotune_seed_entries_loaded > earlier.autotune_seed_entries_loaded
                ==> delta.autotune_seed_entries_loaded
                == later.autotune_seed_entries_loaded - earlier.autotune_seed_entries_loaded
            &&& later.autotune_writable_entries_loaded > earlier.autotune_writable_entries_loaded
                ==> delta.autotune_writable_entries_loaded
                == later.autotune_writable_entries_loaded - earlier.autotune_writable_entries_loaded
            &&& later.compilation_cache_hits > earlier.compilation_cache_hits
                ==> delta.compilation_cache_hits
                == later.compilation_cache_hits - earlier.compilation_cache_hits
            &&& later.compilation_cache_misses > earlier.compilation_cache_misses
                ==> delta.compilation_cache_misses
                == later.compilation_cache_misses - earlier.compilation_cache_misses
            &&& later.compilation_cache_writes > earlier.compilation_cache_writes
                ==> delta.compilation_cache_writes
                == later.compilation_cache_writes - earlier.compilation_cache_writes
            &&& later.nvrtc_compilations > earlier.nvrtc_compilations ==> delta.nvrtc_compilations
                == later.nvrtc_compilations - earlier.nvrtc_compilations
            &&& later.module_loads > earlier.module_loads ==> delta.module_loads
                == later.module_loads - earlier.module_loads
            &&& later.nvrtc_compilation_time.nanos <= earlier.nvrtc_compilation_time.nanos
                ==> delta.nvrtc_compilation_time.nanos == 0
            &&& later.nvrtc_compilation_time.nanos > earlier.nvrtc_compilation_time.nanos
                ==> delta.nvrtc_compilation_time.nanos
                == later.nvrtc_compilation_time.nanos - earlier.nvrtc_compilation_time.nanos
            &&& later.module_load_time.nanos <= earlier.module_load_time.nanos
                ==> delta.module_load_time.nanos == 0
            &&& later.module_load_time.nanos > earlier.module_load_time.nanos
                ==> delta.module_load_time.nanos
                == later.module_load_time.nanos - earlier.module_load_time.nanos
        }),
{
}

/// A snapshot shows every counter under its own name.
pub proof fn law_snapshot_shows_counters(counters: CacheCounters)
    ensures
        ({
            let metrics = snapshot(counters);
            &&& metrics.autotune_hits == counters.autotune_hits
            &&& metrics.autotune_misses == counters.autotune_misses
            &&& metrics.autotune_writes == counters.autotune_writes
            &&& metrics.autotune_seed_entries_loaded == counters.autotune_seed_entries_loaded
            &&& metrics.autotune_writable_entries_loaded == counters.autotune_writable_entries_loaded
            &&& metrics.compilation_cache_hits == counters.compilation_cache_hits
            &&& metrics.compilation_cache_misses == counters.compilation_cache_misses
            &&& metrics.compilation_cache_writes == counters.compilation_cache_writes
            &&& metrics.nvrtc_compilations == counters.nvrtc_compilations
            &&& metrics.module_loads == counters.module_loads
            &&& metrics.nvrtc_compilation_time.nanos == counters.nvrtc_compilation_nanos
            &&& metrics.module_load_time.nanos == counters.module_load_nanos
        }),
{
}

} // verus!
