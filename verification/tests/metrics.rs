use cubecl::cache_metrics::{
    cache_metrics, record_autotune_hit, record_autotune_miss, record_autotune_seed_entries_loaded,
    record_autotune_writable_entries_loaded, record_autotune_write, record_compilation_cache_hit,
    record_compilation_cache_miss, record_compilation_cache_write, record_module_load,
    record_nvrtc_compilation,
};
use cubecl::duration::duration_nanos;
use cubecl::op_metrics::{
    op_metrics, record_d2h_copy, record_h2d_copy, record_kernel_launch, record_synchronization,
};
use cubecl::{
    device_generation_metrics, CacheCounters, CacheMetrics, DeviceGenerationMetrics, Duration,
    GenerationCounters, OpMetrics,
};

#[test]
fn test_cache_metrics_delta() {
    let earlier = CacheMetrics {
        autotune_hits: 4,
        nvrtc_compilations: 3,
        nvrtc_compilation_time: Duration::from_millis(10),
        ..CacheMetrics::default()
    };
    let current = CacheMetrics {
        autotune_hits: 9,
        nvrtc_compilations: 5,
        nvrtc_compilation_time: Duration::from_millis(25),
        ..CacheMetrics::default()
    };

    let delta = current.delta(earlier);

    assert_eq!(5, delta.autotune_hits);
    assert_eq!(2, delta.nvrtc_compilations);
    assert_eq!(Duration::from_millis(15), delta.nvrtc_compilation_time);
}

#[test]
fn test_cache_metrics_has_cache_miss() {
    let warm = CacheMetrics {
        autotune_hits: 1,
        compilation_cache_hits: 1,
        module_loads: 1,
        ..CacheMetrics::default()
    };
    let cold = CacheMetrics {
        compilation_cache_misses: 1,
        ..CacheMetrics::default()
    };

    assert!(!warm.has_cache_miss());
    assert!(cold.has_cache_miss());
}

#[test]
fn each_kind_of_cold_work_is_a_miss() {
    let base = CacheMetrics::default();
    for cold in [
        CacheMetrics { autotune_misses: 1, ..base },
        CacheMetrics { autotune_writes: 1, ..base },
        CacheMetrics { compilation_cache_misses: 1, ..base },
        CacheMetrics { compilation_cache_writes: 1, ..base },
        CacheMetrics { nvrtc_compilations: 1, ..base },
    ] {
        assert!(cold.has_cache_miss());
    }
    assert!(!base.has_cache_miss());
}

#[test]
fn recording_shows_in_snapshot_and_delta() {
    let mut counters = CacheCounters::default();
    let before = cache_metrics(&counters);
    record_autotune_hit(&mut counters);
    record_autotune_hit(&mut counters);
    record_autotune_miss(&mut counters);
    record_autotune_write(&mut counters);
    record_autotune_seed_entries_loaded(&mut counters, 7);
    record_autotune_writable_entries_loaded(&mut counters, 9);
    record_compilation_cache_hit(&mut counters);
    record_compilation_cache_miss(&mut counters);
    record_compilation_cache_write(&mut counters);
    record_nvrtc_compilation(&mut counters, Duration::from_millis(3));
    record_module_load(&mut counters, Duration::from_nanos(11));

    let delta = cache_metrics(&counters).delta(before);
    assert_eq!(delta.autotune_hits, 2);
    assert_eq!(delta.autotune_misses, 1);
    assert_eq!(delta.autotune_writes, 1);
    assert_eq!(delta.autotune_seed_entries_loaded, 7);
    assert_eq!(delta.autotune_writable_entries_loaded, 9);
    assert_eq!(delta.compilation_cache_hits, 1);
    assert_eq!(delta.compilation_cache_misses, 1);
    assert_eq!(delta.compilation_cache_writes, 1);
    assert_eq!(delta.nvrtc_compilations, 1);
    assert_eq!(delta.nvrtc_compilation_time.as_nanos(), 3_000_000);
    assert_eq!(delta.module_loads, 1);
    assert_eq!(delta.module_load_time.as_nanos(), 11);
    assert_eq!(before.delta(cache_metrics(&counters)), CacheMetrics::default());
}

#[test]
fn counters_wrap_around() {
    let mut counters = CacheCounters { autotune_hits: u64::MAX, ..CacheCounters::default() };
    record_autotune_hit(&mut counters);
    assert_eq!(counters.autotune_hits, 0);
}

#[test]
fn long_spans_are_counted_as_far_as_it_goes() {
    assert_eq!(duration_nanos(Duration::from_nanos(5)), 5);
    assert_eq!(duration_nanos(Duration { nanos: u128::MAX }), u64::MAX);
    assert_eq!(
        Duration::from_nanos(3).saturating_sub(Duration::from_nanos(5)),
        Duration::default()
    );
}

#[test]
fn test_op_metrics_delta() {
    let earlier = OpMetrics {
        kernel_launches: 100,
        h2d_copies: 10,
        h2d_bytes: 1024,
        synchronizations: 4,
        ..OpMetrics::default()
    };
    let current = OpMetrics {
        kernel_launches: 258,
        h2d_copies: 110,
        h2d_bytes: 5120,
        synchronizations: 6,
        ..OpMetrics::default()
    };

    let delta = current.delta(earlier);

    assert_eq!(158, delta.kernel_launches);
    assert_eq!(100, delta.h2d_copies);
    assert_eq!(4096, delta.h2d_bytes);
    assert_eq!(2, delta.synchronizations);
}

#[test]
fn operations_are_counted() {
    let mut counters = OpMetrics::default();
    record_kernel_launch(&mut counters);
    record_h2d_copy(&mut counters, 64);
    record_h2d_copy(&mut counters, 36);
    record_d2h_copy(&mut counters, 8);
    record_synchronization(&mut counters);
    assert_eq!(
        op_metrics(&counters),
        OpMetrics {
            kernel_launches: 1,
            h2d_copies: 2,
            h2d_bytes: 100,
            d2h_copies: 1,
            d2h_bytes: 8,
            synchronizations: 1,
        }
    );
}

#[test]
fn deltas_of_consecutive_spans_add_up() {
    let first = OpMetrics { kernel_launches: 3, ..OpMetrics::default() };
    let second = OpMetrics { kernel_launches: 10, d2h_copies: 2, ..OpMetrics::default() };
    let third = OpMetrics { kernel_launches: 11, d2h_copies: 6, ..OpMetrics::default() };
    let whole = third.delta(first);
    assert_eq!(
        whole.kernel_launches,
        second.delta(first).kernel_launches + third.delta(second).kernel_launches
    );
    assert_eq!(
        whole.d2h_copies,
        second.delta(first).d2h_copies + third.delta(second).d2h_copies
    );
}

#[test]
fn test_device_generation_metrics_delta_saturates() {
    let earlier = DeviceGenerationMetrics {
        created_generations: 5,
        closed_generations: 4,
    };
    let current = DeviceGenerationMetrics {
        created_generations: 3,
        closed_generations: 6,
    };

    let delta = current.delta(earlier);

    assert_eq!(0, delta.created_generations());
    assert_eq!(2, delta.closed_generations());
    assert_eq!(0, delta.active_generations());
}

#[test]
fn generation_metrics_show_the_counters() {
    let counters = GenerationCounters { next_id: 9, created: 8, closed: 3 };
    let metrics = device_generation_metrics(&counters);
    assert_eq!(metrics.created_generations(), 8);
    assert_eq!(metrics.closed_generations(), 3);
    assert_eq!(metrics.active_generations(), 5);
    assert_eq!(DeviceGenerationMetrics::default().active_generations(), 0);
}
