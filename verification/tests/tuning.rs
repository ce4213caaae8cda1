use cubecl::paths::path_components;
use cubecl::seed_path::{legacy_seed_path, seed_lines, set_extension};
use cubecl::tune_cache::{seed_of, stored_entry, Report, StoreOutcome};
use cubecl::{
    AutotuneError, AutotuneKey, AutotuneResult, CacheCounters, CacheEntry, ChecksumState,
    CubeTuneId, DeviceId, HardwareProperties, InputGenerator, KeyGenerator, PersistentCacheKey,
    PersistentCacheValue, SeedCache, StoredEntry, Tunable, TunableSet, TuneCache, TuneCacheResult,
};

type Tuned = TunableSet<fn(usize) -> Result<usize, AutotuneError>, EmptyKey, cubecl::CloneInputGenerator>;

struct EmptyKey;

impl KeyGenerator<String, usize> for EmptyKey {
    fn generate(&self, _inputs: &usize) -> String {
        String::new()
    }
}

fn tunable(name: &str) -> Tunable<fn(usize) -> Result<usize, AutotuneError>> {
    Tunable::new(name, Ok::<usize, AutotuneError>)
}

#[test]
fn test_reference_index() {
    struct TestCase {
        set: Tuned,
    }

    struct ExpectedTestResult {
        reference_index: usize,
    }

    let test_cases = [
        TestCase {
            set: TunableSet::new_cloning_inputs(EmptyKey)
                .with(tunable("first"))
                .with(tunable("last")),
        },
        TestCase {
            set: TunableSet::new_cloning_inputs(EmptyKey)
                .with_reference(tunable("reference"))
                .with(tunable("last")),
        },
    ];
    let expected_results = [
        ExpectedTestResult { reference_index: 1 },
        ExpectedTestResult { reference_index: 0 },
    ];

    for (index, (test_case, expected)) in
        test_cases.iter().zip(expected_results.iter()).enumerate()
    {
        assert_eq!(
            expected.reference_index,
            test_case.set.reference_index(),
            "Test case {index} failed",
        );
    }
}

#[test]
fn set_runs_its_candidates() {
    let set: Tuned = TunableSet::new_cloning_inputs(EmptyKey);
    assert!(set.is_empty());
    let set = set.with(tunable("first")).with(tunable("second"));
    assert_eq!(set.len(), 2);
    assert!(!set.is_empty());
    let names: Vec<&str> = set.autotunables().iter().map(|function| function.name()).collect();
    assert_eq!(names, vec!["first", "second"]);
    assert_eq!(set.fastest(1).name(), "second");
    assert_eq!(set.fastest(0).execute(42).unwrap(), 42);
    assert_eq!(set.generate_key(&5usize), String::new());
    assert_eq!(set.generate_inputs(&String::new(), &5usize), 5);
}

#[test]
fn custom_generators_are_used() {
    struct Doubling;
    impl InputGenerator<String, usize> for Doubling {
        fn generate(&self, _key: &String, inputs: &usize) -> usize {
            inputs * 2
        }
    }
    struct Labelled;
    impl KeyGenerator<String, usize> for Labelled {
        fn generate(&self, inputs: &usize) -> String {
            format!("key-{inputs}")
        }
    }
    let set: TunableSet<fn(usize) -> Result<usize, AutotuneError>, Labelled, Doubling> =
        TunableSet::new(Labelled, Doubling);
    assert_eq!(set.generate_key(&3usize), "key-3");
    assert_eq!(set.generate_inputs(&String::new(), &3usize), 6);
}

#[test]
fn checksum_is_the_digest_of_the_names() {
    let empty: Tuned = TunableSet::new_cloning_inputs(EmptyKey);
    assert_eq!(empty.checksum_text(), "");
    assert_eq!(empty.compute_checksum(), "d41d8cd98f00b204e9800998ecf8427e");
    let set: Tuned = TunableSet::new_cloning_inputs(EmptyKey)
        .with(tunable("abcdefghijklm"))
        .with(tunable("nopqrstuvwxyz"));
    assert_eq!(set.checksum_text(), "13:abcdefghijklm13:nopqrstuvwxyz");
    assert_eq!(set.compute_checksum(), "0e490fcda49bfb59686486ed56c970aa");
    assert_ne!(set.compute_checksum(), empty.compute_checksum());
}

#[test]
fn checksum_tells_the_names_apart() {
    let set = |names: &[&'static str]| -> Tuned {
        names.iter().fold(TunableSet::new_cloning_inputs(EmptyKey), |set, name| {
            set.with(tunable(name))
        })
    };
    let lists: [&[&'static str]; 8] = [
        &[],
        &[""],
        &["ab", "c"],
        &["a", "bc"],
        &["abc"],
        &["c", "ab"],
        &["ab", "c", ""],
        &["ab1:c"],
    ];
    for (i, a) in lists.iter().enumerate() {
        for b in lists.iter().skip(i + 1) {
            assert_ne!(set(a).checksum_text(), set(b).checksum_text());
            assert_ne!(set(a).compute_checksum(), set(b).compute_checksum());
        }
    }
    assert_eq!(set(&["ab", "c"]).checksum_text(), "2:ab1:c");
    assert_eq!(set(&["ab", "c"]).compute_checksum(), "56881f02774bf192b185174ec9fa299c");
}

#[test]
fn string_keys_are_their_own_text() {
    assert_eq!("operation".to_string().to_text(), "operation");
}

#[test]
fn legacy_path_uses_cubecl_filename_sanitization() {
    let version = "1.2.3";
    let path = legacy_seed_path(version, "tuner name:1", "device name/1", false);
    let expected = vec![
        "autotune".to_string(),
        version.to_string(),
        "device name".to_string(),
        "1".to_string(),
        "tuner name_1.json.log".to_string(),
    ];

    assert_eq!(path, expected);

    let absolute = legacy_seed_path(version, "tuner name:1", "/device name/1", false);
    assert_eq!(absolute, expected);
}

#[test]
fn seed_path_stays_below_its_root() {
    let path = legacy_seed_path("1.2.3", "tu?ner", "../..//./device\\0", false);
    assert_eq!(
        path,
        vec!["autotune", "1.2.3", "_", "_", "device_0", "tu_ner.json.log"]
    );
}

#[test]
fn windows_names_are_sanitized_too() {
    assert_eq!(
        legacy_seed_path("1", "con", "d", true).last().unwrap(),
        "_.json.log"
    );
    assert_eq!(
        legacy_seed_path("1", "con", "d", false).last().unwrap(),
        "con.json.log"
    );
}

#[test]
fn components_skip_empty_parts_and_inner_dots() {
    assert_eq!(path_components("/a//b/./c/", false), vec!["a", "b", "c"]);
    assert_eq!(path_components("./a/.", false), vec![".", "a"]);
    assert_eq!(path_components("", false), Vec::<String>::new());
    assert_eq!(path_components("a\\b/c", false), vec!["a\\b", "c"]);
}

#[test]
fn components_are_cut_at_backslashes_on_windows() {
    assert_eq!(path_components("a\\b/c", true), vec!["a", "b", "c"]);
    assert_eq!(path_components("/a\\.\\b", true), vec!["\\", "a", "b"]);
    assert_eq!(path_components("C:\\a", true), vec!["C:", "\\", "a"]);
    assert_eq!(path_components("c:a", true), vec!["c:", "a"]);
    assert_eq!(path_components("c:.\\a", true), vec!["c:", "a"]);
    assert_eq!(path_components(".\\a", true), vec![".", "a"]);
    assert_eq!(path_components("", true), Vec::<String>::new());
    assert_eq!(
        legacy_seed_path("1", "tuner", "device\\0", true),
        vec!["autotune", "1", "device", "0", "tuner.json.log"]
    );
    assert_eq!(
        legacy_seed_path("1", "tuner", "\\device", true),
        vec!["autotune", "1", "_", "device", "tuner.json.log"]
    );
}

#[test]
fn prefixes_are_components_on_windows() {
    let cases: [(&str, &[&str]); 18] = [
        ("\\\\server\\share", &["\\\\server\\share", "\\"]),
        ("//server/share/a", &["//server/share", "\\", "a"]),
        ("\\\\server", &["\\", "server"]),
        ("\\\\server\\", &["\\", "server"]),
        ("\\\\.\\foo/bar", &["\\\\.\\foo", "\\", "bar"]),
        ("\\\\.\\", &["\\\\.\\", "\\"]),
        ("\\\\?\\bar\\foo.txt", &["\\\\?\\bar", "\\", "foo.txt"]),
        ("\\\\?\\bar", &["\\\\?\\bar"]),
        ("\\\\?\\", &["\\\\?\\"]),
        ("\\\\?\\foo/bar", &["\\\\?\\foo/bar"]),
        ("\\\\?\\UNC\\server\\share\\foo", &["\\\\?\\UNC\\server\\share", "\\", "foo"]),
        ("\\\\?\\UNC\\server", &["\\\\?\\UNC\\server"]),
        ("\\\\?\\UNC\\", &["\\\\?\\UNC\\"]),
        ("\\\\?\\C:\\foo\\.\\\\b", &["\\\\?\\C:", "\\", "foo", ".", "b"]),
        ("\\\\?\\C:", &["\\\\?\\C:"]),
        ("\\\\?\\C:/foo/bar", &["\\\\?\\C:", "\\", "foo/bar"]),
        ("\\\\?\\C:foo", &["\\\\?\\C:foo"]),
        ("//?/x", &["//?/x", "\\"]),
    ];
    for (path, components) in cases {
        assert_eq!(path_components(path, true), components, "{path}");
    }
    assert_eq!(
        legacy_seed_path("1", "tuner", "\\\\server\\share", true),
        vec!["autotune", "1", "__server_share", "_", "tuner.json.log"]
    );
}

#[test]
fn the_last_line_of_a_key_counts_in_a_seed() {
    let lines = vec![
        Some(entry("a", "first", 1)),
        None,
        Some(entry("b", "other", 2)),
        Some(entry("a", "last", 3)),
    ];
    let mut counters = CacheCounters::default();
    let seed = Some(seed_of(lines));
    let mut cache = TuneCache::new(false, 0, seed, Vec::new(), true, &mut counters);
    assert_eq!(counters.autotune_seed_entries_loaded, 2);
    assert!(matches!(cache.validate_checksum(&key("a"), "first"), TuneCacheResult::Miss));
    assert!(matches!(
        cache.validate_checksum(&key("b"), "other"),
        TuneCacheResult::Hit { fastest_index: 2 }
    ));
}

#[test]
fn extension_replaces_what_follows_the_last_dot() {
    assert_eq!(set_extension("name", "json.log"), "name.json.log");
    assert_eq!(set_extension("na.me", "json.log"), "na.json.log");
    assert_eq!(set_extension(".name", "json.log"), ".name.json.log");
    assert_eq!(set_extension("..", "json.log"), "..");
}

#[test]
fn seed_file_is_cut_into_lines() {
    let bytes = b"first\n\nsecond\n".to_vec();
    assert_eq!(seed_lines(&bytes), vec![b"first".to_vec(), b"second".to_vec()]);
    assert_eq!(seed_lines(&Vec::new()), Vec::<Vec<u8>>::new());
    assert_eq!(seed_lines(&b"last".to_vec()), vec![b"last".to_vec()]);
}

fn cache_without_store(seed: SeedCache<String>) -> TuneCache<String> {
    TuneCache::empty(false, Some(seed), true, 0)
}

#[test]
fn writable_hydration_replaces_seed_but_preserves_local_states() {
    let mut counters = CacheCounters::default();
    let mut seed = SeedCache::new();
    seed.insert("operation".to_string(), "seed-checksum".to_string(), 1);
    let mut cache = cache_without_store(seed);
    cache.load_seed_into_memory(&mut counters);
    assert!(matches!(cache.fastest(&key("operation")), TuneCacheResult::Unchecked));

    cache.merge_hydrated("operation".to_string(), "writable-checksum".to_string(), 2);
    assert!(matches!(cache.fastest(&key("operation")), TuneCacheResult::Unchecked));
    assert!(matches!(
        cache.validate_checksum(&key("operation"), "writable-checksum"),
        TuneCacheResult::Hit { fastest_index: 2 }
    ));

    cache.mark_pending("pending".to_string());
    cache.merge_hydrated("pending".to_string(), "stale-checksum".to_string(), 3);
    assert!(matches!(cache.fastest(&key("pending")), TuneCacheResult::Pending));

    cache.cache_insert("final".to_string(), 5);
    cache.merge_hydrated("final".to_string(), "stale-checksum".to_string(), 6);
    assert!(matches!(
        cache.fastest(&key("final")),
        TuneCacheResult::Hit { fastest_index: 5 }
    ));
    assert_eq!(counters.autotune_seed_entries_loaded, 1);
}

#[test]
fn invalidated_entries_are_not_replaced_by_stale_hydration() {
    let mut cache = cache_without_store(SeedCache::new());
    cache.merge_hydrated("operation".to_string(), "old-checksum".to_string(), 1);
    assert!(matches!(
        cache.validate_checksum(&key("operation"), "new-checksum"),
        TuneCacheResult::Miss
    ));

    cache.merge_hydrated("operation".to_string(), "old-checksum".to_string(), 1);
    assert!(matches!(cache.fastest(&key("operation")), TuneCacheResult::Miss));
    assert!(matches!(
        cache.entry(&key("operation")),
        Some(CacheEntry::Done { checksum: ChecksumState::NoMatch, .. })
    ));
}

#[test]
fn seed_is_reloaded_after_environment_switch() {
    let mut counters = CacheCounters::default();
    let mut seed = SeedCache::new();
    seed.insert("operation".to_string(), "seed-checksum".to_string(), 7);
    let mut cache = TuneCache::empty(true, Some(seed), true, 1);
    cache.load_seed_into_memory(&mut counters);
    cache.reset_if_environment_switched(2, &mut counters);

    assert!(matches!(cache.fastest(&key("operation")), TuneCacheResult::Unchecked));
    assert!(cache.needs_sync());
    assert_eq!(counters.autotune_seed_entries_loaded, 2);
}

#[test]
fn switch_drops_what_was_tuned_unless_process_local() {
    let mut counters = CacheCounters::default();
    let mut local = TuneCache::empty(false, None, true, 1);
    local.cache_insert("operation".to_string(), 3);
    local.reset_if_environment_switched(2, &mut counters);
    assert_eq!(local.fastest(&key("operation")), TuneCacheResult::Hit { fastest_index: 3 });

    let mut kept = TuneCache::empty(true, None, true, 1);
    kept.cache_insert("operation".to_string(), 3);
    kept.reset_if_environment_switched(1, &mut counters);
    assert_eq!(kept.fastest(&key("operation")), TuneCacheResult::Hit { fastest_index: 3 });
    kept.reset_if_environment_switched(2, &mut counters);
    assert_eq!(kept.fastest(&key("operation")), TuneCacheResult::Miss);
}

fn key(text: &str) -> String {
    text.to_string()
}

fn entry(key: &str, checksum: &str, fastest_index: usize) -> StoredEntry<String> {
    StoredEntry { key: key.to_string(), checksum: checksum.to_string(), fastest_index }
}

#[test]
fn keys_are_kept_apart() {
    let mut cache: TuneCache<String> = TuneCache::empty(false, None, true, 0);
    cache.cache_insert(key("a"), 1);
    cache.cache_insert(key("b"), 2);
    cache.mark_pending(key("a"));
    cache.merge_hydrated(key("c"), "sum".to_string(), 3);
    assert_eq!(cache.fastest(&key("a")), TuneCacheResult::Pending);
    assert_eq!(cache.fastest(&key("b")), TuneCacheResult::Hit { fastest_index: 2 });
    assert_eq!(cache.validate_checksum(&key("c"), "other"), TuneCacheResult::Miss);
    assert_eq!(cache.fastest(&key("b")), TuneCacheResult::Hit { fastest_index: 2 });
}

#[test]
fn opening_merges_seed_and_store() {
    let mut counters = CacheCounters::default();
    let mut seed = SeedCache::new();
    seed.insert("both".to_string(), "old".to_string(), 1);
    seed.insert("both".to_string(), "seed".to_string(), 2);
    seed.insert("seed-only".to_string(), "seed".to_string(), 3);
    let stored = vec![entry("both", "store", 4), entry("store-only", "store", 5)];
    let mut cache = TuneCache::new(false, 6, Some(seed), stored, true, &mut counters);
    assert_eq!(counters.autotune_seed_entries_loaded, 2);
    assert_eq!(counters.autotune_writable_entries_loaded, 2);
    assert!(!cache.needs_sync());
    assert!(cache.persists());
    assert_eq!(
        cache.validate_checksum(&key("both"), "store"),
        TuneCacheResult::Hit { fastest_index: 4 }
    );
    assert_eq!(
        cache.validate_checksum(&key("seed-only"), "seed"),
        TuneCacheResult::Hit { fastest_index: 3 }
    );
    assert_eq!(
        cache.validate_checksum(&key("store-only"), "other"),
        TuneCacheResult::Miss
    );
    // A verdict is final.
    assert_eq!(
        cache.validate_checksum(&key("store-only"), "store"),
        TuneCacheResult::Miss
    );
    assert_eq!(
        cache.validate_checksum(&key("absent"), "store"),
        TuneCacheResult::Miss
    );
}

#[test]
fn disabled_cache_ignores_seed_and_store() {
    let mut counters = CacheCounters::default();
    let mut seed = SeedCache::new();
    seed.insert("operation".to_string(), "seed".to_string(), 2);
    let cache = TuneCache::new(
        true,
        6,
        Some(seed),
        vec![entry("operation", "store", 4)],
        true,
        &mut counters,
    );
    assert_eq!(cache.fastest(&key("operation")), TuneCacheResult::Miss);
    assert_eq!(counters, CacheCounters::default());
    assert!(!cache.persists());
    assert!(!cache.needs_sync());
}

#[test]
fn incomplete_store_is_walked_again() {
    let mut counters = CacheCounters::default();
    let mut cache = TuneCache::empty(true, None, false, 0);
    assert_eq!(
        cache.sync_persistent(vec![entry("a", "x", 1)], false, &mut counters),
        1
    );
    assert!(cache.needs_sync());
    assert_eq!(
        cache.sync_persistent(vec![entry("a", "y", 2), entry("b", "x", 3)], true, &mut counters),
        2
    );
    assert!(!cache.needs_sync());
    assert_eq!(cache.sync_persistent(vec![entry("c", "x", 9)], true, &mut counters), 0);
    assert_eq!(cache.fastest(&key("c")), TuneCacheResult::Miss);
    assert_eq!(
        cache.validate_checksum(&key("a"), "y"),
        TuneCacheResult::Hit { fastest_index: 2 }
    );
    assert_eq!(counters.autotune_writable_entries_loaded, 3);
}

#[test]
fn storing_counts_only_what_was_stored() {
    let mut counters = CacheCounters::default();
    assert_eq!(
        TuneCache::<String>::persistent_cache_insert(StoreOutcome::Stored, &mut counters),
        Report::Silent
    );
    assert_eq!(counters.autotune_writes, 1);
    assert_eq!(
        TuneCache::<String>::persistent_cache_insert(StoreOutcome::DuplicatedKey, &mut counters),
        Report::Warn
    );
    assert_eq!(
        TuneCache::<String>::persistent_cache_insert(StoreOutcome::KeyOutOfSync, &mut counters),
        Report::Debug
    );
    assert_eq!(
        TuneCache::<String>::persistent_cache_insert(StoreOutcome::Backend, &mut counters),
        Report::Warn
    );
    assert_eq!(counters.autotune_writes, 1);
}

#[test]
fn results_are_equal_up_to_the_error() {
    let error = |name: &str| AutotuneError::Skip { name: name.to_string() };
    assert!(AutotuneResult::success(3u32) == AutotuneResult::success(3u32));
    assert!(AutotuneResult::success(3u32) != AutotuneResult::success(4u32));
    assert!(AutotuneResult::<u32>::error(error("a")) == AutotuneResult::error(error("b")));
    assert!(AutotuneResult::success(3u32) != AutotuneResult::error(error("a")));
    assert!(AutotuneResult::error(error("a")) != AutotuneResult::success(3u32));
}

#[test]
fn only_the_fastest_index_is_read_back() {
    let key = PersistentCacheKey { key: "operation".to_string(), checksum: "sum".to_string() };
    let value: PersistentCacheValue<u32, u32> = PersistentCacheValue {
        fastest_index: 4,
        results: Vec::new(),
        bounds: None,
        limit: None,
    };
    let read = stored_entry(key, &value);
    assert_eq!(read.key, "operation");
    assert_eq!(read.checksum, "sum");
    assert_eq!(read.fastest_index, 4);
}

#[test]
fn test_cube_tune_id_display() {
    let id = CubeTuneId::new(
        DeviceId::new(1, 2),
        "test",
        "3.4.5",
        HardwareProperties {
            load_width: 256,
            plane_size_min: 32,
            plane_size_max: 32,
            max_bindings: 8,
            max_shared_memory_size: 128,
            max_cube_count: (1, 2, 3),
            max_units_per_cube: 1024,
            max_cube_dim: (4, 5, 6),
            num_streaming_multiprocessors: Some(148),
            num_cpu_cores: None,
            num_tensor_cores: Some(4),
            min_tensor_cores_dim: Some(8),
            max_vector_size: 16,
            cube_mma_reserved_shared_memory: 64,
        },
    );

    assert_eq!(
        id.to_text(),
        "device-1-2-test-v3.4.5-lw256-p32-32-bind8-smem128-cc1x2x3-units1024-cd4x5x6-sms148-cpu0-tc4-tcd8-vec16-mma64",
    );
}
