use cubecl::cuda_compile::{
    compilation_error_message, compile_options, launch_result, nvrtc_version,
    ptx_cache_fingerprint, validate_shared, CompiledKernel, CompiledSource, CubeDim,
    DeviceFingerprint, LaunchError, LoadedModules, PtxCacheEntry,
};
use cubecl::cuda_backend::{
    BackendRequest, CompilationOptions, ComputeKernel, CudaBackend, CudaCompilationOptions,
    CudaCompiler, CudaRepresentation, NvptxModule, PlironOptions, PtxVersion,
};
use cubecl::cuda_install::{cccl_include_path, cuda_path, include_path, CudaPlaces, Platform};
use cubecl::kernel_compilation::{
    CompileAction, CompileEvent, CompileRequest, KernelCompilation, LoadOutcome, NvrtcOutcome,
};
use cubecl::{CacheCounters, Duration};

const NOWHERE: CudaPlaces =
    CudaPlaces { usr_local_cuda: false, opt_cuda: false, usr_bin_nvcc: false };

#[test]
fn the_environment_says_where_cuda_is() {
    let everywhere = CudaPlaces { usr_local_cuda: true, opt_cuda: true, usr_bin_nvcc: true };
    for platform in [Platform::Linux, Platform::Windows, Platform::Other] {
        assert_eq!(
            cuda_path(Some("/my/cuda".to_string()), platform, everywhere),
            Some("/my/cuda".to_string())
        );
    }
}

#[test]
fn known_places_are_tried_in_turn() {
    let path = |places| cuda_path(None, Platform::Linux, places);
    let mut places = CudaPlaces { usr_local_cuda: true, opt_cuda: true, usr_bin_nvcc: true };
    assert_eq!(path(places), Some("/usr/local/cuda".to_string()));
    places.usr_local_cuda = false;
    assert_eq!(path(places), Some("/opt/cuda".to_string()));
    places.opt_cuda = false;
    assert_eq!(path(places), Some("/usr".to_string()));
    assert_eq!(path(NOWHERE), None);
    assert_eq!(
        cuda_path(None, Platform::Windows, NOWHERE),
        Some("C:/Program Files/NVIDIA GPU Computing Toolkit/CUDA/".to_string())
    );
    assert_eq!(cuda_path(None, Platform::Other, NOWHERE), None);
}

#[test]
fn headers_lie_below_the_installation() {
    assert_eq!(include_path("/opt/cuda", Platform::Linux), "/opt/cuda/include");
    assert_eq!(include_path("C:/CUDA/", Platform::Windows), "C:/CUDA/include");
    assert_eq!(include_path("C:\\CUDA\\", Platform::Windows), "C:\\CUDA\\include");
    assert_eq!(include_path("C:", Platform::Windows), "C:include");
    assert_eq!(include_path("/opt/a\\", Platform::Linux), "/opt/a\\/include");
    assert_eq!(cccl_include_path("/opt/cuda", Platform::Linux), "/opt/cuda/include/cccl");
    assert_eq!(cccl_include_path("C:/CUDA/", Platform::Windows), "C:/CUDA/include\\cccl");
    assert_eq!(cccl_include_path("C:/CUDA", Platform::Windows), "C:/CUDA\\include\\cccl");
    assert_eq!(
        cccl_include_path("\\\\?\\C:\\a\\\\b\\", Platform::Windows),
        "\\\\?\\C:\\a\\b\\include\\cccl"
    );
    assert_eq!(
        include_path("\\\\?\\C:\\a\\.\\x\\..\\b", Platform::Windows),
        "\\\\?\\C:\\a\\b\\include"
    );
    assert_eq!(include_path("\\\\?\\C:", Platform::Windows), "\\\\?\\C:\\include");
    assert_eq!(include_path("\\\\a\\b", Platform::Windows), "\\\\a\\b\\include");
}

#[test]
fn kernels_are_handed_to_the_compiler_as_source() {
    assert_eq!(CudaBackend::default(), CudaBackend::Cpp);
    assert_eq!(PtxVersion::for_driver(12080), None);
    assert_eq!(PtxVersion.to_text(), "none");
    assert_eq!(CudaBackend::for_features(true, false), CudaBackend::Llvm);
    assert_eq!(CudaBackend::for_features(true, true), CudaBackend::Cpp);
    assert_eq!(CudaBackend::for_features(false, false), CudaBackend::Cpp);
    assert_eq!(CudaCompiler::default(), CudaCompiler::Cpp);
    assert_eq!(CudaCompiler::new(CudaBackend::Llvm), CudaCompiler::Llvm);
    assert_eq!(CudaCompiler::Cpp.extension("cu"), "cu");
    assert_eq!(CudaCompiler::Llvm.extension("cu"), "ll");
    assert_eq!(CudaCompiler::Cpp.lang_tag("cpp", "llvm"), "cpp");
    assert_eq!(CudaCompiler::Llvm.lang_tag("cpp", "llvm"), "llvm");
}

#[test]
fn both_backends_read_the_same_options() {
    let options = CudaCompilationOptions {
        cpp: CompilationOptions { grid_constants: true },
        arch: Some(90),
        ptx_version: None,
    };
    assert_eq!(
        CudaCompiler::Cpp.compile(&options),
        BackendRequest::Cpp(CompilationOptions { grid_constants: true })
    );
    assert_eq!(
        CudaCompiler::Llvm.compile(&options),
        BackendRequest::Llvm(PlironOptions {
            sm_arch: Some(90),
            ptx_version: None,
            grid_constants: true,
        })
    );
}

#[test]
fn a_representation_tells_what_a_launch_reads() {
    let kernel = ComputeKernel { source: "src".to_string(), shared_memory_size: 4, io: None };
    let cpp: CudaRepresentation<u8> = CudaRepresentation::Cpp(kernel);
    assert_eq!(cpp.shared_memory_size(), 4);
    assert_eq!(cpp.text(), "src");
    assert_eq!(cpp.buffer_io(), None);
    let module = NvptxModule { ir: "ir".to_string(), shared_memory_size: 5, io: vec![1u8, 2] };
    let llvm = CudaRepresentation::Llvm(module);
    assert_eq!(llvm.shared_memory_size(), 5);
    assert_eq!(llvm.text(), "ir");
    assert_eq!(llvm.buffer_io(), Some(&vec![1, 2]));
}

#[test]
fn options_depend_on_the_architecture() {
    assert_eq!(
        compile_options(89, "89", "/i", "/i/cccl", false),
        vec!["--gpu-architecture=sm_89", "--include-path=/i", "-lineinfo"]
    );
    assert_eq!(
        compile_options(90, "90", "/i", "/i/cccl", true),
        vec![
            "--gpu-architecture=sm_90a",
            "--include-path=/i",
            "-lineinfo",
            "--include-path=/i/cccl",
        ]
    );
}

#[test]
fn shared_memory_is_limited() {
    assert!(validate_shared(None, 0).is_ok());
    assert!(validate_shared(Some(48), 48).is_ok());
    assert!(matches!(
        validate_shared(Some(49), 48),
        Err(LaunchError::SharedMemory { requested: 49, max: 48 })
    ));
}

#[test]
fn compiler_log_is_indented_before_the_source() {
    assert_eq!(
        compilation_error_message("first\n\nsecond\n", "void f() {}"),
        "[Compilation Error] \n    first\n    second\n[Source]  \nvoid f() {}"
    );
    assert_eq!(
        compilation_error_message("", "x"),
        "[Compilation Error] \n[Source]  \nx"
    );
}

#[test]
fn fingerprint_names_what_a_compiled_kernel_depends_on() {
    let mut parts = DeviceFingerprint {
        namespace: None,
        cuda_header: 12080,
        driver_version: 12090,
        nvrtc_version: Some((12, 8)),
        arch: "CudaArchitecture { version: 90 }".to_string(),
        device_name: Some("GPU".to_string()),
        device_uuid: Some(vec![0x00, 0x0f, 0xff]),
        options: "Options".to_string(),
        check_mode: "Auto".to_string(),
    };
    assert_eq!(
        ptx_cache_fingerprint(&parts, "0.1.0"),
        "schema=1;namespace=cubecl-cuda-0.1.0;cuda_header=12080;driver=12090;nvrtc=12.8;\
         arch=CudaArchitecture { version: 90 };device_name=GPU;device_uuid=000fff;\
         options=Options;check_mode=Auto"
    );
    parts.namespace = Some("mine".to_string());
    parts.nvrtc_version = None;
    parts.device_name = None;
    parts.device_uuid = None;
    parts.driver_version = -1;
    assert_eq!(
        ptx_cache_fingerprint(&parts, "0.1.0"),
        "schema=1;namespace=mine;cuda_header=12080;driver=-1;nvrtc=unknown;\
         arch=CudaArchitecture { version: 90 };device_name=unknown;device_uuid=unknown;\
         options=Options;check_mode=Auto"
    );
    assert_eq!(nvrtc_version(Some((-1, i32::MIN))), "-1.-2147483648");
}

const CUBE: CubeDim = CubeDim { x: 4, y: 2, z: 1 };
const OTHER_CUBE: CubeDim = CubeDim { x: 8, y: 1, z: 1 };

fn request(cached: bool) -> CompileRequest {
    CompileRequest {
        kernel_id: 5,
        kernel: 77,
        cube_dim: CUBE,
        cached,
        fingerprint: "print".to_string(),
        max_shared: 100,
        arch_version: 89,
        arch: "89".to_string(),
        platform: Platform::Linux,
        installation: Some("/opt/cuda".to_string()),
        cccl_exists: false,
    }
}

fn source(shared: Option<usize>) -> CompiledSource {
    CompiledSource {
        source: "raw".to_string(),
        formatted: None,
        entrypoint_name: "entry".to_string(),
        cube_dim: OTHER_CUBE,
        shared_mem_bytes: shared,
    }
}

struct Bench {
    compilation: KernelCompilation,
    counters: CacheCounters,
    modules: LoadedModules,
}

impl Bench {
    fn new(request: CompileRequest) -> Self {
        Bench {
            compilation: KernelCompilation::compile_kernel(request),
            counters: CacheCounters::default(),
            modules: LoadedModules::new(),
        }
    }

    fn step(&mut self, event: CompileEvent) -> CompileAction {
        self.compilation.step(event, &mut self.counters, &mut self.modules)
    }

    /// Takes the steps up to the compiler, without a cache.
    fn up_to_nvrtc(request: CompileRequest, source: CompiledSource) -> (Self, CompileAction) {
        let mut bench = Bench::new(request);
        assert!(matches!(bench.step(CompileEvent::Begin), CompileAction::Validate));
        assert!(matches!(bench.step(CompileEvent::Validated(None)), CompileAction::Compile));
        let action = bench.step(CompileEvent::Source(Ok(source)));
        (bench, action)
    }
}

fn ptx() -> CompileEvent {
    CompileEvent::Nvrtc(NvrtcOutcome::Ptx { ptx: vec![1, 2, -3], duration: Duration::from_nanos(5) })
}

fn loaded() -> CompileEvent {
    CompileEvent::Loaded(LoadOutcome::Loaded { func: 9, duration: Duration::from_nanos(6) })
}

#[test]
fn a_cached_kernel_is_loaded_without_compiling() {
    let mut bench = Bench::new(request(true));
    match bench.step(CompileEvent::Begin) {
        CompileAction::LookUp(key) => {
            assert_eq!(key.kernel, 77);
            assert_eq!(key.fingerprint, "print");
        }
        other => panic!("{other:?}"),
    }
    let entry = PtxCacheEntry {
        entrypoint_name: "cached".to_string(),
        shared_mem_bytes: 12,
        ptx: vec![4, 5],
    };
    match bench.step(CompileEvent::CacheEntry(Some(entry))) {
        CompileAction::Load { ptx, entrypoint_name } => {
            assert_eq!(ptx, vec![4, 5]);
            assert_eq!(entrypoint_name, "cached");
        }
        other => panic!("{other:?}"),
    }
    assert!(matches!(bench.step(loaded()), CompileAction::Done(Ok(()))));
    assert_eq!(
        bench.modules.get(5),
        Some(CompiledKernel { cube_dim: CUBE, shared_mem_bytes: 12, func: 9 })
    );
    assert_eq!(
        bench.counters,
        CacheCounters {
            compilation_cache_hits: 1,
            module_loads: 1,
            module_load_nanos: 6,
            ..CacheCounters::default()
        }
    );
}

#[test]
fn a_missing_kernel_is_compiled_stored_and_loaded() {
    let mut bench = Bench::new(request(true));
    bench.step(CompileEvent::Begin);
    assert!(matches!(bench.step(CompileEvent::CacheEntry(None)), CompileAction::Validate));
    assert!(matches!(bench.step(CompileEvent::Validated(None)), CompileAction::Compile));
    match bench.step(CompileEvent::Source(Ok(source(Some(100))))) {
        CompileAction::RunNvrtc { source, options } => {
            assert_eq!(source, "raw");
            assert_eq!(
                options,
                vec![
                    "--gpu-architecture=sm_89",
                    "--include-path=/opt/cuda/include",
                    "-lineinfo",
                ]
            );
        }
        other => panic!("{other:?}"),
    }
    match bench.step(ptx()) {
        CompileAction::Store(key, entry) => {
            assert_eq!(key.kernel, 77);
            assert_eq!(key.fingerprint, "print");
            assert_eq!(entry.entrypoint_name, "entry");
            assert_eq!(entry.shared_mem_bytes, 100);
            assert_eq!(entry.ptx, vec![1, 2, -3]);
        }
        other => panic!("{other:?}"),
    }
    match bench.step(CompileEvent::Stored(true)) {
        CompileAction::Load { ptx, entrypoint_name } => {
            assert_eq!(ptx, vec![1, 2, -3]);
            assert_eq!(entrypoint_name, "entry");
        }
        other => panic!("{other:?}"),
    }
    assert!(matches!(bench.step(loaded()), CompileAction::Done(Ok(()))));
    assert_eq!(
        bench.modules.get(5),
        Some(CompiledKernel { cube_dim: OTHER_CUBE, shared_mem_bytes: 100, func: 9 })
    );
    assert_eq!(
        bench.counters,
        CacheCounters {
            compilation_cache_misses: 1,
            compilation_cache_writes: 1,
            nvrtc_compilations: 1,
            nvrtc_compilation_nanos: 5,
            module_loads: 1,
            module_load_nanos: 6,
            ..CacheCounters::default()
        }
    );
    assert!(matches!(bench.step(loaded()), CompileAction::Unexpected));
}

#[test]
fn without_a_cache_nothing_is_counted_for_it() {
    let mut formatted = source(Some(0));
    formatted.formatted = Some("tidy".to_string());
    let (mut bench, action) = Bench::up_to_nvrtc(request(false), formatted);
    match action {
        CompileAction::RunNvrtc { source, .. } => assert_eq!(source, "tidy"),
        other => panic!("{other:?}"),
    }
    assert!(matches!(bench.step(ptx()), CompileAction::Load { .. }));
    assert!(matches!(bench.step(loaded()), CompileAction::Done(Ok(()))));
    assert_eq!(bench.counters.compilation_cache_misses, 0);
    assert_eq!(bench.counters.compilation_cache_writes, 0);
}

#[test]
fn a_kernel_that_could_not_be_stored_is_loaded_all_the_same() {
    let mut bench = Bench::new(request(true));
    bench.step(CompileEvent::Begin);
    bench.step(CompileEvent::CacheEntry(None));
    bench.step(CompileEvent::Validated(None));
    bench.step(CompileEvent::Source(Ok(source(Some(1)))));
    assert!(matches!(bench.step(ptx()), CompileAction::Store(..)));
    assert!(matches!(bench.step(CompileEvent::Stored(false)), CompileAction::Load { .. }));
    assert_eq!(bench.counters.compilation_cache_writes, 0);
}

fn refused(action: CompileAction) -> String {
    match action {
        CompileAction::Done(Err(LaunchError::Compilation(reason))) => reason,
        other => panic!("{other:?}"),
    }
}

#[test]
fn every_failure_refuses_the_kernel() {
    let mut bench = Bench::new(request(false));
    bench.step(CompileEvent::Begin);
    let limit = LaunchError::Limit("cube".to_string());
    assert!(matches!(
        bench.step(CompileEvent::Validated(Some(limit))),
        CompileAction::Done(Err(LaunchError::Limit(_)))
    ));

    let mut bench = Bench::new(request(false));
    bench.step(CompileEvent::Begin);
    bench.step(CompileEvent::Validated(None));
    let failed = LaunchError::Compilation("no source".to_string());
    assert_eq!(refused(bench.step(CompileEvent::Source(Err(failed)))), "no source");

    let (_, action) = Bench::up_to_nvrtc(request(false), source(Some(101)));
    assert!(matches!(
        action,
        CompileAction::Done(Err(LaunchError::SharedMemory { requested: 101, max: 100 }))
    ));

    let mut homeless = request(false);
    homeless.installation = None;
    let (_, action) = Bench::up_to_nvrtc(homeless, source(None));
    assert!(matches!(action, CompileAction::MissingInstallation));

    let (mut bench, _) = Bench::up_to_nvrtc(request(false), source(None));
    assert!(matches!(bench.step(ptx()), CompileAction::MissingRepresentation));
    assert_eq!(bench.counters.nvrtc_compilations, 1);

    let (mut bench, _) = Bench::up_to_nvrtc(request(false), source(None));
    let outcome = NvrtcOutcome::Failed("no program".to_string());
    assert_eq!(refused(bench.step(CompileEvent::Nvrtc(outcome))), "no program");

    let (mut bench, _) = Bench::up_to_nvrtc(request(false), source(None));
    let outcome = NvrtcOutcome::Rejected { log: "bad".to_string(), source: Ok("src".to_string()) };
    assert_eq!(
        refused(bench.step(CompileEvent::Nvrtc(outcome))),
        "[Compilation Error] \n    bad\n[Source]  \nsrc"
    );

    let (mut bench, _) = Bench::up_to_nvrtc(request(false), source(Some(0)));
    bench.step(ptx());
    let outcome = LoadOutcome::ModuleFailed("invalid".to_string());
    assert_eq!(
        refused(bench.step(CompileEvent::Loaded(outcome))),
        "Unable to load the PTX: invalid"
    );
    assert_eq!(bench.modules.get(5), None);

    let (mut bench, _) = Bench::up_to_nvrtc(request(false), source(Some(0)));
    bench.step(ptx());
    let outcome = LoadOutcome::FunctionFailed("missing".to_string());
    assert_eq!(
        refused(bench.step(CompileEvent::Loaded(outcome))),
        "Unable to fetch the function from the module: missing"
    );
}

#[test]
fn a_launch_lists_its_arguments_in_order() {
    let (mut bench, _) = Bench::up_to_nvrtc(request(false), source(Some(64)));
    bench.step(ptx());
    bench.step(loaded());
    let plan = bench.modules.execute_task(5, (1, 2, 3), &vec![10], &vec![20, 21], Some(30));
    assert_eq!(plan.func, 9);
    assert_eq!(plan.grid, (1, 2, 3));
    assert_eq!(plan.block, (8, 1, 1));
    assert_eq!(plan.shared_mem_bytes, 64);
    assert_eq!(plan.max_dynamic_shared, 64);
    assert_eq!(plan.bindings, vec![10, 20, 21, 30]);
    let plan = bench.modules.execute_task(5, (1, 1, 1), &vec![], &vec![], None);
    assert!(plan.bindings.is_empty());
}

#[test]
fn kernels_with_one_hash_are_loaded_apart() {
    let (mut bench, _) = Bench::up_to_nvrtc(request(false), source(Some(64)));
    bench.step(ptx());
    bench.step(loaded());
    let first = bench.modules.get(5).unwrap();
    let mut other = request(false);
    other.kernel_id = 6;
    bench.compilation = KernelCompilation::compile_kernel(other);
    bench.step(CompileEvent::Begin);
    bench.step(CompileEvent::Validated(None));
    bench.step(CompileEvent::Source(Ok(source(Some(32)))));
    bench.step(ptx());
    bench.step(loaded());
    assert_eq!(bench.modules.get(5), Some(first));
    assert_eq!(bench.modules.get(6).unwrap().shared_mem_bytes, 32);
}

#[test]
fn the_driver_can_refuse_a_launch() {
    assert!(launch_result(None).is_ok());
    assert!(matches!(
        launch_result(Some("busy".to_string())),
        Err(LaunchError::Unknown(reason)) if reason == "busy"
    ));
}
