//! The steps by which a kernel is compiled for a CUDA device and loaded.
//!
//! A kernel that the cache holds is loaded as it is. Any other is validated, turned into source,
//! compiled, stored in the cache and loaded.

use crate::cache_metrics::{
    record_compilation_cache_hit, record_compilation_cache_miss, record_compilation_cache_write,
    record_module_load, record_nvrtc_compilation, CacheCounters,
};
use crate::cuda_compile::{
    compilation_error_message, compile_options, validate_shared, CompiledKernel, CompiledSource,
    CubeDim, LaunchError, LoadedModules, PtxCacheEntry, PtxCacheKey,
};
use crate::cuda_install::{cccl_include_path, include_path, Platform};
use crate::duration::Duration;
use vstd::prelude::*;
use vstd::string::StringExecFns;

verus! {

use crate::cuda_compile::{compilation_message, exceeds_shared, options_spec};
use crate::cuda_install::{headers, joined};
use crate::duration::counted_nanos;
use crate::text::texts;

/// A kernel that is to be compiled, and what it is compiled for.
#[derive(Debug)]
pub struct CompileRequest {
    /// The number of the kernel, which no other kernel has.
    pub kernel_id: u64,
    /// The hash of the kernel, under which it is cached.
    pub kernel: u128,
    /// The number of units of a cube.
    pub cube_dim: CubeDim,
    /// Whether compiled kernels are cached.
    pub cached: bool,
    /// What else the compiled kernel depends on.
    pub fingerprint: String,
    /// Shared memory of the device, in bytes.
    pub max_shared: usize,
    /// The version of the architecture of the device.
    pub arch_version: u32,
    /// The architecture of the device.
    pub arch: String,
    /// The operating system.
    pub platform: Platform,
    /// Where CUDA is installed, if anywhere.
    pub installation: Option<String>,
    /// Whether the CCCL headers are installed.
    pub cccl_exists: bool,
}

/// What is done next for the kernel.
#[derive(Debug)]
pub enum CompilePhase {
    /// Look for it in the cache.
    Start,
    /// It is looked for in the cache.
    Cache,
    /// It is validated.
    Validate,
    /// It is turned into source.
    Compile,
    /// It is compiled.
    Nvrtc {
        /// The entry point.
        entrypoint_name: String,
        /// The number of units of a cube.
        cube_dim: CubeDim,
        /// Shared memory that a launch reserves, where the representation is known.
        reserved: Option<usize>,
    },
    /// It is stored in the cache.
    Store {
        /// The entry point.
        entrypoint_name: String,
        /// The number of units of a cube.
        cube_dim: CubeDim,
        /// Shared memory that a launch reserves.
        shared_mem_bytes: usize,
        /// The compiled kernel.
        ptx: Vec<i8>,
    },
    /// It is loaded.
    Load {
        /// The number of units of a cube.
        cube_dim: CubeDim,
        /// Shared memory that a launch reserves.
        shared_mem_bytes: usize,
    },
    /// Nothing: it is loaded, or was refused.
    Over,
}

/// What came of compiling a source.
#[derive(Debug)]
pub enum NvrtcOutcome {
    /// It was compiled, in some time.
    Ptx {
        /// The compiled kernel.
        ptx: Vec<i8>,
        /// The time it took.
        duration: Duration,
    },
    /// It does not compile.
    Rejected {
        /// What the compiler logged.
        log: String,
        /// The source, made once more for the report.
        source: Result<String, LaunchError>,
    },
    /// The compiler could not be run, or did not hand out its result.
    Failed(String),
}

/// What came of loading a compiled kernel.
#[derive(Debug)]
pub enum LoadOutcome {
    /// It was loaded, in some time.
    Loaded {
        /// Its function in the loaded module.
        func: u64,
        /// The time it took.
        duration: Duration,
    },
    /// The module was refused.
    ModuleFailed(String),
    /// The module lacks the function.
    FunctionFailed(String),
}

/// What happened since the last step.
#[derive(Debug)]
pub enum CompileEvent {
    /// Nothing yet.
    Begin,
    /// The cache was asked.
    CacheEntry(Option<PtxCacheEntry>),
    /// The kernel was validated, or refused.
    Validated(Option<LaunchError>),
    /// The kernel was turned into source, or not.
    Source(Result<CompiledSource, LaunchError>),
    /// The source was compiled, or not.
    Nvrtc(NvrtcOutcome),
    /// The compiled kernel was stored, or not.
    Stored(bool),
    /// The compiled kernel was loaded, or not.
    Loaded(LoadOutcome),
}

/// What is to be done for the kernel.
#[derive(Debug)]
pub enum CompileAction {
    /// Ask the cache.
    LookUp(PtxCacheKey),
    /// Validate the dimensions of the kernel.
    Validate,
    /// Turn the kernel into source.
    Compile,
    /// Compile a source.
    RunNvrtc {
        /// The source.
        source: String,
        /// The options.
        options: Vec<String>,
    },
    /// Store a compiled kernel.
    Store(PtxCacheKey, PtxCacheEntry),
    /// Load a compiled kernel.
    Load {
        /// The compiled kernel.
        ptx: Vec<i8>,
        /// The entry point.
        entrypoint_name: String,
    },
    /// Panic: CUDA is not installed.
    MissingInstallation,
    /// Panic: the kernel has no representation.
    MissingRepresentation,
    /// The kernel is loaded, or cannot be launched.
    Done(Result<(), LaunchError>),
    /// The event does not belong here.
    Unexpected,
}

/// A kernel on its way to the device.
#[derive(Debug)]
pub struct KernelCompilation {
    /// The kernel, and what it is compiled for.
    pub request: CompileRequest,
    /// What is done next.
    pub phase: CompilePhase,
}

/// A key is that of the request.
pub open spec fn is_key(key: PtxCacheKey, request: CompileRequest) -> bool {
    key.fingerprint@ == request.fingerprint@ && key.kernel == request.kernel
}

/// The counters after a hit.
pub open spec fn counted_hit(c: CacheCounters) -> CacheCounters {
    CacheCounters { compilation_cache_hits: c.compilation_cache_hits.wrapping_add(1), ..c }
}

/// The counters after a miss.
pub open spec fn counted_miss(c: CacheCounters) -> CacheCounters {
    CacheCounters { compilation_cache_misses: c.compilation_cache_misses.wrapping_add(1), ..c }
}

/// The counters after a kernel was stored.
pub open spec fn counted_write(c: CacheCounters) -> CacheCounters {
    CacheCounters { compilation_cache_writes: c.compilation_cache_writes.wrapping_add(1), ..c }
}

/// The counters after a source was compiled.
pub open spec fn counted_nvrtc(c: CacheCounters, duration: Duration) -> CacheCounters {
    CacheCounters {
        nvrtc_compilations: c.nvrtc_compilations.wrapping_add(1),
        nvrtc_compilation_nanos: c.nvrtc_compilation_nanos.wrapping_add(counted_nanos(duration)),
        ..c
    }
}

/// The counters after a kernel was loaded.
pub open spec fn counted_load(c: CacheCounters, duration: Duration) -> CacheCounters {
    CacheCounters {
        module_loads: c.module_loads.wrapping_add(1),
        module_load_nanos: c.module_load_nanos.wrapping_add(counted_nanos(duration)),
        ..c
    }
}

/// The kernel is refused, because of an error.
pub open spec fn refused(phase: CompilePhase, action: CompileAction, error: LaunchError) -> bool {
    phase is Over && action == CompileAction::Done(Err(error))
}

/// The kernel is refused, because it cannot be compiled or loaded.
pub open spec fn refused_with(
    phase: CompilePhase,
    action: CompileAction,
    reason: Seq<char>,
) -> bool {
    &&& phase is Over
    &&& action matches CompileAction::Done(Err(LaunchError::Compilation(text))) && text@ == reason
}

/// The step after the source of a kernel was made.
pub open spec fn after_source(
    request: CompileRequest,
    source: CompiledSource,
    phase: CompilePhase,
    action: CompileAction,
) -> bool {
    if exceeds_shared(source.shared_mem_bytes, request.max_shared) {
        refused(
            phase,
            action,
            LaunchError::SharedMemory {
                requested: source.shared_mem_bytes->0,
                max: request.max_shared,
            },
        )
    } else {
        match request.installation {
            None => phase is Over && action is MissingInstallation,
            Some(installation) => {
                &&& phase == (CompilePhase::Nvrtc {
                    entrypoint_name: source.entrypoint_name,
                    cube_dim: source.cube_dim,
                    reserved: source.shared_mem_bytes,
                })
                &&& action matches CompileAction::RunNvrtc { source: text, options }
                &&& text == (match source.formatted {
                    Some(formatted) => formatted,
                    None => source.source,
                })
                &&& texts(options@) == options_spec(
                    request.arch_version,
                    request.arch@,
                    headers(installation@, request.platform),
                    joined(headers(installation@, request.platform), "cccl"@, request.platform),
                    request.cccl_exists,
                )
            },
        }
    }
}

/// The step after a source was handed to the compiler.
pub open spec fn after_nvrtc(
    request: CompileRequest,
    before: CompilePhase,
    outcome: NvrtcOutcome,
    phase: CompilePhase,
    action: CompileAction,
) -> bool {
    match outcome {
        NvrtcOutcome::Failed(text) => refused_with(phase, action, text@),
        NvrtcOutcome::Rejected { log, source } => match source {
            Err(error) => refused(phase, action, error),
            Ok(source) => refused_with(phase, action, compilation_message(log@, source@)),
        },
        NvrtcOutcome::Ptx { ptx, duration } => match before->Nvrtc_reserved {
            None => phase is Over && action is MissingRepresentation,
            Some(shared) => if request.cached {
                &&& phase == (CompilePhase::Store {
                    entrypoint_name: before->Nvrtc_entrypoint_name,
                    cube_dim: before->Nvrtc_cube_dim,
                    shared_mem_bytes: shared,
                    ptx,
                })
                &&& action matches CompileAction::Store(key, entry)
                &&& is_key(key, request)
                &&& entry.entrypoint_name@ == before->Nvrtc_entrypoint_name@
                &&& entry.shared_mem_bytes == shared
                &&& entry.ptx@ == ptx@
            } else {
                &&& phase == (CompilePhase::Load {
                    cube_dim: before->Nvrtc_cube_dim,
                    shared_mem_bytes: shared,
                })
                &&& action == (CompileAction::Load {
                    ptx,
                    entrypoint_name: before->Nvrtc_entrypoint_name,
                })
            },
        },
    }
}

/// The counters after a step.
pub open spec fn compile_counted(
    c: CacheCounters,
    phase: CompilePhase,
    event: CompileEvent,
) -> CacheCounters {
    match (phase, event) {
        (CompilePhase::Cache, CompileEvent::CacheEntry(Some(_))) => counted_hit(c),
        (CompilePhase::Cache, CompileEvent::CacheEntry(None)) => counted_miss(c),
        (
            CompilePhase::Nvrtc { .. },
            CompileEvent::Nvrtc(NvrtcOutcome::Ptx { ptx, duration }),
        ) => counted_nvrtc(c, duration),
        (CompilePhase::Store { .. }, CompileEvent::Stored(true)) => counted_write(c),
        (
            CompilePhase::Load { .. },
            CompileEvent::Loaded(LoadOutcome::Loaded { func, duration }),
        ) => counted_load(c, duration),
        _ => c,
    }
}

/// The loaded kernels after a step.
pub open spec fn compile_loaded(
    modules: Map<u64, CompiledKernel>,
    compilation: KernelCompilation,
    event: CompileEvent,
) -> Map<u64, CompiledKernel> {
    match (compilation.phase, event) {
        (
            CompilePhase::Load { cube_dim, shared_mem_bytes },
            CompileEvent::Loaded(LoadOutcome::Loaded { func, duration }),
        ) => modules.insert(
            compilation.request.kernel_id,
            CompiledKernel { cube_dim, shared_mem_bytes, func },
        ),
        _ => modules,
    }
}

/// What a step does next for a kernel, and asks for.
pub open spec fn compile_step(
    compilation: KernelCompilation,
    event: CompileEvent,
    phase: CompilePhase,
    action: CompileAction,
) -> bool {
    let request = compilation.request;
    match (compilation.phase, event) {
        (CompilePhase::Start, CompileEvent::Begin) => if request.cached {
            phase is Cache && (action matches CompileAction::LookUp(key) && is_key(key, request))
        } else {
            phase is Validate && action is Validate
        },
        (CompilePhase::Cache, CompileEvent::CacheEntry(Some(entry))) => {
            &&& phase == (CompilePhase::Load {
                cube_dim: request.cube_dim,
                shared_mem_bytes: entry.shared_mem_bytes,
            })
            &&& action == (CompileAction::Load {
                ptx: entry.ptx,
                entrypoint_name: entry.entrypoint_name,
            })
        },
        (CompilePhase::Cache, CompileEvent::CacheEntry(None)) => phase is Validate
            && action is Validate,
        (CompilePhase::Validate, CompileEvent::Validated(Some(error))) => refused(
            phase,
            action,
            error,
        ),
        (CompilePhase::Validate, CompileEvent::Validated(None)) => phase is Compile
            && action is Compile,
        (CompilePhase::Compile, CompileEvent::Source(Err(error))) => refused(phase, action, error),
        (CompilePhase::Compile, CompileEvent::Source(Ok(source))) => after_source(
            request,
            source,
            phase,
            action,
        ),
        (CompilePhase::Nvrtc { .. }, CompileEvent::Nvrtc(outcome)) => after_nvrtc(
            request,
            compilation.phase,
            outcome,
            phase,
            action,
        ),
        (
            CompilePhase::Store { entrypoint_name, cube_dim, shared_mem_bytes, ptx },
            CompileEvent::Stored(_),
        ) => {
            &&& phase == (CompilePhase::Load { cube_dim, shared_mem_bytes })
            &&& action == (CompileAction::Load { ptx, entrypoint_name })
        },
        (CompilePhase::Load { .. }, CompileEvent::Loaded(LoadOutcome::Loaded { .. })) => {
            phase is Over && action == CompileAction::Done(Ok(()))
        },
        (CompilePhase::Load { .. }, CompileEvent::Loaded(LoadOutcome::ModuleFailed(text))) =>
        refused_with(phase, action, "Unable to load the PTX: "@ + text@),
        (CompilePhase::Load { .. }, CompileEvent::Loaded(LoadOutcome::FunctionFailed(text))) =>
        refused_with(phase, action, "Unable to fetch the function from the module: "@ + text@),
        _ => phase == compilation.phase && action is Unexpected,
    }
}

impl KernelCompilation {
    /// Starts to compile a kernel.
    pub fn compile_kernel(request: CompileRequest) -> (compilation: Self)
        ensures
            compilation.request == request,
            compilation.phase is Start,
    {
        KernelCompilation { request, phase: CompilePhase::Start }
    }

    fn key(&self) -> (key: PtxCacheKey)
        ensures
            is_key(key, self.request),
    {
        PtxCacheKey { fingerprint: self.request.fingerprint.clone(), kernel: self.request.kernel }
    }

    /// Takes one step.
    pub fn step(
        &mut self,
        event: CompileEvent,
        counters: &mut CacheCounters,
        modules: &mut LoadedModules,
    ) -> (action: CompileAction)
        ensures
            final(self).request == old(self).request,
            compile_step(*old(self), event, final(self).phase, action),
            *final(counters) == compile_counted(*old(counters), old(self).phase, event),
            final(modules)@ == compile_loaded(old(modules)@, *old(self), event),
    {
        let mut phase = CompilePhase::Over;
        core::mem::swap(&mut phase, &mut self.phase);
        match (phase, event) {
            (CompilePhase::Start, CompileEvent::Begin) => {
                if self.request.cached {
                    self.phase = CompilePhase::Cache;
                    CompileAction::LookUp(self.key())
                } else {
                    self.phase = CompilePhase::Validate;
                    CompileAction::Validate
                }
            },
            (CompilePhase::Cache, CompileEvent::CacheEntry(Some(entry))) => {
                record_compilation_cache_hit(counters);
                self.phase = CompilePhase::Load {
                    cube_dim: self.request.cube_dim,
                    shared_mem_bytes: entry.shared_mem_bytes,
                };
                CompileAction::Load { ptx: entry.ptx, entrypoint_name: entry.entrypoint_name }
            },
            (CompilePhase::Cache, CompileEvent::CacheEntry(None)) => {
                record_compilation_cache_miss(counters);
                self.phase = CompilePhase::Validate;
                CompileAction::Validate
            },
            (CompilePhase::Validate, CompileEvent::Validated(Some(error))) => CompileAction::Done(
                Err(error),
            ),
            (CompilePhase::Validate, CompileEvent::Validated(None)) => {
                self.phase = CompilePhase::Compile;
                CompileAction::Compile
            },
            (CompilePhase::Compile, CompileEvent::Source(Err(error))) => CompileAction::Done(
                Err(error),
            ),
            (CompilePhase::Compile, CompileEvent::Source(Ok(source))) => self.run_nvrtc(source),
            (
                CompilePhase::Nvrtc { entrypoint_name, cube_dim, reserved },
                CompileEvent::Nvrtc(outcome),
            ) => match outcome {
                NvrtcOutcome::Failed(text) => CompileAction::Done(
                    Err(LaunchError::Compilation(text)),
                ),
                NvrtcOutcome::Rejected { log, source } => match source {
                    Err(error) => CompileAction::Done(Err(error)),
                    Ok(source) => CompileAction::Done(
                        Err(
                            LaunchError::Compilation(
                                compilation_error_message(log.as_str(), source.as_str()),
                            ),
                        ),
                    ),
                },
                NvrtcOutcome::Ptx { ptx, duration } => {
                    record_nvrtc_compilation(counters, duration);
                    self.keep(entrypoint_name, cube_dim, reserved, ptx)
                },
            },
            (
                CompilePhase::Store { entrypoint_name, cube_dim, shared_mem_bytes, ptx },
                CompileEvent::Stored(stored),
            ) => {
                if stored {
                    record_compilation_cache_write(counters);
                }
                self.phase = CompilePhase::Load { cube_dim, shared_mem_bytes };
                CompileAction::Load { ptx, entrypoint_name }
            },
            (
                CompilePhase::Load { cube_dim, shared_mem_bytes },
                CompileEvent::Loaded(outcome),
            ) => match outcome {
                LoadOutcome::Loaded { func, duration } => {
                    record_module_load(counters, duration);
                    modules.insert(
                        self.request.kernel_id,
                        CompiledKernel { cube_dim, shared_mem_bytes, func },
                    );
                    CompileAction::Done(Ok(()))
                },
                LoadOutcome::ModuleFailed(text) => {
                    let mut reason = String::from_str("Unable to load the PTX: ");
                    reason.append(text.as_str());
                    CompileAction::Done(Err(LaunchError::Compilation(reason)))
                },
                LoadOutcome::FunctionFailed(text) => {
                    let mut reason = String::from_str(
                        "Unable to fetch the function from the module: ",
                    );
                    reason.append(text.as_str());
                    CompileAction::Done(Err(LaunchError::Compilation(reason)))
                },
            },
            (phase, _) => {
                self.phase = phase;
                CompileAction::Unexpected
            },
        }
    }

    /// Hands the source of a kernel to the compiler, unless the device lacks the shared memory.
    fn run_nvrtc(&mut self, source: CompiledSource) -> (action: CompileAction)
        requires
            old(self).phase is Over,
        ensures
            final(self).request == old(self).request,
            after_source(old(self).request, source, final(self).phase, action),
    {
        match validate_shared(source.shared_mem_bytes, self.request.max_shared) {
            Err(error) => {
                return CompileAction::Done(Err(error));
            },
            Ok(()) => {},
        }
        let options = match &self.request.installation {
            None => {
                return CompileAction::MissingInstallation;
            },
            Some(installation) => {
                let platform = self.request.platform;
                let headers = include_path(installation.as_str(), platform);
                let cccl_headers = cccl_include_path(installation.as_str(), platform);
                compile_options(
                    self.request.arch_version,
                    self.request.arch.as_str(),
                    headers.as_str(),
                    cccl_headers.as_str(),
                    self.request.cccl_exists,
                )
            },
        };
        self.phase = CompilePhase::Nvrtc {
            entrypoint_name: source.entrypoint_name,
            cube_dim: source.cube_dim,
            reserved: source.shared_mem_bytes,
        };
        let text = match source.formatted {
            Some(formatted) => formatted,
            None => source.source,
        };
        CompileAction::RunNvrtc { source: text, options }
    }

    /// Stores a compiled kernel where kernels are cached, and loads it.
    fn keep(
        &mut self,
        entrypoint_name: String,
        cube_dim: CubeDim,
        shared_mem_bytes: Option<usize>,
        ptx: Vec<i8>,
    ) -> (action: CompileAction)
        requires
            old(self).phase is Over,
        ensures
            final(self).request == old(self).request,
            match shared_mem_bytes {
                None => final(self).phase is Over && action is MissingRepresentation,
                Some(shared) => if old(self).request.cached {
                    &&& final(self).phase == (CompilePhase::Store {
                        entrypoint_name,
                        cube_dim,
                        shared_mem_bytes: shared,
                        ptx,
                    })
                    &&& action matches CompileAction::Store(key, entry)
                    &&& is_key(key, old(self).request)
                    &&& entry.entrypoint_name@ == entrypoint_name@
                    &&& entry.shared_mem_bytes == shared
                    &&& entry.ptx@ == ptx@
                } else {
                    &&& final(self).phase == (CompilePhase::Load {
                        cube_dim,
                        shared_mem_bytes: shared,
                    })
                    &&& action == (CompileAction::Load { ptx, entrypoint_name })
                },
            },
    {
        let shared: usize = match shared_mem_bytes {
            Some(shared) => shared,
            None => {
                return CompileAction::MissingRepresentation;
            },
        };
        if self.request.cached {
            let entry = PtxCacheEntry {
                entrypoint_name: entrypoint_name.clone(),
                shared_mem_bytes: shared,
                ptx: ptx.clone(),
            };
            assert(entry.ptx@ =~= ptx@);
            self.phase = CompilePhase::Store {
                entrypoint_name,
                cube_dim,
                shared_mem_bytes: shared,
                ptx,
            };
            CompileAction::Store(self.key(), entry)
        } else {
            self.phase = CompilePhase::Load { cube_dim, shared_mem_bytes: shared };
            CompileAction::Load { ptx, entrypoint_name }
        }
    }
}

/// A kernel that the cache holds is loaded as it was stored, and nothing is compiled for it: it
/// counts as a hit and as neither a miss, a compilation nor a write.
pub proof fn law_hit_compiles_nothing(
    compilation: KernelCompilation,
    entry: PtxCacheEntry,
    phase: CompilePhase,
    action: CompileAction,
    c: CacheCounters,
)
    requires
        compilation.phase is Cache,
        compile_step(compilation, CompileEvent::CacheEntry(Some(entry)), phase, action),
    ensures
        action == (CompileAction::Load { ptx: entry.ptx, entrypoint_name: entry.entrypoint_name }),
        phase is Load,
        ({
            let after = compile_counted(
                c,
                compilation.phase,
                CompileEvent::CacheEntry(Some(entry)),
            );
            &&& after.compilation_cache_hits == c.compilation_cache_hits.wrapping_add(1)
            &&& after.compilation_cache_misses == c.compilation_cache_misses
            &&& after.nvrtc_compilations == c.nvrtc_compilations
            &&& after.compilation_cache_writes == c.compilation_cache_writes
        }),
{
}

/// What is stored in the cache is what is loaded next; so loading it from the cache later gives
/// the same kernel.
pub proof fn law_stored_is_loaded(
    compilation: KernelCompilation,
    outcome: NvrtcOutcome,
    stored: bool,
    store: CompilePhase,
    first: CompileAction,
    load: CompilePhase,
    second: CompileAction,
)
    requires
        compilation.phase is Nvrtc,
        compile_step(compilation, CompileEvent::Nvrtc(outcome), store, first),
        first is Store,
        compile_step(
            KernelCompilation { phase: store, ..compilation },
            CompileEvent::Stored(stored),
            load,
            second,
        ),
    ensures
        first matches CompileAction::Store(key, entry) ==> {
            &&& second matches CompileAction::Load { ptx, entrypoint_name }
            &&& ptx@ == entry.ptx@
            &&& entrypoint_name@ == entry.entrypoint_name@
            &&& load == (CompilePhase::Load {
                cube_dim: compilation.phase->Nvrtc_cube_dim,
                shared_mem_bytes: entry.shared_mem_bytes,
            })
        },
{
}

/// A kernel that was refused is not loaded, and one that is over stays as it is.
pub proof fn law_refused_is_not_loaded(
    compilation: KernelCompilation,
    event: CompileEvent,
    phase: CompilePhase,
    action: CompileAction,
    modules: Map<u64, CompiledKernel>,
)
    requires
        compile_step(compilation, event, phase, action),
    ensures
        action matches CompileAction::Done(Err(_)) ==> compile_loaded(
            modules,
            compilation,
            event,
        ) == modules,
        action == CompileAction::Done(Ok(())) ==> compile_loaded(
            modules,
            compilation,
            event,
        ).contains_key(compilation.request.kernel_id),
        compilation.phase is Over ==> phase is Over && action is Unexpected,
{
}

/// Loading a kernel leaves every other kernel loaded as it was, also one with the same hash.
pub proof fn law_kernels_are_apart(
    compilation: KernelCompilation,
    event: CompileEvent,
    modules: Map<u64, CompiledKernel>,
    other: u64,
)
    requires
        other != compilation.request.kernel_id,
    ensures
        ({
            let after = compile_loaded(modules, compilation, event);
            &&& after.contains_key(other) == modules.contains_key(other)
            &&& modules.contains_key(other) ==> after[other] == modules[other]
        }),
{
}

} // verus!
