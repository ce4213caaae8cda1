//! Lifecycle, queueing and caching core of a GPU compute runtime.

pub mod backoff_laws;
pub mod barrier;
pub mod cache_metrics;
pub mod call_laws;
pub mod channel;
pub mod channel_laws;
pub mod channel_order;
pub mod channel_progress;
pub mod compile_laws;
pub mod cuda_backend;
pub mod cuda_compile;
pub mod cuda_install;
pub mod decimal;
pub mod device_client;
pub mod device_handle;
pub mod duration;
pub mod errors;
pub mod future_worker;
pub mod generation;
pub mod generation_laws;
pub mod ids;
pub mod initialization;
pub mod joining;
pub mod kernel_compilation;
pub mod key_map;
pub mod lifecycle;
pub mod op_metrics;
pub mod path_laws;
pub mod paths;
pub mod poll;
pub mod registry;
pub mod registry_laws;
pub mod runner_thread;
pub mod runtime_laws;
pub mod seed_path;
pub mod server_handle;
pub mod service_states;
pub mod service_task;
pub mod services_shutdown;
pub mod shutdown_laws;
pub mod task;
pub mod text;
pub mod tune_cache;
pub mod tune_id;
pub mod tune_laws;
pub mod tune_operation;

pub use barrier::{Admission, LifecycleState};
pub use cache_metrics::{CacheCounters, CacheMetrics};
pub use channel::{
    Backoff, CallKind, CallPhase, Channel, ClientAction, ClientCall, Server, ServerAction,
    ServerPhase, CHANNEL_MAX_TASK,
};
pub use device_client::DeviceClient;
pub use device_handle::{
    call_result, shutdown_device_services, try_submit_result, DeviceHandle, DeviceLease, Dispatch,
    Release,
};
pub use duration::Duration;
pub use errors::{
    CallError, DeviceLeaseReleaseError, DeviceServicesShutdownError, ServiceCreationError,
};
pub use future_worker::{FutureWorkerError, JoinOnDrop};
pub use generation::{
    device_generation_metrics, joiner_thread_name, release_outcome, runner_thread_name, BeginClose,
    Close, DeviceGenerationMetrics, DeviceLeaseRelease, ExternalLease, GenerationCounters,
    GenerationStatus, GenerationUpgrade, JoinRunner, RuntimeGeneration,
};
pub use ids::{DeviceGenerationId, DeviceId, DeviceServiceStage, RunnerId, ServiceId, StreamId};
pub use initialization::{InitAction, InitEvent, InitPhase, Initialization, ServiceOutcome};
pub use lifecycle::{
    summarize_releases, ComputeClient, GuardSlot, RuntimeGuard, RuntimeGuardError, RuntimeSession,
    RuntimeSessionShutdown, RuntimeSessionShutdownError,
};
pub use op_metrics::OpMetrics;
pub use poll::{PollAction, WgpuPoll};
pub use registry::{Attach, ChannelDeviceState, CloseStep, DeviceRuntime, Lookup, Selection};
pub use runner_thread::{RunnerEvent, RunnerPhase, RunnerThread};
pub use server_handle::{Binding, CopyDescriptor, Handle, ManagedMemory};
pub use service_states::{ActOnError, InitializeService, ServiceStates};
pub use service_task::{TaskAction, TaskContext, TaskEvent, TaskPhase, TaskRun};
pub use services_shutdown::{ServicesShutdown, ShutdownAction, ShutdownEvent, ShutdownPhase};
pub use task::{Task, TaskBuffer, TaskPlacement, GLOBAL_TASK_MAX_SIZE};
pub use tune_cache::{
    AutotuneResult, CacheEntry, ChecksumState, PersistentCacheKey, PersistentCacheValue, SeedCache,
    StoredEntry, TuneCache, TuneCacheResult,
};
pub use tune_id::{CubeTuneId, HardwareProperties};
pub use tune_operation::{
    AutotuneError, AutotuneKey, CloneInputGenerator, InputGenerator, KeyGenerator, Tunable,
    TunableSet, TuneFn,
};
