# cubecl

The lifecycle, queueing and caching core of a GPU compute runtime, verified with
[Verus](https://github.com/verus-lang/verus).

## What it is

Each device has runner threads that host its services. Handles send work to a runner over a queue,
leases keep a runner open, and the last lease to go closes it. Around that, the runtime caches which
kernel is fastest for an operation, compiles kernels and caches what was compiled, and counts what it
does.

The parts that run on several threads are cut into steps over plain values: a step takes the state
and what happened, and gives the next state and what to do. The threads, locks, files and drivers that
run the steps are in `app/`.

## Layout

- `src/channel.rs`, `src/task.rs`: the double-buffered queue between clients and a runner.
- `src/channel_laws.rs`, `src/channel_order.rs`, `src/channel_progress.rs`: what holds of the queue
  however its threads interleave: no task runs twice, tasks run in order, and once the server has
  stopped every accepted task has run. A queue that is closed can always come to that stop, and does
  within a bounded number of steps of its server once no call is under way.
- `src/runner_thread.rs`: what the thread of a runner does, from its start to its end.
- `src/service_task.rs`, `src/call_laws.rs`: how a task is run on its service, and what a caller that
  waits for it gets.
- `src/generation.rs`, `src/generation_laws.rs`: one life of a runner, and the leases on it.
- `src/registry.rs`, `src/initialization.rs`, `src/services_shutdown.rs`, `src/barrier.rs`,
  `src/service_states.rs`, `src/registry_laws.rs`, `src/shutdown_laws.rs`: how services are found,
  made once, and shut down.
- `src/device_handle.rs`, `src/device_client.rs`, `src/lifecycle.rs`, `src/server_handle.rs`: handles,
  leases, sessions, guards, and handles to memory.
- `src/tune_cache.rs`, `src/tune_operation.rs`, `src/tune_id.rs`, `src/seed_path.rs`: autotuning.
- `src/cuda_backend.rs`, `src/cuda_compile.rs`, `src/cuda_install.rs`, `src/kernel_compilation.rs`: CUDA kernels.
- `src/cache_metrics.rs`, `src/op_metrics.rs`, `src/poll.rs`, `src/future_worker.rs`: counters and
  workers.
- `src/paths.rs`, `src/text.rs`, `src/decimal.rs`, `src/duration.rs`: paths, texts, numbers and times.
- `src/key_map.rs`: hash tables of the `hashbrown` crate, with the contracts that are relied on.

Functions named `law_...` state properties that span several functions.
