//! The owners of a runner generation that queue tasks on its channel.

use crate::channel::ClientCall;
use crate::generation::{runner_thread_name, ExternalLease, GenerationStatus};
use crate::ids::{DeviceGenerationId, RunnerId};
use crate::registry::{CloseStep, DeviceRuntime};
use vstd::prelude::*;

verus! {

use crate::channel::{CallKind, CallPhase, CallView};
use crate::generation::runner_name;

/// The client-side handle used to enqueue tasks: a lease on a generation.
pub struct DeviceClient {
    lease: ExternalLease,
    runner: RunnerId,
}

/// What a client refers to.
pub struct ClientView {
    /// The generation that it keeps open.
    pub generation: DeviceGenerationId,
    /// The runner.
    pub runner: RunnerId,
}

impl View for DeviceClient {
    type V = ClientView;

    closed spec fn view(&self) -> ClientView {
        ClientView { generation: self.lease@, runner: self.runner }
    }
}

impl DeviceClient {
    /// Creates a generation of a runner, and names the thread that is to be started for it.
    ///
    /// That thread enters its loop once it was reported with [`DeviceRuntime::mark_running`]; who
    /// started it reports so with [`DeviceRuntime::set_join_handle`].
    pub fn new(runner_id: RunnerId, runtime: &mut DeviceRuntime) -> (result: (Self, String))
        requires
            old(runtime).wf(),
            old(runtime)@.counters.next_id < u64::MAX,
        ensures
            final(runtime)@ == old(runtime)@.created(runner_id),
            final(runtime).wf(),
            result.0@ == (ClientView {
                generation: DeviceGenerationId(old(runtime)@.counters.next_id),
                runner: runner_id,
            }),
            result.1@ == runner_name(
                runner_id,
                DeviceGenerationId(old(runtime)@.counters.next_id),
            ),
    {
        let lease = runtime.start(runner_id);
        let name = runner_thread_name(runner_id, lease.generation_id());
        (DeviceClient { lease, runner: runner_id }, name)
    }

    /// Takes another client of the same generation.
    pub fn duplicate(&self, runtime: &mut DeviceRuntime) -> (client: Self)
        requires
            old(runtime).wf(),
            old(runtime)@.generations.contains_key(self@.generation.0),
        ensures
            client@ == self@,
            final(runtime)@ == old(runtime)@.with_generation(
                old(runtime)@.generations[self@.generation.0].leased(),
            ),
            final(runtime).wf(),
    {
        DeviceClient {
            lease: runtime.lease(self.lease.generation_id()),
            runner: self.runner,
        }
    }

    /// Gets the runner id associated to the channel.
    pub fn runner_id(&self) -> (id: RunnerId)
        ensures
            id == self@.runner,
    {
        self.runner
    }

    /// Returns the generation that the client keeps open.
    pub fn generation_id(&self) -> (id: DeviceGenerationId)
        ensures
            id == self@.generation,
    {
        self.lease.generation_id()
    }

    /// Takes a lease on the generation of the client.
    pub fn external_lease(&self, runtime: &mut DeviceRuntime) -> (lease: ExternalLease)
        requires
            old(runtime).wf(),
            old(runtime)@.generations.contains_key(self@.generation.0),
        ensures
            lease@ == self@.generation,
            final(runtime)@ == old(runtime)@.with_generation(
                old(runtime)@.generations[self@.generation.0].leased(),
            ),
            final(runtime).wf(),
    {
        runtime.lease(self.lease.generation_id())
    }

    /// Lets go of the client; its lease is to be released.
    pub fn into_lease(self) -> (lease: ExternalLease)
        ensures
            lease@ == self@.generation,
    {
        self.lease
    }

    /// Returns the number of leases that keep the generation open.
    pub fn external_count(&self, runtime: &DeviceRuntime) -> (count: usize)
        requires
            runtime@.generations.contains_key(self@.generation.0),
        ensures
            count == runtime@.generations[self@.generation.0].external_count,
    {
        runtime.generation(self.lease.generation_id()).unwrap().external_count
    }

    /// Returns the number of references that the runner and its queued tasks hold.
    pub fn internal_count(&self, runtime: &DeviceRuntime) -> (count: usize)
        requires
            runtime@.generations.contains_key(self@.generation.0),
        ensures
            count == runtime@.generations[self@.generation.0].internal_count,
    {
        runtime.generation(self.lease.generation_id()).unwrap().internal_count
    }

    /// Returns where the generation is in its life.
    pub fn generation_status(&self, runtime: &DeviceRuntime) -> (status: GenerationStatus)
        requires
            runtime@.generations.contains_key(self@.generation.0),
        ensures
            status == runtime@.generations[self@.generation.0].status,
    {
        runtime.generation(self.lease.generation_id()).unwrap().status
    }

    /// Starts to queue a task.
    pub fn enqueue<F>(&self, func: F) -> (call: ClientCall<F>)
        ensures
            call@ == (CallView {
                task: Some(func),
                kind: CallKind::Enqueue,
                phase: CallPhase::Check,
                idle_count: 0,
            }),
    {
        ClientCall::enqueue(func)
    }

    /// Starts to make the runner run what waits in a buffer that is not full.
    pub fn flush<F>(&self) -> (call: ClientCall<F>)
        ensures
            call@ == (CallView {
                task: None::<F>,
                kind: CallKind::Flush,
                phase: CallPhase::Check,
                idle_count: 0,
            }),
    {
        ClientCall::flush()
    }

    /// Stops accepting work; queued tasks are drained, and the runner is then joined.
    pub fn shutdown(&self, runtime: &mut DeviceRuntime, thread: Option<RunnerId>) -> (step:
        CloseStep)
        requires
            old(runtime).wf(),
            old(runtime)@.generations.contains_key(self@.generation.0),
        ensures
            ({
                let g = old(runtime)@.generations[self@.generation.0];
                let on_runner = thread == Some(g.runner_id);
                &&& final(runtime)@ == old(runtime)@.with_generation(
                    g.after_close_call(false, on_runner),
                )
                &&& step == (CloseStep {
                    generation: self@.generation,
                    stop_channel: g.status.is_open(),
                    close: g.close_spec(false, on_runner),
                })
            }),
            final(runtime).wf(),
    {
        runtime.close_forced(self.lease.generation_id(), thread)
    }
}

} // verus!
