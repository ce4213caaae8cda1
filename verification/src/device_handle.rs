//! Handles to the services of a device, and the leases that keep their runners open.

use crate::errors::{CallError, DeviceLeaseReleaseError};
use crate::generation::{release_outcome, DeviceLeaseRelease, ExternalLease, GenerationStatus};
use crate::ids::{
    DeviceGenerationId, DeviceId, DeviceServiceStage, RunnerId, ServiceId, StreamId,
};
use crate::initialization::Initialization;
use crate::registry::{is_device_runner_thread, CloseStep, DeviceRuntime};
use crate::service_task::TaskContext;
use crate::services_shutdown::ServicesShutdown;
use vstd::prelude::*;

verus! {

use crate::generation::{release_spec, released};
use crate::initialization::InitPhase;
use crate::registry::lease_view;
use crate::service_task::casts_of;
use crate::services_shutdown::ShutdownView;

/// Keeps a device-runner generation alive while an escaping value remains usable.
pub struct DeviceLease {
    channel: Option<ExternalLease>,
}

impl View for DeviceLease {
    type V = Option<DeviceGenerationId>;

    closed spec fn view(&self) -> Option<DeviceGenerationId> {
        lease_view(self.channel)
    }
}

/// What came of releasing a lease.
pub struct Release {
    /// What is left to the thread, where the lease kept a generation open.
    pub step: Option<CloseStep>,
    /// The outcome, once it is known.
    pub outcome: Option<Result<DeviceLeaseRelease, DeviceLeaseReleaseError>>,
}

impl DeviceLease {
    /// A lease that keeps nothing open.
    pub fn stateless() -> (lease: Self)
        ensures
            lease@ is None,
    {
        DeviceLease { channel: None }
    }

    /// A lease that keeps the generation of a channel open.
    pub fn channel(lease: ExternalLease) -> (result: Self)
        ensures
            result@ == Some(lease@),
    {
        DeviceLease { channel: Some(lease) }
    }

    /// Returns the retained generation, if stateful.
    pub fn generation_id(&self) -> (id: Option<DeviceGenerationId>)
        ensures
            id == self@,
    {
        match &self.channel {
            Some(lease) => Some(lease.generation_id()),
            None => None,
        }
    }

    /// Takes another lease like this one.
    pub fn duplicate(&self, runtime: &mut DeviceRuntime) -> (lease: Self)
        requires
            old(runtime).wf(),
            self@ is Some ==> old(runtime)@.generations.contains_key((self@->0).0),
        ensures
            lease@ == self@,
            final(runtime)@ == (match self@ {
                Some(id) => old(runtime)@.with_generation(
                    old(runtime)@.generations[id.0].leased(),
                ),
                None => old(runtime)@,
            }),
            final(runtime).wf(),
    {
        match &self.channel {
            Some(lease) => DeviceLease { channel: Some(runtime.lease(lease.generation_id())) },
            None => DeviceLease { channel: None },
        }
    }

    /// Releases the lease, closing its generation when it is the final owner.
    ///
    /// The outcome is that of [`release_outcome`], once the thread has done what is left to it.
    pub fn release(self, runtime: &mut DeviceRuntime, thread: Option<RunnerId>) -> (release:
        Release)
        requires
            old(runtime).wf(),
            self@ is Some ==> old(runtime)@.generations.contains_key((self@->0).0),
        ensures
            match self@ {
                Some(id) => {
                    let g = old(runtime)@.generations[id.0];
                    let on_runner = thread == Some(g.runner_id);
                    &&& final(runtime)@ == old(runtime)@.with_generation(released(g, on_runner))
                    &&& release.step == Some(
                        CloseStep {
                            generation: id,
                            stop_channel: g.external_count == 1 && g.status.is_open(),
                            close: release_spec(g, on_runner),
                        },
                    )
                    &&& call_ensures(
                        release_outcome,
                        (id, release_spec(g, on_runner)),
                        release.outcome,
                    )
                },
                None => {
                    &&& final(runtime)@ == old(runtime)@
                    &&& release.step is None
                    &&& release.outcome == Some(
                        Ok::<DeviceLeaseRelease, DeviceLeaseReleaseError>(
                            DeviceLeaseRelease::Stateless,
                        ),
                    )
                },
            },
            final(runtime).wf(),
    {
        match self.channel {
            Some(lease) => {
                let id = lease.generation_id();
                let step = runtime.release(lease, thread);
                let outcome = release_outcome(id, step.close);
                Release { step: Some(step), outcome }
            },
            None => Release { step: None, outcome: Some(Ok(DeviceLeaseRelease::Stateless)) },
        }
    }
}

/// How a task reaches the service that it is for.
#[derive(Clone, Copy, Debug, PartialEq, Eq, Structural)]
pub enum Dispatch {
    /// Run it here: this is the thread of the runner, which would otherwise wait for itself.
    Here {
        /// What goes with the task.
        context: TaskContext,
    },
    /// Queue it on the channel of the runner.
    Enqueue {
        /// Whether the channel is flushed after that.
        flush: bool,
        /// What goes with the task.
        context: TaskContext,
    },
}

/// A handle to one service of a device.
///
/// The service lives on the thread of its runner; the handle only knows how to reach it. It is a
/// reference to the channel state that all handles of the service share.
#[derive(Debug, PartialEq, Eq, Structural)]
pub struct DeviceHandle {
    state: u64,
    runner: RunnerId,
    generation: DeviceGenerationId,
    service: ServiceId,
    utilities: u64,
    cast: Option<u64>,
}

/// What a handle refers to.
pub struct HandleView {
    /// The channel state.
    pub state: u64,
    /// The runner of the service.
    pub runner: RunnerId,
    /// The generation of the runner.
    pub generation: DeviceGenerationId,
    /// The service.
    pub service: ServiceId,
    /// The number of the utilities of the service.
    pub utilities: u64,
    /// The number of the cast that turns the service into what it is seen as, if any.
    pub cast: Option<u64>,
}

impl View for DeviceHandle {
    type V = HandleView;

    closed spec fn view(&self) -> HandleView {
        HandleView {
            state: self.state,
            runner: self.runner,
            generation: self.generation,
            service: self.service,
            utilities: self.utilities,
            cast: self.cast,
        }
    }
}

/// How a task reaches a service from a thread.
pub open spec fn dispatch(
    thread: Option<RunnerId>,
    runner: RunnerId,
    flush: bool,
    context: TaskContext,
) -> Dispatch {
    if thread == Some(runner) {
        Dispatch::Here { context }
    } else {
        Dispatch::Enqueue { flush, context }
    }
}

impl HandleView {
    /// What goes with a task for the service, from a thread on a stream.
    pub open spec fn task_context(self, stream: StreamId) -> TaskContext {
        TaskContext { service: Some(self.service.service_type), cast: self.cast, stream }
    }
}

/// What goes with a task that needs no service, from a thread on a stream.
pub open spec fn bare_context(stream: StreamId) -> TaskContext {
    TaskContext { service: None, cast: None, stream }
}

/// A task runs in place exactly on the thread of the runner that hosts its service, the one of the
/// same device and the same stage. From every other thread it is queued: from no runner, from the
/// runner of another device, and from the other runner of the same device. What goes with the task
/// is the same either way.
pub proof fn law_runs_in_place_on_its_own_runner(
    thread: Option<RunnerId>,
    runner: RunnerId,
    flush: bool,
    context: TaskContext,
)
    ensures
        ({
            let how = dispatch(thread, runner, flush, context);
            let own = thread is Some && (thread->0).device.type_id == runner.device.type_id && (
            thread->0).device.index_id == runner.device.index_id && (thread->0).stage
                == runner.stage;
            &&& own ==> how == (Dispatch::Here { context })
            &&& !own ==> how == (Dispatch::Enqueue { flush, context })
        }),
{
}

/// The four ways to send a task differ only in whether the channel is flushed and in whether the
/// task is for the service: one caller on one thread gets the same place from all of them.
pub proof fn law_sending_agrees(
    handle: &DeviceHandle,
    thread: Option<RunnerId>,
    stream: StreamId,
    waiting: Dispatch,
    sent: Dispatch,
    tried: Dispatch,
    alone: Dispatch,
)
    requires
        call_ensures(DeviceHandle::submit_blocking, (handle, thread, stream), waiting),
        call_ensures(DeviceHandle::submit, (handle, thread, stream), sent),
        call_ensures(DeviceHandle::try_submit, (handle, thread, stream), tried),
        call_ensures(DeviceHandle::exclusive, (handle, thread, stream), alone),
    ensures
        waiting is Here <==> thread == Some(handle@.runner),
        sent is Here <==> waiting is Here,
        tried == sent,
        alone is Here <==> waiting is Here,
        waiting matches Dispatch::Enqueue { flush, context } ==> flush && sent == (
        Dispatch::Enqueue { flush: false, context }) && alone->Enqueue_flush
            && alone->Enqueue_context.stream == context.stream && context.service == Some(
            handle@.service.service_type,
        ) && alone->Enqueue_context.service is None,
        waiting matches Dispatch::Here { context } ==> sent == waiting
            && alone->Here_context.stream == context.stream && context.service == Some(
            handle@.service.service_type,
        ) && alone->Here_context.service is None,
{
}

/// A handle reaches the same service of the same device whatever it is seen as; what changes is the
/// cast that goes with each task.
pub proof fn law_seen_as_reaches_the_same(handle: HandleView, cast: u64, stream: StreamId)
    ensures
        ({
            let seen = HandleView { cast: Some(cast), ..handle };
            &&& seen.service == handle.service
            &&& seen.runner == handle.runner
            &&& seen.task_context(stream) == (TaskContext {
                cast: Some(cast),
                ..handle.task_context(stream)
            })
            &&& casts_of(seen.task_context(stream)) == seq![cast]
        }),
{
}

impl DeviceHandle {
    /// Starts to put an instance of a service in place; this fails if the service is there.
    pub fn insert(
        device_id: DeviceId,
        stage: DeviceServiceStage,
        service: u64,
        thread: Option<RunnerId>,
    ) -> (call: Initialization)
        ensures
            call == (Initialization {
                runner: RunnerId { device: device_id, stage },
                service,
                given: true,
                thread,
                phase: InitPhase::Permit,
            }),
    {
        Initialization::start(device_id, stage, service, true, thread)
    }

    /// Starts to find a service, or to initialize it where it is not there yet.
    pub fn new(
        device_id: DeviceId,
        stage: DeviceServiceStage,
        service: u64,
        thread: Option<RunnerId>,
    ) -> (call: Initialization)
        ensures
            call == (Initialization {
                runner: RunnerId { device: device_id, stage },
                service,
                given: false,
                thread,
                phase: InitPhase::Permit,
            }),
    {
        Initialization::start(device_id, stage, service, false, thread)
    }

    /// The handle for a reference to a channel state that was found or registered.
    pub fn of_state(state: u64, runtime: &DeviceRuntime) -> (handle: Option<Self>)
        ensures
            handle is Some <==> runtime@.states.contains_key(state),
            handle matches Some(handle) ==> handle@ == (HandleView {
                state,
                runner: runtime@.states[state].runner,
                generation: runtime@.states[state].generation,
                service: ServiceId {
                    device: runtime@.states[state].runner.device,
                    service_type: runtime@.states[state].service,
                },
                utilities: runtime@.states[state].utilities,
                cast: None,
            }),
    {
        match runtime.channel_state(state) {
            Some(found) => Some(
                DeviceHandle {
                    state,
                    runner: found.runner,
                    generation: found.generation,
                    service: ServiceId {
                        device: found.runner.device,
                        service_type: found.service,
                    },
                    utilities: found.utilities,
                    cast: None,
                },
            ),
            None => None,
        }
    }

    /// Returns whether functions block the current thread even if they are non-blocking.
    pub fn is_blocking() -> (blocking: bool)
        ensures
            !blocking,
    {
        false
    }

    /// Returns the device that hosts the service.
    pub fn device_id(&self) -> (id: DeviceId)
        ensures
            id == self@.runner.device,
    {
        self.runner.device
    }

    /// The service this handle reaches: its device and its concrete type, whatever it is seen as.
    pub fn service_id(&self) -> (id: ServiceId)
        ensures
            id == self@.service,
    {
        self.service
    }

    /// Returns the generation of the runner.
    pub fn generation_id(&self) -> (id: DeviceGenerationId)
        ensures
            id == self@.generation,
    {
        self.generation
    }

    /// Returns the runner of the service.
    pub fn runner_id(&self) -> (id: RunnerId)
        ensures
            id == self@.runner,
    {
        self.runner
    }

    /// Takes another handle like this one.
    pub fn duplicate(&self, runtime: &mut DeviceRuntime) -> (handle: Self)
        requires
            old(runtime).wf(),
            old(runtime)@.states.contains_key(self@.state),
            old(runtime)@.states[self@.state].references < usize::MAX,
        ensures
            handle@ == self@,
            final(runtime)@ == old(runtime)@.state_shared(self@.state),
            final(runtime).wf(),
    {
        runtime.share_state(self.state);
        DeviceHandle {
            state: self.state,
            runner: self.runner,
            generation: self.generation,
            service: self.service,
            utilities: self.utilities,
            cast: self.cast,
        }
    }

    /// The same service, seen as what a cast turns it into: the cast with that number is applied to
    /// the service, once per task, on the thread that runs it.
    pub fn seen_as(self, cast: u64) -> (handle: Self)
        ensures
            handle@ == (HandleView { cast: Some(cast), ..self@ }),
    {
        let mut handle = self;
        handle.cast = Some(cast);
        handle
    }

    /// Returns the number of the cast that turns the service into what it is seen as, unless it is
    /// seen as what it is.
    pub fn cast(&self) -> (cast: Option<u64>)
        ensures
            cast == self@.cast,
    {
        self.cast
    }

    /// Returns the number of the utilities of the service.
    pub fn utilities(&self) -> (utilities: u64)
        ensures
            utilities == self@.utilities,
    {
        self.utilities
    }

    /// Lets go of the handle; the last one of a service sets its lease free, which is then to be
    /// released.
    pub fn release(self, runtime: &mut DeviceRuntime) -> (lease: Option<ExternalLease>)
        requires
            old(runtime).wf(),
            old(runtime)@.states.contains_key(self@.state),
            old(runtime)@.strong && old(runtime)@.is_registered(self@.state) ==> old(
                runtime,
            )@.states[self@.state].references > 1,
        ensures
            final(runtime)@ == old(runtime)@.state_dropped(self@.state),
            lease_view(lease) == old(runtime)@.state_lease(self@.state),
            final(runtime).wf(),
    {
        runtime.drop_state(self.state)
    }

    /// Returns a lease retaining the current device-runner generation.
    pub fn lease(&self, runtime: &mut DeviceRuntime) -> (lease: DeviceLease)
        requires
            old(runtime).wf(),
            old(runtime)@.generations.contains_key(self@.generation.0),
        ensures
            lease@ == Some(self@.generation),
            final(runtime)@ == old(runtime)@.with_generation(
                old(runtime)@.generations[self@.generation.0].leased(),
            ),
            final(runtime).wf(),
    {
        DeviceLease::channel(runtime.lease(self.generation))
    }

    fn send(&self, thread: Option<RunnerId>, flush: bool, context: TaskContext) -> (how: Dispatch)
        ensures
            how == dispatch(thread, self@.runner, flush, context),
            how is Here <==> thread == Some(self@.runner),
            how matches Dispatch::Here { context: sent } ==> sent == context,
            how matches Dispatch::Enqueue { flush: after, context: sent } ==> after == flush && sent
                == context,
    {
        if is_device_runner_thread(thread, self.runner) {
            Dispatch::Here { context }
        } else {
            Dispatch::Enqueue { flush, context }
        }
    }

    fn context(&self, stream: StreamId) -> (context: TaskContext)
        ensures
            context == self@.task_context(stream),
    {
        TaskContext { service: Some(self.service.service_type), cast: self.cast, stream }
    }

    /// How a task runs on the device thread, on the stream of the caller, while the caller waits
    /// for its result.
    pub fn submit_blocking(&self, thread: Option<RunnerId>, stream: StreamId) -> (how: Dispatch)
        ensures
            how == dispatch(thread, self@.runner, true, self@.task_context(stream)),
            how is Here <==> thread == Some(self@.runner),
            how matches Dispatch::Here { context }
                ==> context.service == Some(self@.service.service_type)
                && context.cast == self@.cast && context.stream == stream,
            how matches Dispatch::Enqueue { flush, context } ==> flush && context.service
                == Some(self@.service.service_type) && context.cast == self@.cast && context.stream
                == stream,
    {
        self.send(thread, true, self.context(stream))
    }

    /// How a task is dispatched to the device thread, where it runs on the stream of the caller,
    /// without waiting for it.
    pub fn submit(&self, thread: Option<RunnerId>, stream: StreamId) -> (how: Dispatch)
        ensures
            how == dispatch(thread, self@.runner, false, self@.task_context(stream)),
            how is Here <==> thread == Some(self@.runner),
            how matches Dispatch::Here { context }
                ==> context.service == Some(self@.service.service_type)
                && context.cast == self@.cast && context.stream == stream,
            how matches Dispatch::Enqueue { flush, context } ==> !flush && context.service
                == Some(self@.service.service_type) && context.cast == self@.cast && context.stream
                == stream,
    {
        self.send(thread, false, self.context(stream))
    }

    /// How a task is dispatched when the runner may be closed; see [`try_submit_result`].
    pub fn try_submit(&self, thread: Option<RunnerId>, stream: StreamId) -> (how: Dispatch)
        ensures
            how == dispatch(thread, self@.runner, false, self@.task_context(stream)),
            how is Here <==> thread == Some(self@.runner),
            how matches Dispatch::Here { context }
                ==> context.service == Some(self@.service.service_type)
                && context.cast == self@.cast && context.stream == stream,
            how matches Dispatch::Enqueue { flush, context } ==> !flush && context.service
                == Some(self@.service.service_type) && context.cast == self@.cast && context.stream
                == stream,
    {
        self.send(thread, false, self.context(stream))
    }

    /// How a task that needs no service runs on the device thread, on the stream of the caller,
    /// while the caller waits.
    pub fn exclusive(&self, thread: Option<RunnerId>, stream: StreamId) -> (how: Dispatch)
        ensures
            how == dispatch(thread, self@.runner, true, bare_context(stream)),
            how is Here <==> thread == Some(self@.runner),
            how matches Dispatch::Here { context } ==> context.service == None::<u64>
                && context.cast == None::<u64> && context.stream == stream,
            how matches Dispatch::Enqueue { flush, context } ==> flush && context.service
                == None::<u64> && context.cast == None::<u64> && context.stream == stream,
    {
        self.send(thread, true, TaskContext { service: None, cast: None, stream })
    }

    /// Returns whether flushing the queue flushes the channel: on the runner itself nothing waits.
    pub fn flush_queue(&self, thread: Option<RunnerId>) -> (flush: bool)
        ensures
            flush == (thread != Some(self@.runner)),
            !flush <==> thread is Some && (thread->0).device == self@.runner.device && (
            thread->0).stage == self@.runner.stage,
    {
        !is_device_runner_thread(thread, self.runner)
    }

    /// Starts to force-close all runner generations of a device. Queued tasks run before the
    /// threads stop.
    ///
    /// This is device-wide: every service of the device is shut down, of both stages. It
    /// invalidates live handles and values retained from those generations; callers must stop
    /// using them before. The thread of a runner cannot do this.
    pub fn shutdown(device_id: DeviceId, thread: Option<RunnerId>) -> (shutdown: ServicesShutdown)
        requires
            thread is None,
        ensures
            shutdown@ == ShutdownView::init(Some(device_id)),
    {
        ServicesShutdown::new(Some(device_id))
    }

    /// Returns where the generation of the runner is in its life.
    pub fn generation_status(&self, runtime: &DeviceRuntime) -> (status: Option<GenerationStatus>)
        ensures
            status == (if runtime@.generations.contains_key(self@.generation.0) {
                Some(runtime@.generations[self@.generation.0].status)
            } else {
                None
            }),
    {
        match runtime.generation(self.generation) {
            Some(generation) => Some(generation.status),
            None => None,
        }
    }
}

/// What a call comes to: the value that its task returned, if the channel took the task and the
/// task did not panic.
pub open spec fn call_outcome<R>(accepted: bool, result: Option<R>) -> Result<R, CallError> {
    if accepted && result is Some {
        Ok(result->0)
    } else {
        Err(CallError)
    }
}

/// What a call comes to: `accepted` tells whether the channel took the task, and `result` what it
/// returned, unless it panicked.
pub fn call_result<R>(accepted: bool, result: Option<R>) -> (outcome: Result<R, CallError>)
    ensures
        outcome == call_outcome(accepted, result),
        outcome is Ok <==> accepted && result is Some,
        outcome matches Ok(value) ==> result == Some(value),
{
    if !accepted {
        return Err(CallError);
    }
    match result {
        Some(value) => Ok(value),
        None => Err(CallError),
    }
}

/// What submitting a task to a runner that may be closed comes to.
pub fn try_submit_result(accepted: bool) -> (outcome: Result<(), CallError>)
    ensures
        outcome == (if accepted {
            Ok::<(), CallError>(())
        } else {
            Err(CallError)
        }),
{
    if accepted {
        Ok(())
    } else {
        Err(CallError)
    }
}

/// Starts to stop and join every device runner.
///
/// New submissions must stop before this function is called.
pub fn shutdown_device_services() -> (shutdown: ServicesShutdown)
    ensures
        shutdown@ == ShutdownView::init(None),
{
    ServicesShutdown::new(None)
}

} // verus!
