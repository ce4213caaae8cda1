//! How a service of a device is found, or initialized where it is not there yet.
//!
//! A thread that wants a service passes the barrier, looks for the service, then for a runner of its
//! device and stage, and has the service initialized on that runner. Only one thread at a time
//! does this beyond the barrier, so no service is initialized twice.

use crate::errors::ServiceCreationError;
use crate::barrier::{Admission, LifecycleState};
use crate::generation::ExternalLease;
use crate::ids::{DeviceGenerationId, DeviceId, DeviceServiceStage, RunnerId};
use crate::registry::{is_device_runner_thread, Attach, DeviceRuntime, Lookup};
use vstd::prelude::*;
use vstd::string::StringExecFns;

verus! {

use crate::registry::{channel_code, lease_view, stage_of, RuntimeView};

/// What a thread that wants a service does next.
#[derive(Clone, Copy, Debug, PartialEq, Eq, Structural)]
pub enum InitPhase {
    /// Pass the barrier.
    Permit,
    /// Look for the service.
    Lookup,
    /// Look for the runner.
    Attach,
    /// The thread of a new runner is being started.
    Start {
        /// The generation of the runner.
        generation: DeviceGenerationId,
    },
    /// The service is being initialized.
    Initialize {
        /// The generation of its runner.
        generation: DeviceGenerationId,
    },
    /// Nothing: the service was found or initialized, or was refused.
    Over,
}

/// What came of initializing a service on a runner.
#[derive(Clone, Copy, Debug, PartialEq, Eq, Structural)]
pub enum ServiceOutcome {
    /// The service is there.
    Ready {
        /// The number of its utilities.
        utilities: u64,
    },
    /// The service was there already, so the given instance was not put in its place.
    AlreadyInitialized,
    /// The runner takes no more work.
    Refused,
    /// The initialization panicked.
    Panicked,
}

/// What happened since the last step.
#[derive(Clone, Copy, Debug, PartialEq, Eq, Structural)]
pub enum InitEvent {
    /// What the last action asked for was done.
    Resume,
    /// The service was initialized, or was not.
    Initialized(ServiceOutcome),
}

/// What the thread does after a step.
pub enum InitAction {
    /// Take the next step.
    Continue,
    /// Wait until the shutdown of all services is over.
    WaitForShutdown,
    /// Panic: a runner may not initialize a service of that stage during a shutdown.
    Refused,
    /// Wait until no other thread looks for a service.
    WaitForChannels,
    /// Release a lease.
    Release(ExternalLease),
    /// Join the runner of the generation, or wait until it is closed, as
    /// [`DeviceRuntime::join_runner`] says.
    WaitClosed(DeviceGenerationId),
    /// Panic: a runner cannot wait for its own generation to close.
    OwnRunner,
    /// Start the runner thread of a generation.
    StartRunner(DeviceGenerationId),
    /// Initialize the service: here, or else as a task of the runner, which is then flushed.
    Initialize {
        /// The generation of the runner.
        generation: DeviceGenerationId,
        /// Whether this is the thread of the runner.
        here: bool,
    },
    /// The service is there: its channel state, and a lease to be released.
    Ready(u64, Option<ExternalLease>),
    /// The service is not to be had; the lease is to be released.
    Failed(ServiceCreationError, Option<ExternalLease>),
    /// Panic, after the lease is released.
    Panicked(ExternalLease),
    /// The call is over.
    Over,
}

/// A thread that wants a service.
#[derive(Debug, PartialEq, Eq, Structural)]
pub struct Initialization {
    /// The runner that hosts, or will host, the service.
    pub runner: RunnerId,
    /// The number of the service type.
    pub service: u64,
    /// Whether the thread brings an instance of the service.
    pub given: bool,
    /// The runner whose thread it is.
    pub thread: Option<RunnerId>,
    /// What the thread does next.
    pub phase: InitPhase,
}

/// The runtime once the barrier counts one initializer less.
pub open spec fn left(rt: RuntimeView) -> RuntimeView {
    RuntimeView {
        barrier: LifecycleState {
            active_initializers: (rt.barrier.active_initializers - 1) as usize,
            ..rt.barrier
        },
        ..rt
    }
}

/// The runtime once a thread is done with the registries and left the barrier.
pub open spec fn finished(rt: RuntimeView) -> RuntimeView {
    left(RuntimeView { initializing: false, ..rt })
}

impl Initialization {
    /// The thread passed the barrier.
    pub open spec fn has_permit(self) -> bool {
        !(self.phase is Permit) && !(self.phase is Over)
    }

    /// The thread keeps others from looking for services.
    pub open spec fn locks(self) -> bool {
        self.phase is Attach || self.phase is Start || self.phase is Initialize
    }

    /// What the thread holds, the runtime knows of.
    pub open spec fn fits(self, rt: RuntimeView) -> bool {
        &&& self.has_permit() ==> rt.barrier.active_initializers > 0
        &&& self.locks() ==> rt.initializing
        &&& match self.phase {
            InitPhase::Start { generation } => rt.generations.contains_key(generation.0)
                && rt.generations[generation.0].runner_id == self.runner,
            InitPhase::Initialize { generation } => rt.generations.contains_key(generation.0)
                && rt.generations[generation.0].runner_id == self.runner,
            _ => true,
        }
    }

    /// The call in another phase.
    pub open spec fn at(self, phase: InitPhase) -> Self {
        Initialization { phase, ..self }
    }

    /// The number of the service in the registry.
    pub open spec fn key(self) -> u128 {
        channel_code(self.runner, self.service)
    }

    /// Starts to look for a service.
    pub fn start(
        device: DeviceId,
        stage: DeviceServiceStage,
        service: u64,
        given: bool,
        thread: Option<RunnerId>,
    ) -> (call: Self)
        ensures
            call == (Initialization {
                runner: RunnerId { device, stage },
                service,
                given,
                thread,
                phase: InitPhase::Permit,
            }),
            forall|rt: RuntimeView| call.fits(rt),
    {
        Initialization {
            runner: RunnerId { device, stage },
            service,
            given,
            thread,
            phase: InitPhase::Permit,
        }
    }
}

/// The runtime and the call after a step.
pub open spec fn init_step(rt: RuntimeView, call: Initialization, event: InitEvent) -> (
    RuntimeView,
    Initialization,
) {
    match call.phase {
        InitPhase::Permit => {
            let admission = rt.barrier.admission(stage_of(call.thread), call.runner.stage);
            (
                RuntimeView { barrier: rt.barrier.after_admission(admission), ..rt },
                match admission {
                    Admission::Granted => call.at(InitPhase::Lookup),
                    Admission::Wait => call,
                    Admission::Refused => call.at(InitPhase::Over),
                },
            )
        },
        InitPhase::Lookup => if rt.initializing {
            (rt, call)
        } else {
            let after = RuntimeView { initializing: true, ..rt.looked_up(call.key(), call.given) };
            match rt.registered(call.key()) {
                Some(s) => if rt.is_active(s) {
                    (finished(after), call.at(InitPhase::Over))
                } else {
                    (after, call.at(InitPhase::Attach))
                },
                None => (after, call.at(InitPhase::Attach)),
            }
        },
        InitPhase::Attach => {
            let after = rt.attached(call.runner, call.thread);
            match rt.attach_spec(call.runner) {
                Attach::Ready(generation) => (
                    after,
                    call.at(InitPhase::Initialize { generation }),
                ),
                Attach::Closing(generation) => if call.thread == Some(call.runner) {
                    (finished(after), call.at(InitPhase::Over))
                } else {
                    (
                        RuntimeView { initializing: false, ..after },
                        call.at(InitPhase::Lookup),
                    )
                },
                Attach::Started(generation) => (after, call.at(InitPhase::Start { generation })),
            }
        },
        InitPhase::Start { generation } => (
            rt,
            call.at(InitPhase::Initialize { generation }),
        ),
        InitPhase::Initialize { generation } => match event {
            InitEvent::Initialized(ServiceOutcome::Ready { utilities }) => (
                finished(
                    rt.channel_registered(call.runner, call.service, utilities, generation),
                ),
                call.at(InitPhase::Over),
            ),
            InitEvent::Initialized(_) => (finished(rt), call.at(InitPhase::Over)),
            InitEvent::Resume => (rt, call),
        },
        InitPhase::Over => (rt, call),
    }
}

/// What the thread does after a step.
pub open spec fn init_action(
    rt: RuntimeView,
    call: Initialization,
    event: InitEvent,
    action: InitAction,
) -> bool {
    match call.phase {
        InitPhase::Permit => match rt.barrier.admission(stage_of(call.thread), call.runner.stage) {
            Admission::Granted => action is Continue,
            Admission::Wait => action is WaitForShutdown,
            Admission::Refused => action is Refused,
        },
        InitPhase::Lookup => if rt.initializing {
            action is WaitForChannels
        } else {
            match rt.registered(call.key()) {
                Some(s) => if !rt.is_active(s) {
                    match rt.channel_lease(call.key()) {
                        Some(id) => action matches InitAction::Release(lease) && lease@ == id,
                        None => action is Continue,
                    }
                } else if call.given {
                    action matches InitAction::Failed(error, lease) && error@
                        == "Service already initialized."@ && lease is None
                } else {
                    action == InitAction::Ready(s, None)
                },
                None => action is Continue,
            }
        },
        InitPhase::Attach => match rt.attach_spec(call.runner) {
            Attach::Ready(generation) => action == (InitAction::Initialize {
                generation,
                here: call.thread == Some(call.runner),
            }),
            Attach::Closing(generation) => if call.thread == Some(call.runner) {
                action is OwnRunner
            } else {
                action == InitAction::WaitClosed(generation)
            },
            Attach::Started(generation) => action == InitAction::StartRunner(generation),
        },
        InitPhase::Start { generation } => action == (InitAction::Initialize {
            generation,
            here: call.thread == Some(call.runner),
        }),
        InitPhase::Initialize { generation } => match event {
            InitEvent::Initialized(ServiceOutcome::Ready { .. }) => action matches InitAction::Ready(
                s,
                lease,
            ) && s == rt.next_state && lease_view(lease) == rt.channel_lease(call.key()),
            InitEvent::Initialized(ServiceOutcome::AlreadyInitialized) => action matches InitAction::Failed(
                error,
                lease,
            ) && error@ == "Service already initialized."@ && lease_view(lease) == Some(generation),
            InitEvent::Initialized(ServiceOutcome::Refused) => action matches InitAction::Panicked(
                lease,
            ) && lease@ == generation,
            InitEvent::Initialized(ServiceOutcome::Panicked) => if call.thread == Some(
                call.runner,
            ) {
                action matches InitAction::Failed(error, lease) && error@
                    == "Service initialization failed: Any { .. }"@ && lease_view(lease) == Some(
                    generation,
                )
            } else {
                action matches InitAction::Panicked(lease) && lease@ == generation
            },
            InitEvent::Resume => action == (InitAction::Initialize {
                generation,
                here: call.thread == Some(call.runner),
            }),
        },
        InitPhase::Over => action is Over,
    }
}

impl Initialization {
    /// Takes one step.
    pub fn step(&mut self, runtime: &mut DeviceRuntime, event: InitEvent) -> (action: InitAction)
        requires
            old(runtime).wf(),
            old(runtime)@.has_room(),
            old(self).fits(old(runtime)@),
        ensures
            final(runtime)@ == init_step(old(runtime)@, *old(self), event).0,
            *final(self) == init_step(old(runtime)@, *old(self), event).1,
            init_action(old(runtime)@, *old(self), event, action),
            final(runtime).wf(),
            final(self).fits(final(runtime)@),
    {
        match self.phase {
            InitPhase::Permit => {
                match runtime.enter(self.thread, self.runner.stage) {
                    Admission::Granted => {
                        self.phase = InitPhase::Lookup;
                        InitAction::Continue
                    },
                    Admission::Wait => InitAction::WaitForShutdown,
                    Admission::Refused => {
                        self.phase = InitPhase::Over;
                        InitAction::Refused
                    },
                }
            },
            InitPhase::Lookup => self.look_up(runtime),
            InitPhase::Attach => self.attach(runtime),
            InitPhase::Start { generation } => {
                self.phase = InitPhase::Initialize { generation };
                self.initialize(generation)
            },
            InitPhase::Initialize { generation } => match event {
                InitEvent::Initialized(outcome) => self.finish(runtime, generation, outcome),
                InitEvent::Resume => self.initialize(generation),
            },
            InitPhase::Over => InitAction::Over,
        }
    }

    fn initialize(&self, generation: DeviceGenerationId) -> (action: InitAction)
        ensures
            action == (InitAction::Initialize {
                generation,
                here: self.thread == Some(self.runner),
            }),
    {
        let here = is_device_runner_thread(self.thread, self.runner);
        InitAction::Initialize { generation, here }
    }

    /// The thread is done with the registries, and leaves the barrier.
    fn done(&mut self, runtime: &mut DeviceRuntime)
        requires
            old(runtime)@.barrier.active_initializers > 0,
        ensures
            final(runtime)@ == finished(old(runtime)@),
            *final(self) == old(self).at(InitPhase::Over),
            old(runtime).wf() ==> final(runtime).wf(),
    {
        runtime.unlock_channels();
        runtime.leave();
        self.phase = InitPhase::Over;
    }

    fn look_up(&mut self, runtime: &mut DeviceRuntime) -> (action: InitAction)
        requires
            old(runtime).wf(),
            old(runtime)@.has_room(),
            old(self).fits(old(runtime)@),
            old(self).phase is Lookup,
        ensures
            final(runtime)@ == init_step(old(runtime)@, *old(self), InitEvent::Resume).0,
            *final(self) == init_step(old(runtime)@, *old(self), InitEvent::Resume).1,
            init_action(old(runtime)@, *old(self), InitEvent::Resume, action),
            final(runtime).wf(),
            final(self).fits(final(runtime)@),
    {
        if !runtime.lock_channels() {
            assert(runtime@ =~= old(runtime)@);
            return InitAction::WaitForChannels;
        }
        let ghost locked = runtime@;
        assert(locked.registered(self.key()) == old(runtime)@.registered(self.key()));
        match runtime.lookup(self.runner, self.service, self.given) {
            Lookup::Shared(state) => {
                self.done(runtime);
                InitAction::Ready(state, None)
            },
            Lookup::AlreadyInitialized => {
                self.done(runtime);
                let reason = String::from_str("Service already initialized.");
                InitAction::Failed(ServiceCreationError::new(reason), None)
            },
            Lookup::Stale(lease) => {
                self.phase = InitPhase::Attach;
                match lease {
                    Some(lease) => InitAction::Release(lease),
                    None => InitAction::Continue,
                }
            },
            Lookup::Absent => {
                self.phase = InitPhase::Attach;
                InitAction::Continue
            },
        }
    }

    fn attach(&mut self, runtime: &mut DeviceRuntime) -> (action: InitAction)
        requires
            old(runtime).wf(),
            old(runtime)@.has_room(),
            old(self).fits(old(runtime)@),
            old(self).phase is Attach,
        ensures
            final(runtime)@ == init_step(old(runtime)@, *old(self), InitEvent::Resume).0,
            *final(self) == init_step(old(runtime)@, *old(self), InitEvent::Resume).1,
            init_action(old(runtime)@, *old(self), InitEvent::Resume, action),
            final(runtime).wf(),
            final(self).fits(final(runtime)@),
    {
        proof {
            let rt = old(runtime)@;
            if rt.live_runner(self.runner) is Some {
                let key = crate::registry::runner_code(self.runner);
                crate::registry::law_runner_code(
                    rt.generations[rt.runners[key]].runner_id,
                    self.runner,
                );
            }
        }
        match runtime.attach(self.runner, self.thread) {
            Attach::Ready(generation) => {
                self.phase = InitPhase::Initialize { generation };
                self.initialize(generation)
            },
            Attach::Closing(generation) => {
                if is_device_runner_thread(self.thread, self.runner) {
                    self.done(runtime);
                    return InitAction::OwnRunner;
                }
                // Look again once the generation is closed: a thread that waited too may have put
                // another one in its place.
                runtime.unlock_channels();
                self.phase = InitPhase::Lookup;
                InitAction::WaitClosed(generation)
            },
            Attach::Started(generation) => {
                self.phase = InitPhase::Start { generation };
                InitAction::StartRunner(generation)
            },
        }
    }

    fn finish(
        &mut self,
        runtime: &mut DeviceRuntime,
        generation: DeviceGenerationId,
        outcome: ServiceOutcome,
    ) -> (action: InitAction)
        requires
            old(runtime).wf(),
            old(runtime)@.has_room(),
            old(self).fits(old(runtime)@),
            old(self).phase == (InitPhase::Initialize { generation }),
        ensures
            final(runtime)@ == init_step(
                old(runtime)@,
                *old(self),
                InitEvent::Initialized(outcome),
            ).0,
            *final(self) == init_step(
                old(runtime)@,
                *old(self),
                InitEvent::Initialized(outcome),
            ).1,
            init_action(old(runtime)@, *old(self), InitEvent::Initialized(outcome), action),
            final(runtime).wf(),
            final(self).fits(final(runtime)@),
    {
        let lease = ExternalLease::of(generation);
        let action = match outcome {
            ServiceOutcome::Ready { utilities } => {
                let (state, replaced) = runtime.register(
                    self.runner,
                    self.service,
                    utilities,
                    lease,
                );
                InitAction::Ready(state, replaced)
            },
            ServiceOutcome::AlreadyInitialized => {
                let reason = String::from_str("Service already initialized.");
                InitAction::Failed(ServiceCreationError::new(reason), Some(lease))
            },
            ServiceOutcome::Refused => InitAction::Panicked(lease),
            ServiceOutcome::Panicked => {
                if is_device_runner_thread(self.thread, self.runner) {
                    let reason = String::from_str("Service initialization failed: Any { .. }");
                    InitAction::Failed(ServiceCreationError::new(reason), Some(lease))
                } else {
                    InitAction::Panicked(lease)
                }
            },
        };
        self.done(runtime);
        action
    }

    /// The thread panics: it gives back what it holds. A lease is to be released.
    pub fn abandon(&mut self, runtime: &mut DeviceRuntime) -> (lease: Option<ExternalLease>)
        requires
            old(self).fits(old(runtime)@),
        ensures
            final(runtime)@ == (if old(self).locks() {
                finished(old(runtime)@)
            } else if old(self).has_permit() {
                left(old(runtime)@)
            } else {
                old(runtime)@
            }),
            *final(self) == old(self).at(InitPhase::Over),
            lease_view(lease) == (match old(self).phase {
                InitPhase::Start { generation } => Some(generation),
                InitPhase::Initialize { generation } => Some(generation),
                _ => None,
            }),
            old(runtime).wf() ==> final(runtime).wf(),
    {
        let lease = match self.phase {
            InitPhase::Start { generation } => Some(ExternalLease::of(generation)),
            InitPhase::Initialize { generation } => Some(ExternalLease::of(generation)),
            _ => None,
        };
        match self.phase {
            InitPhase::Permit | InitPhase::Over => {},
            InitPhase::Lookup => {
                runtime.leave();
            },
            _ => {
                runtime.unlock_channels();
                runtime.leave();
            },
        }
        self.phase = InitPhase::Over;
        lease
    }
}

} // verus!
