//! Runs device runners on one thread: a runner takes its steps when a test, or a thread that waits
//! for it, lets it.

use cubecl::{
    call_result, device_generation_metrics, joiner_thread_name, release_outcome,
    runner_thread_name, shutdown_device_services, try_submit_result, ActOnError, CallError,
    Channel, ClientAction, ClientCall, Close, CloseStep, DeviceClient, DeviceGenerationId,
    DeviceHandle, DeviceId, DeviceLease, DeviceLeaseRelease, DeviceLeaseReleaseError,
    DeviceRuntime, DeviceServiceStage, DeviceServicesShutdownError, Dispatch, ExternalLease,
    GenerationStatus, InitAction, InitEvent, Initialization, InitializeService, JoinRunner,
    RunnerId, Server, ServerAction, ServiceOutcome, ServiceStates, ServicesShutdown,
    ShutdownAction, ShutdownEvent, StreamId, TaskAction, TaskContext, TaskEvent, TaskRun,
    CHANNEL_MAX_TASK,
};
use std::cell::{Cell, RefCell};
use std::collections::HashMap;
use std::rc::Rc;
use std::time::Duration;

const MOCK: u64 = 1;
const OTHER: u64 = 2;
const UPSTREAM: u64 = 3;
const EXTERNAL: u64 = 4;
const DOWNSTREAM: u64 = 5;

/// The stream of a thread that runs no task.
const OWN_STREAM: StreamId = StreamId { value: 1000 };

type Job = Box<dyn FnOnce(&mut World)>;

struct Runner {
    id: RunnerId,
    channel: Channel<Job>,
    server: Server,
    states: ServiceStates,
    values: HashMap<u64, usize>,
    on_exit: Option<Job>,
    panics: bool,
    stopped: bool,
}

struct World {
    runtime: DeviceRuntime,
    runners: HashMap<u64, Runner>,
    /// The runner whose thread runs.
    thread: Option<RunnerId>,
    /// The stream of that thread.
    stream: StreamId,
    /// The casts applied.
    casts: Vec<u64>,
    /// Generations for which a thread was started that joins the runner.
    joiners: Vec<DeviceGenerationId>,
    /// The services made.
    made: Vec<u64>,
    /// The services shut down, with their generations.
    shut_down: Vec<(DeviceGenerationId, u64)>,
    /// What a service does when it is shut down.
    on_shutdown: HashMap<u64, Rc<dyn Fn(&mut World)>>,
    /// The services whose initialization panics.
    broken: Vec<u64>,
    events: Vec<&'static str>,
}

fn device(type_id: u16, index_id: u16) -> DeviceId {
    DeviceId { type_id, index_id }
}

fn downstream(index_id: u16) -> RunnerId {
    RunnerId { device: device(0, index_id), stage: DeviceServiceStage::Downstream }
}

impl World {
    fn new() -> Self {
        Self::with_registries(false)
    }

    fn with_registries(strong: bool) -> Self {
        World {
            runtime: DeviceRuntime::new(strong),
            runners: HashMap::new(),
            thread: None,
            stream: StreamId { value: 0 },
            casts: Vec::new(),
            joiners: Vec::new(),
            made: Vec::new(),
            shut_down: Vec::new(),
            on_shutdown: HashMap::new(),
            broken: Vec::new(),
            events: Vec::new(),
        }
    }

    fn runner(&mut self, id: DeviceGenerationId) -> &mut Runner {
        self.runners.get_mut(&id.0).unwrap()
    }

    fn status(&self, id: DeviceGenerationId) -> GenerationStatus {
        self.runtime.generation(id).unwrap().status
    }

    /// Starts the thread of a runner.
    fn start(&mut self, id: DeviceGenerationId) {
        let runner = Runner {
            id: self.runtime.generation(id).unwrap().runner_id,
            channel: Channel::new(),
            server: Server::new(),
            states: ServiceStates::new(),
            values: HashMap::new(),
            on_exit: None,
            panics: false,
            stopped: false,
        };
        self.runners.insert(id.0, runner);
        self.runtime.set_join_handle(id);
        self.runtime.mark_running(id);
    }

    fn client(&mut self, runner: RunnerId) -> DeviceClient {
        let (client, name) = DeviceClient::new(runner, &mut self.runtime);
        assert_eq!(name, runner_thread_name(runner, client.generation_id()));
        self.start(client.generation_id());
        client
    }

    /// Runs a piece of code on the thread of a runner, or on one that is no runner.
    fn on_thread<R>(&mut self, thread: Option<RunnerId>, run: impl FnOnce(&mut World) -> R) -> R {
        let outer = (self.thread, self.stream);
        self.thread = thread;
        self.stream = OWN_STREAM;
        let result = run(self);
        (self.thread, self.stream) = outer;
        result
    }

    /// Lets a runner take steps until it waits or stops.
    fn drive(&mut self, id: DeviceGenerationId) {
        loop {
            let runner = self.runner(id);
            if runner.stopped {
                return;
            }
            let thread = runner.id;
            match runner.server.step(&mut runner.channel) {
                ServerAction::Continue => {}
                ServerAction::Run(job) => self.on_thread(Some(thread), job),
                ServerAction::Wait(_) => return,
                ServerAction::Stop => {
                    self.on_thread(Some(thread), |world| world.exit(id));
                    return;
                }
            }
        }
    }

    /// What a runner thread does once it left its loop.
    fn exit(&mut self, id: DeviceGenerationId) {
        for service in self.runner(id).states.shutdown_service_states() {
            let service = service as u64;
            if let Some(hook) = self.on_shutdown.get(&service).cloned() {
                hook(self);
            }
            self.shut_down.push((id, service));
        }
        self.runner(id).states.end_shutdown();
        if let Some(hook) = self.runner(id).on_exit.take() {
            hook(self);
        }
        self.runtime.drop_internal_reference(id);
        self.runner(id).stopped = true;
    }

    fn join(&mut self, id: DeviceGenerationId) -> JoinRunner {
        self.drive(id);
        assert!(self.runner(id).stopped, "a thread would wait here forever");
        let panicked = self.runner(id).panics;
        self.runtime.runner_joined(id, panicked)
    }

    /// Does what is left to a thread that closes a generation.
    fn close(&mut self, step: CloseStep) -> Close {
        if step.stop_channel {
            let runner = self.runner(step.generation);
            runner.channel.stop_accepting();
            runner.channel.request_close();
        }
        match step.close {
            Close::Join(JoinRunner::Join) => Close::Join(self.join(step.generation)),
            Close::Join(JoinRunner::Wait) => panic!("a thread would wait here forever"),
            Close::Delegate(true) => {
                self.joiners.push(step.generation);
                step.close
            }
            other => other,
        }
    }

    /// Runs the threads that join a runner.
    fn run_joiners(&mut self) {
        while let Some(id) = self.joiners.pop() {
            assert_eq!(self.runtime.join_runner(id), JoinRunner::Join);
            self.join(id);
        }
    }

    fn release(
        &mut self,
        lease: ExternalLease,
    ) -> Result<DeviceLeaseRelease, DeviceLeaseReleaseError> {
        self.release_lease(DeviceLease::channel(lease))
    }

    fn release_lease(
        &mut self,
        lease: DeviceLease,
    ) -> Result<DeviceLeaseRelease, DeviceLeaseReleaseError> {
        let released = lease.release(&mut self.runtime, self.thread);
        match released.step {
            None => released.outcome.unwrap(),
            Some(step) => {
                let generation = step.generation;
                let close = self.close(step);
                release_outcome(generation, close).unwrap()
            }
        }
    }

    fn drop_client(&mut self, client: DeviceClient) {
        let _ = self.release(client.into_lease());
    }

    fn drop_handle(&mut self, handle: DeviceHandle) {
        if let Some(lease) = handle.release(&mut self.runtime) {
            let _ = self.release(lease);
        }
    }

    fn shutdown_client(&mut self, client: &DeviceClient) -> Close {
        let step = client.shutdown(&mut self.runtime, self.thread);
        self.close(step)
    }

    /// Steps a call to its end; the runner runs while the call waits.
    fn finish_call(&mut self, id: DeviceGenerationId, mut call: ClientCall<Job>) -> bool {
        loop {
            let runner = self.runner(id);
            match call.step(&mut runner.channel) {
                ClientAction::Continue => {}
                ClientAction::Wait(_) => self.drive(id),
                ClientAction::Done(accepted) => return accepted,
            }
        }
    }

    fn enqueue(&mut self, id: DeviceGenerationId, job: Job) -> bool {
        let mut call: ClientCall<Job> = ClientCall::enqueue(Box::new(move |world: &mut World| {
            job(world);
            world.runtime.drop_internal_reference(id);
        }));
        let runner = self.runner(id);
        while !call.is_admitted() {
            match call.step(&mut runner.channel) {
                ClientAction::Done(accepted) => return accepted,
                ClientAction::Wait(_) => unreachable!(),
                ClientAction::Continue => {}
            }
        }
        self.runtime.internal_reference(id);
        self.finish_call(id, call)
    }

    fn flush(&mut self, id: DeviceGenerationId) -> bool {
        self.finish_call(id, ClientCall::flush())
    }

    /// Makes a service on a runner thread, unless it is there.
    fn make_service(&mut self, id: DeviceGenerationId, service: u64, given: bool) -> ServiceOutcome {
        match self.runner(id).states.initialize(service, given) {
            InitializeService::Finished(outcome) => outcome,
            InitializeService::Create => {
                if !given {
                    self.made.push(service);
                }
                let panicked = self.broken.contains(&service);
                let runner = self.runner(id);
                if !panicked {
                    runner.values.insert(service, 0);
                }
                let utilities = if panicked { None } else { Some(service + 1000) };
                runner.states.end_initialize(service, utilities)
            }
        }
    }

    fn initialize_on(
        &mut self,
        id: DeviceGenerationId,
        here: bool,
        service: u64,
        given: bool,
    ) -> ServiceOutcome {
        if here {
            return self.make_service(id, service, given);
        }
        let slot = Rc::new(Cell::new(None));
        let result = Rc::clone(&slot);
        let accepted = self.enqueue(
            id,
            Box::new(move |world: &mut World| {
                result.set(Some(world.make_service(id, service, given)));
            }),
        );
        if !accepted {
            return ServiceOutcome::Refused;
        }
        self.flush(id);
        self.drive(id);
        slot.get().unwrap()
    }

    /// Steps a thread that wants a service until it has it, fails, or waits for another thread.
    fn advance(&mut self, call: &mut Initialization) -> Option<Result<DeviceHandle, String>> {
        let mut event = InitEvent::Resume;
        loop {
            let action = call.step(&mut self.runtime, event);
            event = InitEvent::Resume;
            match action {
                InitAction::Continue => {}
                InitAction::WaitForShutdown | InitAction::WaitForChannels => return None,
                InitAction::WaitClosed(id) => match self.runtime.join_runner(id) {
                    JoinRunner::Join => {
                        self.join(id);
                    }
                    JoinRunner::Wait => return None,
                    JoinRunner::Joined | JoinRunner::Panicked => {}
                },
                InitAction::Refused => return Some(Err("refused".to_string())),
                InitAction::OwnRunner => return Some(Err("own runner".to_string())),
                InitAction::Release(lease) => {
                    let _ = self.release(lease);
                }
                InitAction::StartRunner(id) => self.start(id),
                InitAction::Initialize { generation, here } => {
                    let outcome = self.initialize_on(generation, here, call.service, call.given);
                    event = InitEvent::Initialized(outcome);
                }
                InitAction::Ready(state, lease) => {
                    if let Some(lease) = lease {
                        let _ = self.release(lease);
                    }
                    return Some(Ok(DeviceHandle::of_state(state, &self.runtime).unwrap()));
                }
                InitAction::Failed(error, lease) => {
                    if let Some(lease) = lease {
                        let _ = self.release(lease);
                    }
                    return Some(Err(error.reason().to_string()));
                }
                InitAction::Panicked(lease) => {
                    let _ = self.release(lease);
                    return Some(Err("panicked".to_string()));
                }
                InitAction::Over => unreachable!(),
            }
        }
    }

    fn handle(
        &mut self,
        device: DeviceId,
        stage: DeviceServiceStage,
        service: u64,
    ) -> Result<DeviceHandle, String> {
        let mut call = DeviceHandle::new(device, stage, service, self.thread);
        self.advance(&mut call).unwrap()
    }

    fn mock(&mut self, index_id: u16) -> DeviceHandle {
        self.handle(device(0, index_id), DeviceServiceStage::Downstream, MOCK)
            .unwrap()
    }

    fn insert(&mut self, index_id: u16, service: u64) -> Result<DeviceHandle, String> {
        let stage = DeviceServiceStage::Downstream;
        let mut call = DeviceHandle::insert(device(0, index_id), stage, service, self.thread);
        self.advance(&mut call).unwrap()
    }

    fn task_step(
        &mut self,
        id: DeviceGenerationId,
        run: &mut TaskRun,
        event: TaskEvent,
    ) -> TaskAction {
        let mut stream = self.stream;
        let action = run.step(event, &mut self.runner(id).states, &mut stream);
        self.stream = stream;
        action
    }

    /// Runs a task on the thread of a runner; no result stands for a panic.
    fn act<R>(
        &mut self,
        id: DeviceGenerationId,
        context: TaskContext,
        task: impl FnOnce(&mut World) -> Option<R>,
    ) -> Option<R> {
        let mut run = TaskRun::start(context);
        let mut action = self.task_step(id, &mut run, TaskEvent::Begin);
        if let TaskAction::Cast(cast) = action {
            self.casts.push(cast);
            action = self.task_step(id, &mut run, TaskEvent::Returned);
        }
        if let TaskAction::Refused(_) = action {
            return None;
        }
        assert_eq!(action, TaskAction::Call);
        let result = task(self);
        let event = if result.is_some() { TaskEvent::Returned } else { TaskEvent::Panicked };
        let action = self.task_step(id, &mut run, event);
        assert_eq!(action, TaskAction::Finished { returned: result.is_some() });
        result
    }

    /// Runs a task on a service, on the thread of its runner; no result stands for a panic.
    fn act_on<R>(
        &mut self,
        id: DeviceGenerationId,
        context: TaskContext,
        task: impl FnOnce(&mut World, &mut usize) -> Option<R>,
    ) -> Option<R> {
        self.act(id, context, |world| {
            let service = context.service.unwrap();
            let mut value = *world.runner(id).values.get(&service).unwrap();
            let result = task(world, &mut value);
            world.runner(id).values.insert(service, value);
            result
        })
    }

    /// Runs a task on the thread of a runner and waits for it.
    fn blocking<R: 'static>(
        &mut self,
        how: Dispatch,
        id: DeviceGenerationId,
        task: impl FnOnce(&mut World, TaskContext) -> Option<R> + 'static,
    ) -> Result<R, CallError> {
        match how {
            Dispatch::Here { context } => {
                let result = task(self, context);
                call_result(true, result)
            }
            Dispatch::Enqueue { flush, context } => {
                let slot = Rc::new(RefCell::new(None));
                let result = Rc::clone(&slot);
                let accepted = self.enqueue(
                    id,
                    Box::new(move |world: &mut World| {
                        let value = task(world, context);
                        *result.borrow_mut() = value;
                    }),
                );
                if flush {
                    self.flush(id);
                }
                self.drive(id);
                let value = slot.borrow_mut().take();
                call_result(accepted, value)
            }
        }
    }

    fn submit_blocking<R: 'static>(
        &mut self,
        handle: &DeviceHandle,
        task: impl FnOnce(&mut World, &mut usize) -> Option<R> + 'static,
    ) -> Result<R, CallError> {
        let id = handle.generation_id();
        let how = handle.submit_blocking(self.thread, self.stream);
        self.blocking(how, id, move |world, context| world.act_on(id, context, task))
    }

    fn exclusive<R: 'static>(
        &mut self,
        handle: &DeviceHandle,
        task: impl FnOnce(&mut World) -> Option<R> + 'static,
    ) -> Result<R, CallError> {
        let id = handle.generation_id();
        let how = handle.exclusive(self.thread, self.stream);
        self.blocking(how, id, move |world, context| world.act(id, context, task))
    }

    fn submit(
        &mut self,
        handle: &DeviceHandle,
        task: impl FnOnce(&mut World, &mut usize) + 'static,
    ) -> Result<(), CallError> {
        let id = handle.generation_id();
        let how = handle.submit(self.thread, self.stream);
        assert_eq!(how, handle.try_submit(self.thread, self.stream));
        let run = move |world: &mut World, context: TaskContext| {
            world.act_on(id, context, |world, value| Some(task(world, value)));
        };
        match how {
            Dispatch::Here { context } => {
                run(self, context);
                Ok(())
            }
            Dispatch::Enqueue { flush, context } => {
                assert!(!flush);
                let job = move |world: &mut World| run(world, context);
                try_submit_result(self.enqueue(id, Box::new(job)))
            }
        }
    }

    fn flush_queue(&mut self, handle: &DeviceHandle) {
        if handle.flush_queue(self.thread) {
            self.flush(handle.generation_id());
            self.drive(handle.generation_id());
        }
    }

    /// Steps a shutdown of all services to its end, or until it waits for another thread.
    fn advance_shutdown(
        &mut self,
        shutdown: &mut ServicesShutdown,
    ) -> Option<Result<(), DeviceServicesShutdownError>> {
        let mut event = ShutdownEvent::Resume;
        loop {
            let action = shutdown.step(&mut self.runtime, event);
            event = ShutdownEvent::Resume;
            match action {
                ShutdownAction::Continue => {}
                ShutdownAction::WaitForShutdown
                | ShutdownAction::WaitForInitializers
                | ShutdownAction::WaitForChannels => return None,
                ShutdownAction::Release(lease) => {
                    let _ = self.release(lease);
                }
                ShutdownAction::Close(id) => {
                    let step = self.runtime.close_forced(id, self.thread);
                    let close = self.close(step);
                    let panicked = close == Close::Join(JoinRunner::Panicked);
                    event = ShutdownEvent::Closed { panicked };
                }
                ShutdownAction::Done(result) => return Some(result),
            }
        }
    }

    fn shutdown_all(&mut self) -> Result<(), DeviceServicesShutdownError> {
        self.advance_shutdown(&mut shutdown_device_services()).unwrap()
    }
}

struct DropSpy(Rc<Cell<usize>>);

impl Drop for DropSpy {
    fn drop(&mut self) {
        self.0.set(self.0.get() + 1);
    }
}

/// How a task that needs nothing is queued.
fn queued() -> Dispatch {
    let context = TaskContext { service: None, cast: None, stream: OWN_STREAM };
    Dispatch::Enqueue { flush: true, context }
}

/// A flag, and a job that raises it.
fn raises() -> (Rc<Cell<bool>>, Job) {
    let flag = Rc::new(Cell::new(false));
    let raised = Rc::clone(&flag);
    (flag, Box::new(move |_| raised.set(true)))
}

#[test]
fn test_shutdown_waits_for_active_task_and_runs_service_shutdown() {
    let mut world = World::new();
    let client = world.client(downstream(100));
    let id = client.generation_id();
    let (stopped, on_exit) = raises();
    world.runner(id).on_exit = Some(on_exit);
    let other = client.duplicate(&mut world.runtime);
    let seen = Rc::new(Cell::new(None));
    let result = Rc::clone(&seen);
    let task_stopped = Rc::clone(&stopped);
    assert!(world.enqueue(
        id,
        Box::new(move |world: &mut World| {
            // Another thread shuts the runner down while the task is active.
            let step = world.on_thread(None, |world| other.shutdown(&mut world.runtime, None));
            assert_eq!(step.close, Close::Join(JoinRunner::Join));
            let runner = world.runner(step.generation);
            runner.channel.stop_accepting();
            runner.channel.request_close();
            result.set(Some(step.generation));
            assert!(!task_stopped.get(), "shutdown must wait for the active task");
        }),
    ));
    assert!(world.flush(id));
    world.drive(id);
    assert_eq!(seen.get(), Some(id));
    assert_eq!(world.join(id), JoinRunner::Joined);
    assert!(stopped.get(), "service shutdown should run before the runner exits");
    assert_eq!(world.status(id), GenerationStatus::Closed);
}

#[test]
fn test_shutdown_drains_buffered_tasks_and_drops_captures() {
    let mut world = World::new();
    let client = world.client(downstream(101));
    let id = client.generation_id();
    let drops = Rc::new(Cell::new(0));
    let runs = Rc::new(Cell::new(0));
    let spy = DropSpy(Rc::clone(&drops));
    let run_count = Rc::clone(&runs);
    assert!(world.enqueue(
        id,
        Box::new(move |_| {
            let _ = &spy;
            run_count.set(run_count.get() + 1);
        }),
    ));
    world.drive(id);
    assert_eq!(runs.get(), 0);
    assert_eq!(world.shutdown_client(&client), Close::Join(JoinRunner::Joined));
    assert_eq!(runs.get(), 1);
    assert_eq!(drops.get(), 1);
    assert!(!world.runner(id).channel.is_accepting());
    assert!(!world.enqueue(id, Box::new(|_| unreachable!())));
}

#[test]
fn test_final_external_drop_off_runner_closes_generation() {
    let mut world = World::new();
    let client = world.client(downstream(102));
    let (stopped, on_exit) = raises();
    world.runner(client.generation_id()).on_exit = Some(on_exit);
    world.drop_client(client);
    assert!(stopped.get(), "final external drop should join the runner");
}

#[test]
fn test_explicit_final_lease_release_closes_generation() {
    let mut world = World::new();
    let client = world.client(downstream(109));
    let id = client.generation_id();
    let (stopped, on_exit) = raises();
    world.runner(id).on_exit = Some(on_exit);
    let (ready, job) = raises();
    assert!(world.enqueue(id, job));
    world.flush(id);
    world.drive(id);
    assert!(ready.get());
    let lease = client.external_lease(&mut world.runtime);
    world.drop_client(client);

    assert_eq!(world.release(lease).unwrap(), DeviceLeaseRelease::Closed);
    assert!(stopped.get(), "final explicit release should join the runner");
}

#[test]
fn test_explicit_shared_lease_release_leaves_generation_running() {
    let mut world = World::new();
    let client = world.client(downstream(110));
    let id = client.generation_id();
    let (stopped, on_exit) = raises();
    world.runner(id).on_exit = Some(on_exit);
    let (ready, job) = raises();
    assert!(world.enqueue(id, job));
    world.flush(id);
    world.drive(id);
    assert!(ready.get());
    let lease = client.external_lease(&mut world.runtime);

    assert_eq!(world.release(lease).unwrap(), DeviceLeaseRelease::Shared);
    assert_eq!(client.generation_status(&world.runtime), GenerationStatus::Running);
    assert!(!stopped.get());

    world.drop_client(client);
    assert!(stopped.get(), "the remaining owner should close the runner");
}

#[test]
fn test_explicit_final_release_reports_closed_runner_panic() {
    let mut world = World::new();
    let client = world.client(downstream(111));
    let generation_id = client.generation_id();
    world.runner(generation_id).panics = true;
    let lease = client.external_lease(&mut world.runtime);
    world.drop_client(client);

    let error = world.release(lease).unwrap_err();
    assert_eq!(error.generation_id(), generation_id);
}

#[test]
fn test_explicit_final_release_on_runner_reports_closing() {
    let mut world = World::new();
    let client = world.client(downstream(112));
    let id = client.generation_id();
    let (stopped, on_exit) = raises();
    world.runner(id).on_exit = Some(on_exit);
    let lease = client.external_lease(&mut world.runtime);
    let outcome = Rc::new(Cell::new(None));
    let result = Rc::clone(&outcome);
    assert!(world.enqueue(
        id,
        Box::new(move |world: &mut World| result.set(Some(world.release(lease).unwrap()))),
    ));
    world.flush(id);
    world.drop_client(client);
    world.drive(id);

    assert_eq!(outcome.get(), Some(DeviceLeaseRelease::Closing));
    world.run_joiners();
    assert!(
        stopped.get(),
        "delegated join should complete after the runner task returns"
    );
    assert_eq!(world.status(id), GenerationStatus::Closed);
}

#[test]
fn test_registered_final_drop_closes_and_recreates_generation() {
    let mut world = World::new();
    let first = world.insert(113, OTHER).unwrap();
    let first_generation = first.generation_id();
    world.drop_handle(first);
    assert_eq!(
        world.shut_down,
        vec![(first_generation, OTHER)],
        "weak registries must not pin the first generation"
    );

    let second = world.insert(113, OTHER).unwrap();
    let second_generation = second.generation_id();
    assert_ne!(first_generation, second_generation);
    world.drop_handle(second);
    assert_eq!(
        world.shut_down,
        vec![(first_generation, OTHER), (second_generation, OTHER)],
        "replacement generation should also close on final drop"
    );
    assert!(world.made.is_empty());
}

#[test]
fn test_generation_metrics_track_create_and_close() {
    let mut world = World::new();
    let before = device_generation_metrics(&world.runtime.counters());
    for index_id in [118, 119] {
        let handle = world.mock(index_id);
        world.drop_handle(handle);
    }
    let delta = device_generation_metrics(&world.runtime.counters()).delta(before);

    assert_eq!(2, delta.created_generations());
    assert_eq!(2, delta.closed_generations());
    assert_eq!(0, delta.active_generations());
}

#[test]
fn test_lease_reattaches_service_without_reinitializing() {
    let mut world = World::new();
    let first = world.mock(114);
    let generation = first.generation_id();
    let lease = first.lease(&mut world.runtime);
    world.drop_handle(first);

    let second = world.mock(114);
    assert_eq!(generation, second.generation_id());
    assert_eq!(world.made.len(), 1);

    assert_eq!(world.release_lease(lease).unwrap(), DeviceLeaseRelease::Shared);
    world.drop_handle(second);
    assert_eq!(world.status(generation), GenerationStatus::Closed);
}

#[test]
fn test_closing_generation_waiters_share_one_replacement() {
    let mut world = World::new();
    let old = world.insert(115, MOCK).unwrap();
    let closing = old.generation_id();
    let step = world.runtime.close_forced(closing, None);
    assert_eq!(step.close, Close::Join(JoinRunner::Join));
    let stage = DeviceServiceStage::Downstream;
    let mut first_waiter = DeviceHandle::new(device(0, 115), stage, MOCK, None);
    let mut second_waiter = DeviceHandle::new(device(0, 115), stage, MOCK, None);
    assert!(world.advance(&mut first_waiter).is_none());
    assert!(world.advance(&mut second_waiter).is_none());
    assert_eq!(world.close(step), Close::Join(JoinRunner::Joined));

    let first = world.advance(&mut first_waiter).unwrap().unwrap();
    let second = world.advance(&mut second_waiter).unwrap().unwrap();
    assert_eq!(first.generation_id(), second.generation_id());
    assert_ne!(first.generation_id(), closing);
    assert_eq!(world.made.len(), 1);

    world.drop_handle(old);
    world.drop_handle(first);
    world.drop_handle(second);
    assert_eq!(device_generation_metrics(&world.runtime.counters()).active_generations(), 0);
}

#[test]
fn test_concurrent_final_drop_and_reacquire_returns_usable_generation() {
    const ITERATIONS: u16 = 100;
    for iteration in 0..ITERATIONS {
        let device_id = device(0, 400 + iteration);
        let mut world = World::new();
        let old = world.mock(device_id.index_id);
        let stage = DeviceServiceStage::Downstream;
        let mut call = DeviceHandle::new(device_id, stage, MOCK, None);
        let mut old = Some(old);
        // The handle is dropped before, between or after the steps of the other thread.
        for _ in 0..iteration % 4 {
            if let InitAction::Ready(..) = call.step(&mut world.runtime, InitEvent::Resume) {
                call = DeviceHandle::new(device_id, stage, MOCK, None);
            }
        }
        world.drop_handle(old.take().unwrap());
        let current = world.advance(&mut call).unwrap().unwrap();
        assert_eq!(current.device_id(), device_id);
        assert_eq!(world.submit_blocking(&current, |_, value| Some(*value)).unwrap(), 0);
        world.drop_handle(current);
    }
}

#[test]
fn test_stale_channel_is_not_reused_after_forced_shutdown() {
    let mut world = World::new();
    let stale = world.mock(117);
    let stale_generation = stale.generation_id();
    let step = world.runtime.close_forced(stale_generation, None);
    assert_eq!(world.close(step), Close::Join(JoinRunner::Joined));

    let replacement = world.mock(117);
    assert_ne!(stale_generation, replacement.generation_id());
    assert_eq!(
        world.submit_blocking(&replacement, |_, value| Some(*value)).unwrap(),
        0
    );
    assert_eq!(replacement.device_id(), device(0, 117));
    assert!(world.submit_blocking(&stale, |_, value| Some(*value)).is_err());

    world.drop_handle(stale);
    world.drop_handle(replacement);
}

#[test]
fn test_strong_registry_rollback_switch() {
    let mut world = World::with_registries(true);
    let first = world.insert(116, OTHER).unwrap();
    let generation = first.generation_id();
    world.drop_handle(first);

    assert!(
        world.shut_down.is_empty(),
        "strong registry rollback must pin the generation"
    );
    let second = world
        .handle(device(0, 116), DeviceServiceStage::Downstream, OTHER)
        .unwrap();
    assert_eq!(generation, second.generation_id());
    world.drop_handle(second);

    world.shutdown_all().unwrap();
    assert_eq!(
        world.shut_down,
        vec![(generation, OTHER)],
        "explicit shutdown should release strong registry pins"
    );
}

#[test]
fn test_final_external_drop_on_runner_delegates_join() {
    let mut world = World::new();
    let client = world.client(downstream(103));
    let id = client.generation_id();
    let (stopped, on_exit) = raises();
    world.runner(id).on_exit = Some(on_exit);
    let task_client = client.duplicate(&mut world.runtime);
    assert!(world.enqueue(
        id,
        Box::new(move |world: &mut World| {
            world.drop_client(task_client);
            assert_eq!(world.joiners, vec![id]);
        }),
    ));
    world.flush(id);
    world.drop_client(client);
    assert_eq!(world.status(id), GenerationStatus::Running);
    world.drive(id);
    world.run_joiners();
    assert!(
        stopped.get(),
        "runner should tear down after the triggering task returns"
    );
    assert_eq!(world.status(id), GenerationStatus::Closed);
    assert_eq!(joiner_thread_name(downstream(103)), "DS-J-0-103");
}

#[test]
fn test_generation_reference_counts_are_independent() {
    let mut world = World::new();
    let client = world.client(downstream(104));
    let id = client.generation_id();

    assert_eq!(client.external_count(&world.runtime), 1);
    assert_eq!(client.internal_count(&world.runtime), 1);

    let clone = client.duplicate(&mut world.runtime);
    assert_eq!(client.external_count(&world.runtime), 2);
    world.drop_client(clone);
    assert_eq!(client.external_count(&world.runtime), 1);

    let count = Rc::new(Cell::new(0));
    let result = Rc::clone(&count);
    assert!(world.enqueue(
        id,
        Box::new(move |world: &mut World| {
            result.set(world.runtime.generation(id).unwrap().internal_count);
        }),
    ));
    world.flush(id);
    assert_eq!(client.internal_count(&world.runtime), 2);
    world.drive(id);
    assert_eq!(count.get(), 2);

    assert_eq!(world.shutdown_client(&client), Close::Join(JoinRunner::Joined));
    assert_eq!(client.internal_count(&world.runtime), 0);
    assert_eq!(client.generation_status(&world.runtime), GenerationStatus::Closed);
}

#[test]
fn test_concurrent_close_is_idempotent() {
    const CLOSERS: usize = 4;
    let mut world = World::new();
    let client = world.client(downstream(105));
    let id = client.generation_id();
    let shutdowns = Rc::new(Cell::new(0));
    let count = Rc::clone(&shutdowns);
    world.runner(id).on_exit = Some(Box::new(move |_| count.set(count.get() + 1)));

    // All of them begin to close before one of them joins the runner.
    let mut steps = Vec::new();
    for _ in 0..CLOSERS {
        steps.push(client.shutdown(&mut world.runtime, None));
    }
    let joins: Vec<Close> = steps.iter().map(|step| step.close).collect();
    assert_eq!(joins[0], Close::Join(JoinRunner::Join));
    assert!(joins[1..].iter().all(|close| *close == Close::Join(JoinRunner::Wait)));
    let first = steps.remove(0);
    assert_eq!(world.close(first), Close::Join(JoinRunner::Joined));
    for step in steps {
        assert!(!step.stop_channel);
        assert_eq!(world.runtime.join_runner(step.generation), JoinRunner::Joined);
    }

    assert_eq!(shutdowns.get(), 1);
    assert_eq!(client.generation_status(&world.runtime), GenerationStatus::Closed);
    assert_eq!(world.runtime.counters().closed, 1);
}

#[test]
fn test_close_drains_tasks_accepted_concurrently() {
    const PRODUCERS: usize = 4;
    const ITERATIONS: u16 = 100;

    for iteration in 0..ITERATIONS {
        let mut world = World::new();
        let client = world.client(downstream(200 + iteration));
        let id = client.generation_id();
        let executed = Rc::new(Cell::new(0));
        let mut accepted = 0;
        let mut calls: Vec<ClientCall<Job>> = Vec::new();
        for _ in 0..PRODUCERS {
            let count = Rc::clone(&executed);
            calls.push(ClientCall::enqueue(Box::new(move |_: &mut World| {
                count.set(count.get() + 1);
            })));
        }
        // The closer cuts in after as many steps as the iteration says, and the runner takes a step
        // after each step of a producer.
        let mut steps = 0;
        let mut closed = None;
        while !calls.is_empty() {
            let turn = (steps * 7 + usize::from(iteration)) % calls.len();
            let runner = world.runner(id);
            if let ClientAction::Done(taken) = calls[turn].step(&mut runner.channel) {
                accepted += usize::from(taken);
                calls.remove(turn);
            }
            if let ServerAction::Run(job) = runner.server.step(&mut runner.channel) {
                job(&mut world);
            }
            steps += 1;
            if closed.is_none() && steps > usize::from(iteration) / 3 {
                let step = client.shutdown(&mut world.runtime, None);
                let runner = world.runner(id);
                runner.channel.stop_accepting();
                runner.channel.request_close();
                closed = Some(step);
            }
        }
        let step = closed.unwrap_or_else(|| client.shutdown(&mut world.runtime, None));
        assert_eq!(world.close(step), Close::Join(JoinRunner::Joined));
        assert_eq!(
            accepted,
            executed.get(),
            "Iteration {iteration} lost an accepted task"
        );
    }
}

#[test]
fn test_stale_generation_close_does_not_close_replacement() {
    let mut world = World::new();
    let runner_id = downstream(106);
    let old_client = world.client(runner_id);
    let stale_client = old_client.duplicate(&mut world.runtime);
    let old_generation = old_client.generation_id();
    assert_eq!(world.shutdown_client(&old_client), Close::Join(JoinRunner::Joined));

    let new_client = world.client(runner_id);
    let new_generation = new_client.generation_id();
    assert_ne!(old_generation, new_generation);

    assert_eq!(world.shutdown_client(&stale_client), Close::Join(JoinRunner::Joined));
    let (ran, job) = raises();
    assert!(world.enqueue(new_generation, job));
    world.flush(new_generation);
    world.drive(new_generation);
    assert!(
        ran.get(),
        "stale close must not affect the replacement generation"
    );
    assert_eq!(world.shutdown_client(&new_client), Close::Join(JoinRunner::Joined));
}

#[test]
fn test_basic_execution_and_state_persistence() {
    let mut world = World::new();
    let handle = world.mock(1);
    let count = |_: &mut World, counter: &mut usize| {
        *counter += 1;
        Some(*counter)
    };

    // Task 1: Increment the counter
    let res = world.submit_blocking(&handle, count).unwrap();

    // Task 2: Increment again to ensure it's the same state instance
    let res2 = world.submit_blocking(&handle, count).unwrap();

    assert_eq!(res, 1);
    assert_eq!(res2, 2);
}

#[test]
fn test_services_share_generation_by_runner_id() {
    let mut world = World::new();
    let first = world.mock(107);
    let second = world
        .handle(device(0, 107), DeviceServiceStage::Downstream, OTHER)
        .unwrap();
    let upstream = world
        .handle(device(0, 107), DeviceServiceStage::Upstream, UPSTREAM)
        .unwrap();

    assert_eq!(first.generation_id(), second.generation_id());
    assert_ne!(first.generation_id(), upstream.generation_id());

    let count =
        |world: &World| world.runtime.generation(first.generation_id()).unwrap().external_count;
    let external_count = count(&world);
    let lease = first.lease(&mut world.runtime);
    assert_eq!(lease.generation_id(), Some(first.generation_id()));
    assert_eq!(count(&world), external_count + 1);
    world.release_lease(lease).unwrap();
    assert_eq!(count(&world), external_count);
    assert_eq!(first.runner_id(), downstream(107));
    assert_ne!(first.service_id(), second.service_id());
}

#[test]
fn test_staged_shutdown_allows_upstream_to_initialize_downstream() {
    let mut world = World::new();
    let parked = Rc::new(RefCell::new(DeviceHandle::new(
        device(9, 5),
        DeviceServiceStage::Downstream,
        EXTERNAL,
        None,
    )));
    let waiting = Rc::clone(&parked);
    world.on_shutdown.insert(
        UPSTREAM,
        Rc::new(move |world: &mut World| {
            world.events.push("upstream_start");
            // A thread that is no runner is parked during the shutdown.
            let external =
                world.on_thread(None, |world| world.advance(&mut waiting.borrow_mut()));
            assert!(
                external.is_none(),
                "external initialization must remain parked during shutdown"
            );

            let made = world.made.len();
            let downstream = world
                .handle(device(9, 2), DeviceServiceStage::Downstream, DOWNSTREAM)
                .unwrap();
            assert_eq!(world.made.len(), made + 1);
            world.events.push("downstream_init");
            world
                .submit_blocking(&downstream, |world, _| {
                    world.events.push("downstream_use");
                    Some(())
                })
                .unwrap();
            assert_eq!(
                downstream.generation_status(&world.runtime),
                Some(GenerationStatus::Running)
            );
            world.drop_handle(downstream);

            let rejected = world.handle(device(9, 3), DeviceServiceStage::Upstream, OTHER);
            assert_eq!(rejected, Err("refused".to_string()));
            world.events.push("same_stage_rejected");
            world.events.push("upstream_done");
        }),
    );
    world.on_shutdown.insert(
        DOWNSTREAM,
        Rc::new(|world: &mut World| {
            let rejected = world.handle(device(9, 4), DeviceServiceStage::Upstream, OTHER);
            assert_eq!(rejected, Err("refused".to_string()));
            world.events.push("downstream_to_upstream_rejected");
            world.events.push("downstream_shutdown");
        }),
    );

    let upstream = world
        .handle(device(9, 1), DeviceServiceStage::Upstream, UPSTREAM)
        .unwrap();
    world.shutdown_all().unwrap();

    let events = world.events.clone();
    assert_eq!(events[0], "upstream_start");
    assert_eq!(events.len(), 7);
    let position = |event| events.iter().position(|item| *item == event).unwrap();
    assert!(position("downstream_init") < position("downstream_use"));
    assert!(position("same_stage_rejected") < position("upstream_done"));
    assert!(position("downstream_to_upstream_rejected") < position("downstream_shutdown"));

    let external = world.advance(&mut parked.borrow_mut()).unwrap().unwrap();
    world.drop_handle(upstream);
    world.drop_handle(external);
    world.shutdown_all().unwrap();
}

#[test]
fn test_on_runner_close_releases_service_borrow_before_shutdown() {
    let mut world = World::new();
    let handle = world.insert(108, OTHER).unwrap();
    let id = handle.generation_id();
    world
        .submit(&handle, move |world, _| {
            let step = world.runtime.close_forced(id, world.thread);
            assert_eq!(step.close, Close::Delegate(true));
            world.close(step);
            // The service is still borrowed, and not shut down yet.
            assert_eq!(world.runner(id).states.act_on(OTHER), Err(ActOnError::AlreadyBorrowed));
            assert!(world.shut_down.is_empty());
        })
        .unwrap();
    world.flush_queue(&handle);
    world.drive(id);
    world.run_joiners();

    assert_eq!(
        world.shut_down,
        vec![(id, OTHER)],
        "service shutdown should run after the task releases its borrow"
    );
}

#[test]
fn test_scoped_tasks_and_lifetimes() {
    let mut world = World::new();
    let handle = world.mock(3);
    let local_val = 42; // This lives on the test stack

    let result = world.exclusive(&handle, move |_| Some(local_val + 8)).unwrap();
    assert_eq!(result, 50);

    let result_mut = world
        .submit_blocking(&handle, move |_, counter| {
            *counter = local_val;
            Some(*counter)
        })
        .unwrap();
    assert_eq!(result_mut, 42);
}

#[test]
fn test_buffer_flushing_at_limit() {
    let mut world = World::new();
    let handle = world.mock(4);
    let completed_count = Rc::new(Cell::new(0));

    // We fill exactly CHANNEL_MAX_TASK
    // The last task should trigger a buffer swap/fetch.
    for _ in 0..CHANNEL_MAX_TASK {
        let counter = Rc::clone(&completed_count);
        world
            .submit(&handle, move |_, _| counter.set(counter.get() + 1))
            .unwrap();
    }
    world.drive(handle.generation_id());
    assert_eq!(completed_count.get(), 32);

    let _ = world.submit_blocking(&handle, |_, _| Some(()));
    assert_eq!(completed_count.get(), 32);
}

#[test]
fn test_manual_flush_for_partial_buffer() {
    let mut world = World::new();
    let handle = world.mock(5);
    let id = handle.generation_id();
    let (tx, rx) = oneshot::channel();

    // Send only 1 task (buffer is not full)
    world
        .submit(&handle, move |_, _| {
            tx.send(true).unwrap();
        })
        .unwrap();
    world.drive(id);
    assert!(rx.try_recv().is_err());

    // This would hang forever if flush() didn't fill the buffer with no-ops
    assert!(world.flush(id));
    world.drive(id);

    let received = rx
        .recv_timeout(Duration::from_secs(1))
        .expect("Task was not flushed and processed in time");
    assert!(received);
}

#[test]
fn test_closure_captures_are_dropped_after_execution() {
    let mut world = World::new();
    let handle = world.mock(6);

    // This counter will track how many times our "Spy" is dropped.
    let drop_count = Rc::new(Cell::new(0));
    let spy = DropSpy(Rc::clone(&drop_count));

    world
        .submit_blocking(&handle, move |_, _| {
            // Accessing spy here to ensure it's captured.
            let _ = &spy;
            Some(())
        })
        .expect("Task execution failed");

    assert_eq!(drop_count.get(), 1, "Capture was not dropped after execution");
}

#[test]
fn test_large_closure_uses_arena() {
    let mut world = World::new();
    let handle = world.mock(7);

    let big_data = [42u8; 128]; // 128 bytes > 40 byte inline limit
    let result = world
        .submit_blocking(&handle, move |_, _| {
            // Use big_data to prevent it from being optimized away.
            Some(big_data[0] + big_data[127])
        })
        .unwrap();

    assert_eq!(result, 84);
}

#[test]
fn test_extra_large_closure_uses_box() {
    let mut world = World::new();
    let handle = world.mock(8);

    let huge_data = [7u8; 8192]; // 8KB > 4096 byte arena limit
    let result = world
        .submit_blocking(&handle, move |_, _| Some(huge_data[0] + huge_data[8191]))
        .unwrap();

    assert_eq!(result, 14);
}

#[test]
fn test_large_closure_drop_is_called() {
    let mut world = World::new();
    let handle = world.mock(9);
    let drop_count = Rc::new(Cell::new(0));
    let spy = (DropSpy(Rc::clone(&drop_count)), [0u8; 128]);

    world
        .submit_blocking(&handle, move |_, _| {
            let _ = &spy;
            Some(())
        })
        .unwrap();

    assert_eq!(drop_count.get(), 1);
}

#[test]
fn test_init_runs_exactly_once_under_contention() {
    const THREADS: usize = 4;
    let device_id = device(0, 77);
    let mut world = World::new();
    let mut calls: Vec<Initialization> = (0..THREADS)
        .map(|_| DeviceHandle::new(device_id, DeviceServiceStage::Downstream, MOCK, None))
        .collect();

    // All pass the barrier; one looks for the service, and the others wait for it.
    for call in calls.iter_mut() {
        let action = call.step(&mut world.runtime, InitEvent::Resume);
        assert!(matches!(action, InitAction::Continue));
    }
    let action = calls[2].step(&mut world.runtime, InitEvent::Resume);
    assert!(matches!(action, InitAction::Continue));
    for index in [0, 1, 3] {
        assert!(world.advance(&mut calls[index]).is_none());
    }
    let mut generation_ids = Vec::new();
    for index in [2, 0, 1, 3] {
        let handle = world.advance(&mut calls[index]).unwrap().unwrap();
        generation_ids.push(handle.generation_id());
    }

    assert_eq!(
        world.made.len(),
        1,
        "CountingService::init must run exactly once across {THREADS} racing callers"
    );
    assert!(
        generation_ids.windows(2).all(|ids| ids[0] == ids[1]),
        "Concurrent initialization must reuse one generation"
    );
}

#[test]
fn test_submit_blocking_panic_drops_and_returns_err() {
    let mut world = World::new();
    let handle = world.mock(10);
    let drop_count = Rc::new(Cell::new(0));

    let spy = DropSpy(Rc::clone(&drop_count));
    let result: Result<(), CallError> = world.submit_blocking(&handle, move |_, _| {
        let _ = &spy;
        None
    });

    assert!(result.is_err(), "panicking task must return Err");
    assert_eq!(
        drop_count.get(),
        1,
        "captures must be dropped exactly once on panic"
    );

    // Channel survives: next task still runs.
    let ok = world.submit_blocking(&handle, |_, counter| Some(*counter)).unwrap();
    assert_eq!(ok, 0);
}

#[test]
fn test_exclusive_panic_drops_and_returns_err() {
    let mut world = World::new();
    let handle = world.mock(11);
    let drop_count = Rc::new(Cell::new(0));

    let spy = DropSpy(Rc::clone(&drop_count));
    let result: Result<(), CallError> = world.exclusive(&handle, move |_| {
        let _ = &spy;
        None
    });

    assert!(result.is_err());
    assert_eq!(drop_count.get(), 1);
    let ok = world.exclusive(&handle, |_| Some(7)).unwrap();
    assert_eq!(ok, 7);
}

#[test]
fn a_service_is_not_inserted_twice() {
    let mut world = World::new();
    let first = world.insert(20, OTHER).unwrap();
    assert_eq!(
        world.insert(20, OTHER),
        Err("Service already initialized.".to_string())
    );
    // The lease keeps the service on its runner, though nobody has a handle to it.
    let lease = first.lease(&mut world.runtime);
    world.drop_handle(first);
    assert_eq!(
        world.insert(20, OTHER),
        Err("Service already initialized.".to_string())
    );
    assert_eq!(world.release_lease(lease).unwrap(), DeviceLeaseRelease::Closed);
    assert!(world.insert(20, OTHER).is_ok());
}

#[test]
fn a_failed_initialization_lets_its_runner_go() {
    let mut world = World::new();
    world.broken.push(OTHER);
    let stage = DeviceServiceStage::Downstream;
    assert_eq!(
        world.handle(device(0, 21), stage, OTHER),
        Err("panicked".to_string())
    );
    assert_eq!(device_generation_metrics(&world.runtime.counters()).active_generations(), 0);
    // On the runner itself the panic is reported as an error.
    let handle = world.mock(21);
    let id = handle.generation_id();
    let result = world
        .exclusive(&handle, |_| Some(()))
        .and_then(|_| {
            world.blocking(queued(), id, move |world, _| {
                Some(world.handle(device(0, 21), stage, OTHER))
            })
        })
        .unwrap();
    assert_eq!(
        result,
        Err("Service initialization failed: Any { .. }".to_string())
    );
    assert!(world.runtime.is_quiet());
    assert!(!world.runtime.is_initializing());
    world.drop_handle(handle);
}

#[test]
fn a_runner_does_not_wait_for_itself() {
    let mut world = World::new();
    let handle = world.mock(22);
    let id = handle.generation_id();
    let stream = StreamId { value: 4 };
    let context = TaskContext { service: Some(MOCK), cast: None, stream };
    let bare = TaskContext { service: None, ..context };
    let runner = Some(downstream(22));
    assert_eq!(handle.submit(None, stream), Dispatch::Enqueue { flush: false, context });
    assert_eq!(handle.submit_blocking(None, stream), Dispatch::Enqueue { flush: true, context });
    assert_eq!(
        handle.exclusive(None, stream),
        Dispatch::Enqueue { flush: true, context: bare }
    );
    assert_eq!(handle.submit(runner, stream), Dispatch::Here { context });
    assert_eq!(handle.submit_blocking(runner, stream), Dispatch::Here { context });
    assert_eq!(handle.exclusive(runner, stream), Dispatch::Here { context: bare });
    assert!(!handle.flush_queue(Some(downstream(22))));
    assert!(handle.flush_queue(Some(downstream(23))));
    assert!(!DeviceHandle::is_blocking());
    // A generation that is about to be closed is not awaited on its own runner.
    let result = world
        .blocking(queued(), id, move |world, _| {
            let step = world.runtime.close_forced(id, world.thread);
            world.close(step);
            Some(world.handle(device(0, 22), DeviceServiceStage::Downstream, OTHER))
        })
        .unwrap();
    assert_eq!(result, Err("own runner".to_string()));
    world.run_joiners();
    assert_eq!(world.status(id), GenerationStatus::Closed);
    world.drop_handle(handle);
}

#[test]
fn handles_to_a_service_share_its_utilities() {
    let mut world = World::new();
    let first = world.mock(31);
    let lease = first.lease(&mut world.runtime);
    assert_eq!(first.utilities(), MOCK + 1000);
    let service_id = first.service_id();
    world.drop_handle(first);
    let second = world.mock(31);
    assert_eq!(second.utilities(), MOCK + 1000);
    assert_eq!(second.cast(), None);
    let seen = second.seen_as(6);
    assert_eq!(seen.cast(), Some(6));
    assert_eq!(seen.service_id(), service_id);
    assert_eq!(seen.device_id(), device(0, 31));
    assert_eq!(seen.duplicate(&mut world.runtime).cast(), Some(6));
    world.release_lease(lease).unwrap();
}

#[test]
fn tasks_run_on_the_stream_of_their_caller() {
    let mut world = World::new();
    let handle = world.mock(32);
    let id = handle.generation_id();
    world.stream = StreamId { value: 7 };
    assert_eq!(world.submit_blocking(&handle, |world, _| Some(world.stream.value)).unwrap(), 7);
    assert_eq!(world.exclusive(&handle, |world| Some(world.stream.value)).unwrap(), 7);
    let seen = Rc::new(Cell::new(0));
    let stream = Rc::clone(&seen);
    world.submit(&handle, move |world, _| stream.set(world.stream.value)).unwrap();
    world.stream = StreamId { value: 8 };
    world.flush_queue(&handle);
    assert_eq!(seen.get(), 7);
    // A task that panics leaves its thread on the stream that it had.
    let failed: Result<(), CallError> = world.submit_blocking(&handle, |_, _| None);
    assert!(failed.is_err());
    let own = world.blocking(queued(), id, |world, _| Some(world.stream)).unwrap();
    assert_eq!(own, OWN_STREAM);
    assert_eq!(world.stream.value, 8);
    world.drop_handle(handle);
}

#[test]
fn the_cast_of_a_handle_is_applied_once_per_task() {
    let mut world = World::new();
    let handle = world.mock(33).seen_as(6);
    assert!(world.casts.is_empty());
    let increment = |_: &mut World, counter: &mut usize| {
        *counter += 1;
        Some(*counter)
    };
    assert_eq!(world.submit_blocking(&handle, increment).unwrap(), 1);
    assert_eq!(world.casts, vec![6]);
    let failed: Result<(), CallError> = world.submit_blocking(&handle, |_, _| None);
    assert!(failed.is_err());
    assert_eq!(world.casts, vec![6, 6]);
    assert_eq!(world.exclusive(&handle, |_| Some(3)).unwrap(), 3);
    assert_eq!(world.casts, vec![6, 6]);
    let plain = world.mock(33);
    assert_eq!(world.submit_blocking(&plain, increment).unwrap(), 2);
    assert_eq!(world.casts, vec![6, 6]);
    world.drop_handle(plain);
    world.drop_handle(handle);
}

#[test]
fn a_shutdown_of_one_device_leaves_the_others_alone() {
    let mut world = World::new();
    let first = world.mock(34);
    let upstream = world
        .handle(device(0, 34), DeviceServiceStage::Upstream, UPSTREAM)
        .unwrap();
    let other = world.mock(35);
    let mut shutdown = DeviceHandle::shutdown(device(0, 34), None);
    assert_eq!(world.advance_shutdown(&mut shutdown).unwrap(), Ok(()));
    assert_eq!(world.status(first.generation_id()), GenerationStatus::Closed);
    assert_eq!(world.status(upstream.generation_id()), GenerationStatus::Closed);
    assert_eq!(world.status(other.generation_id()), GenerationStatus::Running);
    assert_eq!(world.submit_blocking(&other, |_, value| Some(*value)).unwrap(), 0);
    world.drop_handle(first);
    world.drop_handle(upstream);
    world.drop_handle(other);
}

#[test]
fn shared_handles_keep_the_generation_open() {
    let mut world = World::new();
    let first = world.mock(24);
    let id = first.generation_id();
    let second = first.duplicate(&mut world.runtime);
    let third = world.mock(24);
    assert!(second == first && third == first);
    world.drop_handle(first);
    world.drop_handle(third);
    assert_eq!(world.status(id), GenerationStatus::Running);
    world.drop_handle(second);
    assert_eq!(world.status(id), GenerationStatus::Closed);
}

#[test]
fn an_abandoned_initialization_gives_back_what_it_holds() {
    let mut world = World::new();
    let stage = DeviceServiceStage::Downstream;
    let mut call = DeviceHandle::new(device(0, 25), stage, MOCK, None);
    // Past the barrier, in the registry, and at a runner that is to be started.
    for _ in 0..3 {
        call.step(&mut world.runtime, InitEvent::Resume);
    }
    assert!(world.runtime.is_initializing());
    assert!(!world.runtime.is_quiet());
    let lease = call.abandon(&mut world.runtime).unwrap();
    assert!(!world.runtime.is_initializing());
    assert!(world.runtime.is_quiet());
    let id = lease.generation_id();
    world.start(id);
    world.release(lease).unwrap();
    assert_eq!(world.status(id), GenerationStatus::Closed);
}

#[test]
fn a_shutdown_waits_for_initializers_and_for_another_shutdown() {
    let mut world = World::new();
    let stage = DeviceServiceStage::Downstream;
    let mut call = DeviceHandle::new(device(0, 26), stage, MOCK, None);
    call.step(&mut world.runtime, InitEvent::Resume);
    let mut shutdown = shutdown_device_services();
    assert!(world.advance_shutdown(&mut shutdown).is_none());
    let mut second = shutdown_device_services();
    assert!(world.advance_shutdown(&mut second).is_none());
    let handle = world.advance(&mut call).unwrap().unwrap();
    let id = handle.generation_id();
    assert!(world.advance_shutdown(&mut shutdown).unwrap().is_ok());
    assert_eq!(world.shut_down, vec![(id, MOCK)]);
    assert!(world.advance_shutdown(&mut second).unwrap().is_ok());
    world.drop_handle(handle);
    assert_eq!(world.runtime.counters().closed, 1);
}

#[test]
fn a_shutdown_counts_the_runners_that_panicked() {
    let mut world = World::new();
    let handles = [world.mock(27), world.mock(28), world.mock(29)];
    for handle in &handles[1..] {
        let id = handle.generation_id();
        world.runner(id).panics = true;
    }
    let error = world.shutdown_all().unwrap_err();
    assert_eq!(error.runner_panics(), 2);
    assert_eq!(world.runtime.counters().closed, 3);
    for handle in handles {
        world.drop_handle(handle);
    }
}

#[test]
fn a_failed_delegation_can_be_tried_again() {
    let mut world = World::new();
    let client = world.client(downstream(30));
    let id = client.generation_id();
    let step = client.shutdown(&mut world.runtime, Some(downstream(30)));
    assert_eq!(step.close, Close::Delegate(true));
    assert!(step.stop_channel);
    let again = client.shutdown(&mut world.runtime, Some(downstream(30)));
    assert_eq!(again.close, Close::Delegate(false));
    world.runtime.delegation_failed(id);
    let retried = client.shutdown(&mut world.runtime, Some(downstream(30)));
    assert_eq!(retried.close, Close::Delegate(true));
    let runner = world.runner(id);
    runner.channel.stop_accepting();
    runner.channel.request_close();
    world.joiners.push(id);
    world.run_joiners();
    assert_eq!(world.status(id), GenerationStatus::Closed);
    assert_eq!(client.runner_id(), downstream(30));
}

#[test]
fn a_panic_that_was_reported_is_not_counted_again() {
    let mut world = World::new();
    let first = world.mock(32);
    let second = world.mock(33);
    for handle in [&first, &second] {
        let id = handle.generation_id();
        world.runner(id).panics = true;
    }
    // Nobody refers to the first generation any more; the second one is closed but still in use.
    world.drop_handle(first);
    let step = world.runtime.close_forced(second.generation_id(), None);
    assert_eq!(world.close(step), Close::Join(JoinRunner::Panicked));
    assert_eq!(world.shutdown_all().unwrap_err().runner_panics(), 1);
    world.drop_handle(second);
    assert!(world.shutdown_all().is_ok());
}

#[test]
fn one_device_is_shut_down_alone() {
    let mut world = World::new();
    let upstream = world
        .handle(device(0, 34), DeviceServiceStage::Upstream, UPSTREAM)
        .unwrap();
    let mock = world.mock(34);
    let other = world.mock(35);
    let same_index = world
        .handle(device(1, 34), DeviceServiceStage::Downstream, MOCK)
        .unwrap();
    let (ran, job) = raises();
    assert!(world.enqueue(mock.generation_id(), job));
    let mut shutdown = DeviceHandle::shutdown(device(0, 34), None);
    assert!(world.advance_shutdown(&mut shutdown).unwrap().is_ok());
    assert!(ran.get());
    assert_eq!(
        world.shut_down,
        vec![(upstream.generation_id(), UPSTREAM), (mock.generation_id(), MOCK)]
    );
    assert_eq!(world.status(mock.generation_id()), GenerationStatus::Closed);
    assert_eq!(world.status(other.generation_id()), GenerationStatus::Running);
    assert_eq!(world.status(same_index.generation_id()), GenerationStatus::Running);
    assert_eq!(world.mock(35), other);
    assert_ne!(world.mock(34).generation_id(), mock.generation_id());
}

#[test]
fn a_runner_that_nobody_could_join_is_replaced() {
    let mut world = World::new();
    let handle = world.mock(36);
    let id = handle.generation_id();
    let lease = handle.release(&mut world.runtime).unwrap();
    let given_up = Rc::new(Cell::new(false));
    let done = Rc::clone(&given_up);
    assert!(world.enqueue(
        id,
        Box::new(move |world: &mut World| {
            // No thread can be started to join the runner.
            let step = world.runtime.release(lease, world.thread);
            assert_eq!(step.close, Close::Delegate(true));
            world.runtime.delegation_failed(id);
            let runner = world.runner(id);
            runner.channel.stop_accepting();
            runner.channel.request_close();
            done.set(true);
        }),
    ));
    world.flush(id);
    world.drive(id);
    assert!(given_up.get());
    assert!(world.runner(id).stopped);
    let next = world.mock(36);
    assert_ne!(next.generation_id(), id);
    assert_eq!(world.runtime.counters().closed, 0);
}
