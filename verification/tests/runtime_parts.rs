use cubecl::{
    ActOnError, Admission, BeginClose, Close, DeviceGenerationId, DeviceId, DeviceRuntime,
    DeviceServiceStage, DeviceServicesShutdownError, FutureWorkerError, GenerationCounters,
    GenerationStatus, GenerationUpgrade, InitializeService, JoinOnDrop, JoinRunner,
    LifecycleState, PollAction, RunnerEvent, RunnerId, RunnerPhase, RunnerThread,
    RuntimeGeneration, ServiceCreationError, ServiceOutcome, ServiceStates, StreamId, TaskAction,
    TaskContext, TaskEvent, TaskPhase, TaskRun, WgpuPoll,
};
use std::cell::Cell;
use std::rc::Rc;

fn runner() -> RunnerId {
    RunnerId {
        device: DeviceId { type_id: 3, index_id: 7 },
        stage: DeviceServiceStage::Upstream,
    }
}

fn generation() -> RuntimeGeneration {
    RuntimeGeneration::new(runner(), &mut GenerationCounters::new())
}

#[test]
fn generations_are_numbered_and_counted() {
    let mut counters = GenerationCounters::new();
    let first = RuntimeGeneration::new(runner(), &mut counters);
    let second = RuntimeGeneration::new(runner(), &mut counters);
    assert_eq!(first.id, DeviceGenerationId::new(1));
    assert_eq!(second.id, DeviceGenerationId::new(2));
    assert_eq!(counters.created, 2);
    assert_eq!(counters.closed, 0);
    assert_eq!(cubecl::runner_thread_name(runner(), second.id), "DSU-3-7-g2");
}

#[test]
fn a_generation_that_closes_is_not_taken_up_again() {
    let mut counters = GenerationCounters::new();
    let mut generation = RuntimeGeneration::new(runner(), &mut counters);
    assert_eq!(generation.upgrade(), GenerationUpgrade::Ready);
    assert_eq!(generation.external_count, 1);
    generation.set_join_handle();
    generation.mark_running();
    assert!(generation.is_active());
    assert_eq!(generation.begin_close(true), BeginClose::Shared);
    assert_eq!(generation.begin_close(false), BeginClose::Started);
    assert!(!generation.is_active());
    assert_eq!(generation.upgrade(), GenerationUpgrade::Closing);
    assert_eq!(generation.begin_close(false), BeginClose::AlreadyClosing);
    // A runner that enters its loop late does not undo that.
    generation.mark_running();
    assert_eq!(generation.status, GenerationStatus::Closing);
    assert_eq!(generation.join_runner(), JoinRunner::Join);
    assert_eq!(generation.join_runner(), JoinRunner::Wait);
    assert_eq!(generation.runner_joined(true, &mut counters), JoinRunner::Panicked);
    assert_eq!(generation.status, GenerationStatus::Closed);
    assert_eq!(generation.upgrade(), GenerationUpgrade::Gone);
    assert_eq!(generation.begin_close(false), BeginClose::AlreadyClosing);
    assert_eq!(generation.join_runner(), JoinRunner::Panicked);
    generation.mark_closed(false, &mut counters);
    assert_eq!(counters.closed, 1);
}

#[test]
fn the_runner_itself_never_joins_itself() {
    let mut generation = generation();
    generation.set_join_handle();
    assert_eq!(generation.close_forced(true), (true, Close::Delegate(true)));
    assert_eq!(generation.close_forced(true), (false, Close::Delegate(false)));
    assert_eq!(generation.close_forced(false), (false, Close::Join(JoinRunner::Join)));
}

#[test]
fn a_lease_taken_meanwhile_keeps_the_generation_open() {
    let mut runtime = DeviceRuntime::new(false);
    let first = runtime.start(runner());
    let id = first.generation_id();
    let second = runtime.lease(id);
    let step = runtime.release(first, None);
    assert_eq!(step.close, Close::Shared);
    assert!(!step.stop_channel);
    runtime.set_join_handle(id);
    let last = runtime.release(second, None);
    assert_eq!(last.close, Close::Join(JoinRunner::Join));
    assert!(last.stop_channel);
    assert_eq!(runtime.runner_joined(id, false), JoinRunner::Joined);
    assert_eq!(runtime.generation(id).unwrap().status, GenerationStatus::Closed);
    assert!(runtime.generation(DeviceGenerationId::new(99)).is_none());
    assert!(runtime.channel_state(99).is_none());
}

#[test]
fn the_barrier_lets_later_stages_in_during_a_shutdown() {
    let (up, down) = (DeviceServiceStage::Upstream, DeviceServiceStage::Downstream);
    let mut state = LifecycleState::default();
    assert_eq!(state.enter(None, up), Admission::Granted);
    assert!(!state.is_quiet());
    assert!(state.begin_shutdown());
    assert!(!state.begin_shutdown());
    assert_eq!(state.enter(None, down), Admission::Wait);
    assert_eq!(state.enter(Some(up), down), Admission::Granted);
    assert_eq!(state.enter(Some(up), up), Admission::Refused);
    assert_eq!(state.enter(Some(down), up), Admission::Refused);
    assert_eq!(state.enter(Some(down), down), Admission::Refused);
    assert_eq!(state.active_initializers, 2);
    state.leave();
    state.leave();
    assert!(state.is_quiet());
    state.end_shutdown();
    assert_eq!(state.enter(None, down), Admission::Granted);
}

#[test]
fn stages_are_shut_down_in_order() {
    assert!(DeviceServiceStage::Upstream.rank() < DeviceServiceStage::Downstream.rank());
}

#[test]
fn services_are_borrowed_by_one_task_at_a_time() {
    let mut states = ServiceStates::new();
    assert_eq!(states.act_on(1), Err(ActOnError::NotFound));
    assert_eq!(states.initialize(1, false), InitializeService::Create);
    assert_eq!(states.act_on(1), Err(ActOnError::Busy));
    assert_eq!(
        states.initialize(2, false),
        InitializeService::Finished(ServiceOutcome::Panicked)
    );
    assert_eq!(states.end_initialize(1, Some(8)), ServiceOutcome::Ready { utilities: 8 });
    assert_eq!(
        states.initialize(1, false),
        InitializeService::Finished(ServiceOutcome::Ready { utilities: 8 })
    );
    assert_eq!(
        states.initialize(1, true),
        InitializeService::Finished(ServiceOutcome::AlreadyInitialized)
    );
    assert_eq!(states.act_on(1), Ok(()));
    assert_eq!(states.act_on(1), Err(ActOnError::AlreadyBorrowed));
    assert_eq!(
        states.initialize(2, true),
        InitializeService::Finished(ServiceOutcome::Panicked)
    );
    states.end_act_on(1);
    assert_eq!(states.initialize(2, true), InitializeService::Create);
    assert_eq!(states.end_initialize(2, None), ServiceOutcome::Panicked);
    assert_eq!(states.act_on(2), Err(ActOnError::NotFound));
    assert_eq!(states.initialize(3, true), InitializeService::Create);
    assert_eq!(states.end_initialize(3, Some(9)), ServiceOutcome::Ready { utilities: 9 });
    let mut services = states.shutdown_service_states();
    services.sort();
    assert_eq!(services, vec![1, 3]);
    assert_eq!(states.act_on(1), Err(ActOnError::Busy));
    assert_eq!(
        states.initialize(4, false),
        InitializeService::Finished(ServiceOutcome::Panicked)
    );
    states.end_shutdown();
    assert!(states.shutdown_service_states().is_empty());
    states.end_shutdown();
    assert_eq!(states.act_on(1), Err(ActOnError::NotFound));
}

#[test]
fn a_task_casts_its_service_once_and_gives_it_back() {
    let mut states = ServiceStates::new();
    states.initialize(1, false);
    states.end_initialize(1, Some(8));
    let mut stream = StreamId { value: 2 };
    let context = TaskContext { service: Some(1), cast: Some(6), stream: StreamId { value: 5 } };

    let mut run = TaskRun::start(context);
    let action = run.step(TaskEvent::Begin, &mut states, &mut stream);
    assert_eq!(action, TaskAction::Cast(6));
    assert_eq!(stream.value, 5);
    let mut second = TaskRun::start(context);
    let action = second.step(TaskEvent::Begin, &mut states, &mut stream);
    assert_eq!(action, TaskAction::Refused(ActOnError::AlreadyBorrowed));
    assert_eq!(second.phase, TaskPhase::Over);
    let action = run.step(TaskEvent::Returned, &mut states, &mut stream);
    assert_eq!(action, TaskAction::Call);
    let action = run.step(TaskEvent::Returned, &mut states, &mut stream);
    assert_eq!(action, TaskAction::Finished { returned: true });
    assert_eq!(stream.value, 2);
    let action = run.step(TaskEvent::Returned, &mut states, &mut stream);
    assert_eq!(action, TaskAction::Unexpected);

    // A cast that panics ends the task, which is never called.
    let mut run = TaskRun::start(context);
    run.step(TaskEvent::Begin, &mut states, &mut stream);
    let action = run.step(TaskEvent::Panicked, &mut states, &mut stream);
    assert_eq!(action, TaskAction::Finished { returned: false });
    assert_eq!(stream.value, 2);
    assert_eq!(states.act_on(1), Ok(()));
}

#[test]
fn a_runner_thread_gives_up_its_reference_whatever_panics() {
    let mut thread = RunnerThread::start();
    let mut phases = vec![thread.phase];
    while !matches!(thread.phase, RunnerPhase::Over { .. }) {
        thread.step(RunnerEvent::Returned);
        phases.push(thread.phase);
    }
    assert_eq!(
        phases,
        vec![
            RunnerPhase::Init,
            RunnerPhase::Mark,
            RunnerPhase::Serve,
            RunnerPhase::Shutdown,
            RunnerPhase::Release { panicked: false },
            RunnerPhase::Over { panicked: false },
        ]
    );
    for returned in 0..4 {
        let mut thread = RunnerThread::start();
        for _ in 0..returned {
            thread.step(RunnerEvent::Returned);
        }
        thread.step(RunnerEvent::Panicked);
        assert_eq!(thread.phase, RunnerPhase::Release { panicked: true });
        thread.step(RunnerEvent::Returned);
        assert_eq!(thread.phase, RunnerPhase::Over { panicked: true });
    }
}

#[test]
fn errors_say_what_went_wrong() {
    assert_eq!(
        DeviceServicesShutdownError::new(1).message(),
        "1 device runner thread(s) failed during shutdown"
    );
    let error = ServiceCreationError::new("no device".to_string());
    assert_eq!(error.reason(), "no device");
    assert_eq!(error.clone().reason(), "no device");
}

#[test]
fn ids_hold_their_numbers() {
    assert_eq!(DeviceId::new(1, 2), DeviceId { type_id: 1, index_id: 2 });
    assert_eq!(DeviceGenerationId::new(5).0, 5);
    assert!(StreamId { value: 1 } != StreamId { value: 2 });
}

/// A worker that runs where it is joined; no result stands for a panic.
fn join<R>(worker: &mut JoinOnDrop, run: impl FnOnce() -> Option<R>) -> Result<(), FutureWorkerError> {
    if worker.join() {
        JoinOnDrop::joined(run().is_none())
    } else {
        Ok(())
    }
}

#[test]
fn test_spawn_joinable_fut_joins_worker() {
    let completed = Rc::new(Cell::new(false));
    let completed_worker = Rc::clone(&completed);
    let mut worker = JoinOnDrop::started();

    join(&mut worker, || {
        futures_lite::future::block_on(async move {
            completed_worker.set(true);
        });
        Some(())
    })
    .unwrap();

    assert!(completed.get());
    join(&mut worker, || -> Option<()> { unreachable!() }).unwrap();
}

#[test]
fn test_spawn_joinable_fut_reports_panic() {
    let mut worker = JoinOnDrop::started();

    assert!(join(&mut worker, || None::<()>).is_err());
    assert_eq!(FutureWorkerError.message(), "future worker panicked");
    assert!(!JoinOnDrop::detached().join());
}

#[test]
fn polling_goes_on_while_somebody_needs_it() {
    let mut poll = WgpuPoll::new();
    assert_eq!(poll.step(), PollAction::Park);
    assert!(poll.start_polling());
    assert_eq!(poll.step(), PollAction::Poll);
    assert!(poll.shutdown());
    assert!(!poll.shutdown());
    assert_eq!(poll.step(), PollAction::Poll);
    poll.stop_polling();
    assert_eq!(poll.step(), PollAction::Stop);
    assert!(!poll.start_polling());
}
