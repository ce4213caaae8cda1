use cubecl::lifecycle::shutdown;
use cubecl::{
    shutdown_device_services, summarize_releases, ComputeClient, DeviceGenerationId, DeviceId,
    DeviceLease, DeviceLeaseRelease, DeviceLeaseReleaseError, DeviceRuntime, DeviceServiceStage,
    DeviceServicesShutdownError, GuardSlot, JoinRunner, RunnerId, RuntimeGuard, RuntimeSession,
    ServicesShutdown, ShutdownAction, ShutdownEvent,
};

/// Runs a shutdown that finds nothing to close.
fn run_idle_shutdown(
    mut services: ServicesShutdown,
    runtime: &mut DeviceRuntime,
) -> Result<(), DeviceServicesShutdownError> {
    loop {
        match services.step(runtime, ShutdownEvent::Resume) {
            ShutdownAction::Continue => {}
            ShutdownAction::Done(result) => return result,
            _ => panic!("nothing to wait for or to close"),
        }
    }
}

fn runner(index_id: u16) -> RunnerId {
    RunnerId {
        device: DeviceId { type_id: 0, index_id },
        stage: DeviceServiceStage::Downstream,
    }
}

/// Loads a client of a runner whose thread was started.
fn load(runtime: &mut DeviceRuntime, index_id: u16) -> ComputeClient {
    let lease = runtime.start(runner(index_id));
    runtime.set_join_handle(lease.generation_id());
    runtime.mark_running(lease.generation_id());
    ComputeClient::new(DeviceLease::channel(lease))
}

/// Releases a lease on a thread that is no runner, and joins the runner where that is asked for.
fn release(
    runtime: &mut DeviceRuntime,
    lease: DeviceLease,
    panicked: bool,
) -> Result<DeviceLeaseRelease, DeviceLeaseReleaseError> {
    let released = lease.release(runtime, None);
    match released.outcome {
        Some(outcome) => outcome,
        None => {
            let step = released.step.unwrap();
            assert!(step.close == cubecl::Close::Join(JoinRunner::Join));
            let join = runtime.runner_joined(step.generation, panicked);
            cubecl::release_outcome(step.generation, cubecl::Close::Join(join)).unwrap()
        }
    }
}

#[test]
fn test_acquire_rejects_overlapping_guards_and_allows_reacquisition() {
    let mut runtime = DeviceRuntime::new(false);
    let mut slot = GuardSlot { acquired: false };
    let guard = RuntimeGuard::acquire(&mut slot).unwrap();
    assert!(RuntimeGuard::acquire(&mut slot).is_err());
    let result = run_idle_shutdown(shutdown_device_services(), &mut runtime);
    guard.shutdown(&mut slot, result).unwrap();

    let again = RuntimeGuard::acquire(&mut slot).unwrap();
    let result = run_idle_shutdown(shutdown(), &mut runtime);
    again.shutdown(&mut slot, result).unwrap();
}

#[test]
fn test_runtime_guard_shutdown() {
    let mut runtime = DeviceRuntime::new(false);
    let mut slot = GuardSlot { acquired: false };
    let guard = RuntimeGuard::acquire(&mut slot).unwrap();
    {
        let client = load(&mut runtime, 1);
        assert_eq!(
            release(&mut runtime, client.into_lease(), false).unwrap(),
            DeviceLeaseRelease::Closed
        );
    }
    let result = run_idle_shutdown(shutdown(), &mut runtime);
    guard.shutdown(&mut slot, result).unwrap();
    assert!(!slot.acquired);
}

#[test]
fn guard_passes_a_failed_shutdown_on_and_makes_place() {
    let mut slot = GuardSlot { acquired: false };
    let guard = RuntimeGuard::acquire(&mut slot).unwrap();
    let error = RuntimeGuard::acquire(&mut slot).err().unwrap();
    assert_eq!(error.message(), "a CubeCL runtime guard is already active");
    let failed = guard
        .shutdown(&mut slot, Err(DeviceServicesShutdownError::new(3)))
        .unwrap_err();
    assert_eq!(failed.runner_panics(), 3);
    assert_eq!(failed.message(), "3 device runner thread(s) failed during shutdown");
    assert!(!slot.acquired);
    let mut guard = RuntimeGuard::acquire(&mut slot).unwrap();
    guard.release(&mut slot);
    assert!(!slot.acquired);
    // A guard that was released does not take the place of the next one away.
    let next = RuntimeGuard::acquire(&mut slot).unwrap();
    guard.release(&mut slot);
    assert!(slot.acquired);
    next.shutdown(&mut slot, Ok(())).unwrap();
}

#[test]
fn test_stateless_lease_release() {
    let mut runtime = DeviceRuntime::new(false);
    assert_eq!(
        DeviceLease::stateless()
            .release(&mut runtime, None)
            .outcome
            .unwrap()
            .unwrap(),
        DeviceLeaseRelease::Stateless
    );
}

#[test]
fn runtime_session_deduplicates_and_reports_shared_generation() {
    let mut runtime = DeviceRuntime::new(false);
    let mut session = RuntimeSession::new();
    let loaded = load(&mut runtime, 7);
    let client = session.client(loaded, &mut runtime);

    assert_eq!(session.num_pinned_generations(), 1);
    assert!(!session.pin(&client, &mut runtime));
    assert_eq!(session.num_pinned_generations(), 1);

    let mut outcomes = Vec::new();
    for lease in session.shutdown() {
        outcomes.push(release(&mut runtime, lease, false));
    }
    let report = summarize_releases(outcomes).unwrap();
    assert_eq!(report.closed_generations(), 0);
    assert_eq!(report.closing_generations(), 0);
    assert_eq!(report.shared_generations(), 1);
    assert_eq!(report.stateless_leases(), 0);

    release(&mut runtime, client.into_lease(), false).unwrap();
}

#[test]
fn runtime_session_final_pin_closes_generation() {
    let mut runtime = DeviceRuntime::new(false);
    let mut session = RuntimeSession::new();
    let client = load(&mut runtime, 103);
    assert!(session.pin(&client, &mut runtime));
    assert_eq!(
        release(&mut runtime, client.into_lease(), false).unwrap(),
        DeviceLeaseRelease::Shared
    );

    let mut outcomes = Vec::new();
    for lease in session.shutdown() {
        outcomes.push(release(&mut runtime, lease, false));
    }
    let report = summarize_releases(outcomes).unwrap();
    assert_eq!(report.closed_generations(), 1);
    assert_eq!(report.closing_generations(), 0);
    assert_eq!(report.shared_generations(), 0);
}

#[test]
fn session_reports_panicked_runners() {
    let mut runtime = DeviceRuntime::new(false);
    let mut session = RuntimeSession::new();
    let good = load(&mut runtime, 1);
    let bad = load(&mut runtime, 2);
    let bad_id = bad.generation_id().unwrap();
    assert!(session.pin(&good, &mut runtime));
    assert!(session.pin(&bad, &mut runtime));
    assert_eq!(session.num_pinned_generations(), 2);
    release(&mut runtime, good.into_lease(), false).unwrap();
    release(&mut runtime, bad.into_lease(), false).unwrap();

    let mut outcomes = Vec::new();
    for lease in session.shutdown() {
        let panicked = lease.generation_id() == Some(bad_id);
        outcomes.push(release(&mut runtime, lease, panicked));
    }
    let error = summarize_releases(outcomes).unwrap_err();
    assert_eq!(error.report().closed_generations(), 2);
    assert_eq!(error.failed_generations().to_vec(), vec![bad_id]);
    assert_eq!(
        error.message(),
        "1 runtime generation(s) closed after a runner panic"
    );
}

#[test]
fn stateless_clients_are_not_pinned() {
    let mut runtime = DeviceRuntime::new(false);
    let mut session = RuntimeSession::new();
    let client = ComputeClient::new(DeviceLease::stateless());
    assert_eq!(client.generation_id(), None);
    assert!(!session.pin(&client, &mut runtime));
    assert_eq!(client.clone_lease(&mut runtime).generation_id(), None);
    assert_eq!(session.num_pinned_generations(), 0);
    assert!(session.shutdown().is_empty());
}

#[test]
fn every_release_is_counted_once() {
    let outcomes = vec![
        Ok(DeviceLeaseRelease::Closed),
        Ok(DeviceLeaseRelease::Closing),
        Ok(DeviceLeaseRelease::Closing),
        Ok(DeviceLeaseRelease::Shared),
        Ok(DeviceLeaseRelease::Stateless),
        Err(DeviceLeaseReleaseError::closed_with_runner_panic(DeviceGenerationId::new(8))),
    ];
    let error = summarize_releases(outcomes).unwrap_err();
    let report = error.report();
    assert_eq!(report.closed_generations(), 2);
    assert_eq!(report.closing_generations(), 2);
    assert_eq!(report.shared_generations(), 1);
    assert_eq!(report.stateless_leases(), 1);
    assert_eq!(error.failed_generations().to_vec(), vec![DeviceGenerationId::new(8)]);
    assert!(summarize_releases(Vec::new()).is_ok());
}

#[test]
fn release_error_names_its_generation() {
    let error = DeviceLeaseReleaseError::closed_with_runner_panic(DeviceGenerationId::new(12));
    assert_eq!(error.generation_id(), DeviceGenerationId::new(12));
    assert_eq!(
        error.message(),
        "device runner generation DeviceGenerationId(12) panicked during shutdown"
    );
}

#[test]
fn failed_generations_keep_the_order_of_their_pins() {
    let failed = |id| {
        Err(DeviceLeaseReleaseError::closed_with_runner_panic(DeviceGenerationId::new(id)))
    };
    let outcomes = vec![failed(9), Ok(DeviceLeaseRelease::Closed), failed(3), failed(4)];
    let error = summarize_releases(outcomes).unwrap_err();
    let ids: Vec<u64> = error.failed_generations().iter().map(|id| id.0).collect();
    assert_eq!(ids, vec![9, 3, 4]);
    assert_eq!(error.report().closed_generations(), 4);
    assert_eq!(error.message(), "3 runtime generation(s) closed after a runner panic");
}
