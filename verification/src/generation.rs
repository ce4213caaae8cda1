//! One life of a device runner: who keeps it alive, and how it is closed.
//!
//! External leases keep a generation open. When the last one goes, or when somebody closes it by
//! force, it stops taking work, and exactly one thread joins its runner. A thread never waits for
//! itself: on the runner, the join is handed to another thread.

use crate::decimal::decimal;
use crate::errors::DeviceLeaseReleaseError;
use crate::ids::{DeviceGenerationId, DeviceServiceStage, RunnerId};
use vstd::prelude::*;
use vstd::string::StringExecFns;

verus! {

use crate::decimal::decimal_digits;

/// Where a generation is in its life.
#[derive(Clone, Copy, Debug, PartialEq, Eq, Structural)]
pub enum GenerationStatus {
    /// Its runner thread has not entered its loop yet.
    Starting,
    /// Its runner takes tasks.
    Running,
    /// Its runner drains what it accepted.
    Closing,
    /// Its runner was joined.
    Closed,
}

impl GenerationStatus {
    /// How far along its life the generation is.
    pub open spec fn rank(self) -> int {
        match self {
            GenerationStatus::Starting => 0,
            GenerationStatus::Running => 1,
            GenerationStatus::Closing => 2,
            GenerationStatus::Closed => 3,
        }
    }

    /// The generation takes work.
    pub open spec fn is_open(self) -> bool {
        self is Starting || self is Running
    }
}

/// What came of asking a generation to close.
#[derive(Clone, Copy, Debug, PartialEq, Eq, Structural)]
pub enum BeginClose {
    /// It closes now: stop its channel.
    Started,
    /// Other owners keep it open.
    Shared,
    /// It was closing already.
    AlreadyClosing,
}

/// What came of asking a generation for a new lease.
#[derive(Clone, Copy, Debug, PartialEq, Eq, Structural)]
pub enum GenerationUpgrade {
    /// The lease was taken.
    Ready,
    /// The generation is about to be over: wait for that.
    Closing,
    /// The generation is over.
    Gone,
}

/// What a thread that wants a runner joined does next.
#[derive(Clone, Copy, Debug, PartialEq, Eq, Structural)]
pub enum JoinRunner {
    /// Join the runner thread, then report how it ended with [`RuntimeGeneration::runner_joined`].
    Join,
    /// Another thread joins it: wait until the generation is closed, then ask again.
    Wait,
    /// The runner was joined, and had not panicked.
    Joined,
    /// The runner was joined, and had panicked.
    Panicked,
}

/// What a thread that closes a generation does next.
#[derive(Clone, Copy, Debug, PartialEq, Eq, Structural)]
pub enum Close {
    /// Other owners keep the generation open.
    Shared,
    /// The thread is the runner itself; `true` asks it to start a thread that joins the runner.
    Delegate(bool),
    /// The runner is to be joined, or was joined.
    Join(JoinRunner),
}

/// Process-wide counters of generations.
#[derive(Clone, Copy, Debug, PartialEq, Eq, Structural)]
pub struct GenerationCounters {
    /// The number of the next generation.
    pub next_id: u64,
    /// Number of generations created.
    pub created: u64,
    /// Number of generations closed.
    pub closed: u64,
}

impl GenerationCounters {
    /// Counters before the first generation.
    pub fn new() -> (counters: Self)
        ensures
            counters == (GenerationCounters { next_id: 1, created: 0, closed: 0 }),
    {
        GenerationCounters { next_id: 1, created: 0, closed: 0 }
    }

    /// The counters once one more generation was created.
    pub open spec fn after_create(self) -> Self {
        GenerationCounters {
            next_id: self.next_id.wrapping_add(1),
            created: self.created.wrapping_add(1),
            ..self
        }
    }
}

/// One life of a device runner.
#[derive(Clone, Copy, Debug, PartialEq, Eq, Structural)]
pub struct RuntimeGeneration {
    /// The number of the generation.
    pub id: DeviceGenerationId,
    /// The runner.
    pub runner_id: RunnerId,
    /// Number of leases that keep the generation open.
    pub external_count: usize,
    /// Number of references that the runner and its queued tasks hold.
    pub internal_count: usize,
    /// Where the generation is in its life.
    pub status: GenerationStatus,
    /// Whether the runner thread panicked, as far as is known.
    pub runner_panicked: bool,
    /// Whether the runner thread was started and nobody began to join it.
    pub joinable: bool,
    /// Whether a thread was started to join the runner.
    pub join_delegated: bool,
}

impl RuntimeGeneration {
    /// A generation whose runner is still to be started, with no owner.
    pub open spec fn fresh(id: u64, runner_id: RunnerId) -> Self {
        RuntimeGeneration {
            id: DeviceGenerationId(id),
            runner_id,
            external_count: 0,
            internal_count: 0,
            status: GenerationStatus::Starting,
            runner_panicked: false,
            joinable: false,
            join_delegated: false,
        }
    }

    /// The generation with one more lease.
    pub open spec fn leased(self) -> Self {
        RuntimeGeneration { external_count: self.external_count.wrapping_add(1), ..self }
    }

    /// The generation with one lease less.
    pub open spec fn unleased(self) -> Self {
        RuntimeGeneration { external_count: self.external_count.wrapping_sub(1), ..self }
    }

    /// The generation after its runner was joined, or seen to be.
    pub open spec fn after_close(self, panicked: bool) -> Self {
        RuntimeGeneration {
            runner_panicked: self.runner_panicked || panicked,
            status: GenerationStatus::Closed,
            ..self
        }
    }

    /// Number of closed generations once this one is closed: each counts once.
    pub open spec fn count_close(self, closed: u64) -> u64 {
        if self.status is Closed {
            closed
        } else {
            closed.wrapping_add(1)
        }
    }

    /// Creates a generation whose runner is still to be started, with no owner.
    pub fn new(runner_id: RunnerId, counters: &mut GenerationCounters) -> (generation: Self)
        ensures
            generation == RuntimeGeneration::fresh(old(counters).next_id, runner_id),
            *final(counters) == old(counters).after_create(),
    {
        let id: u64 = counters.next_id;
        counters.next_id = id.wrapping_add(1);
        counters.created = counters.created.wrapping_add(1);
        RuntimeGeneration {
            id: DeviceGenerationId::new(id),
            runner_id,
            external_count: 0,
            internal_count: 0,
            status: GenerationStatus::Starting,
            runner_panicked: false,
            joinable: false,
            join_delegated: false,
        }
    }

    /// Takes a lease, without asking whether the generation is open.
    pub fn external_lease_unchecked(&mut self) -> (lease: ExternalLease)
        ensures
            *final(self) == old(self).leased(),
            lease@ == old(self).id,
    {
        self.external_count = self.external_count.wrapping_add(1);
        ExternalLease { generation: self.id }
    }

    /// What asking for a new lease gives.
    pub open spec fn upgrade_spec(self) -> GenerationUpgrade {
        match self.status {
            GenerationStatus::Starting => GenerationUpgrade::Ready,
            GenerationStatus::Running => GenerationUpgrade::Ready,
            GenerationStatus::Closing => GenerationUpgrade::Closing,
            GenerationStatus::Closed => GenerationUpgrade::Gone,
        }
    }

    /// Takes a lease if the generation is open.
    pub fn upgrade(&mut self) -> (upgrade: GenerationUpgrade)
        ensures
            upgrade == old(self).upgrade_spec(),
            upgrade is Ready <==> old(self).status is Starting || old(self).status is Running,
            upgrade is Gone <==> old(self).status is Closed,
            final(self).external_count == (if upgrade is Ready {
                old(self).external_count.wrapping_add(1)
            } else {
                old(self).external_count
            }),
            final(self).status == old(self).status,
            *final(self) == (if upgrade is Ready {
                old(self).leased()
            } else {
                *old(self)
            }),
    {
        match self.status {
            GenerationStatus::Starting | GenerationStatus::Running => {
                self.external_count = self.external_count.wrapping_add(1);
                GenerationUpgrade::Ready
            },
            GenerationStatus::Closing => GenerationUpgrade::Closing,
            GenerationStatus::Closed => GenerationUpgrade::Gone,
        }
    }

    /// Counts a reference that the runner or a queued task holds.
    pub fn internal_reference(&mut self)
        ensures
            *final(self) == (RuntimeGeneration {
                internal_count: old(self).internal_count.wrapping_add(1),
                ..*old(self)
            }),
    {
        self.internal_count = self.internal_count.wrapping_add(1);
    }

    /// Drops a reference that the runner or a queued task held.
    pub fn drop_internal_reference(&mut self)
        ensures
            *final(self) == (RuntimeGeneration {
                internal_count: old(self).internal_count.wrapping_sub(1),
                ..*old(self)
            }),
    {
        self.internal_count = self.internal_count.wrapping_sub(1);
    }

    /// The runner thread was started.
    pub fn set_join_handle(&mut self)
        ensures
            *final(self) == (RuntimeGeneration { joinable: true, ..*old(self) }),
    {
        self.joinable = true;
    }

    /// The runner thread enters its loop.
    pub fn mark_running(&mut self)
        ensures
            *final(self) == (if old(self).status is Starting {
                RuntimeGeneration { status: GenerationStatus::Running, ..*old(self) }
            } else {
                *old(self)
            }),
    {
        if self.status == GenerationStatus::Starting {
            self.status = GenerationStatus::Running;
        }
    }

    /// The runner thread was joined.
    pub fn mark_closed(&mut self, panicked: bool, counters: &mut GenerationCounters)
        ensures
            *final(self) == old(self).after_close(panicked),
            *final(counters) == (GenerationCounters {
                closed: old(self).count_close(old(counters).closed),
                ..*old(counters)
            }),
    {
        self.runner_panicked = self.runner_panicked || panicked;
        if self.status != GenerationStatus::Closed {
            self.status = GenerationStatus::Closed;
            counters.closed = counters.closed.wrapping_add(1);
        }
    }

    /// What asking the generation to close gives.
    pub open spec fn begin_close_spec(self, only_if_unowned: bool) -> BeginClose {
        if !self.status.is_open() {
            BeginClose::AlreadyClosing
        } else if only_if_unowned && self.external_count != 0 {
            BeginClose::Shared
        } else {
            BeginClose::Started
        }
    }

    /// The generation after it was asked to close.
    pub open spec fn after_begin_close(self, only_if_unowned: bool) -> Self {
        if self.begin_close_spec(only_if_unowned) is Started {
            RuntimeGeneration { status: GenerationStatus::Closing, ..self }
        } else {
            self
        }
    }

    /// Asks the generation to close; with `only_if_unowned`, only if no lease keeps it open.
    pub fn begin_close(&mut self, only_if_unowned: bool) -> (outcome: BeginClose)
        ensures
            outcome == old(self).begin_close_spec(only_if_unowned),
            outcome is AlreadyClosing <==> old(self).status is Closing || old(self).status
                is Closed,
            outcome is Shared <==> !(outcome is AlreadyClosing) && only_if_unowned && old(
                self,
            ).external_count > 0,
            outcome is Started ==> final(self).status is Closing,
            !(outcome is Started) ==> *final(self) == *old(self),
            *final(self) == old(self).after_begin_close(only_if_unowned),
    {
        match self.status {
            GenerationStatus::Starting | GenerationStatus::Running => {
                if only_if_unowned && self.external_count != 0 {
                    return BeginClose::Shared;
                }
                self.status = GenerationStatus::Closing;
                BeginClose::Started
            },
            GenerationStatus::Closing | GenerationStatus::Closed => BeginClose::AlreadyClosing,
        }
    }

    /// What a thread that wants the runner joined does next.
    pub open spec fn join_runner_spec(self) -> JoinRunner {
        if self.joinable {
            JoinRunner::Join
        } else if !(self.status is Closed) {
            JoinRunner::Wait
        } else if self.runner_panicked {
            JoinRunner::Panicked
        } else {
            JoinRunner::Joined
        }
    }

    /// Begins to join the runner, unless another thread already did.
    pub fn join_runner(&mut self) -> (join: JoinRunner)
        ensures
            join == old(self).join_runner_spec(),
            join is Join <==> old(self).joinable,
            join is Wait <==> !old(self).joinable && !(old(self).status is Closed),
            *final(self) == (RuntimeGeneration { joinable: false, ..*old(self) }),
    {
        if self.joinable {
            self.joinable = false;
            JoinRunner::Join
        } else if self.status != GenerationStatus::Closed {
            JoinRunner::Wait
        } else if self.runner_panicked {
            JoinRunner::Panicked
        } else {
            JoinRunner::Joined
        }
    }

    /// The thread that [`JoinRunner::Join`] was given to has joined the runner.
    pub fn runner_joined(&mut self, panicked: bool, counters: &mut GenerationCounters) -> (join:
        JoinRunner)
        ensures
            *final(self) == old(self).after_close(panicked),
            *final(counters) == (GenerationCounters {
                closed: old(self).count_close(old(counters).closed),
                ..*old(counters)
            }),
            join == (if old(self).runner_panicked || panicked {
                JoinRunner::Panicked
            } else {
                JoinRunner::Joined
            }),
    {
        self.mark_closed(panicked, counters);
        if self.runner_panicked {
            JoinRunner::Panicked
        } else {
            JoinRunner::Joined
        }
    }

    /// Whether a thread has to be started to join the runner.
    pub open spec fn delegates(self) -> bool {
        self.joinable && !self.join_delegated
    }

    /// Hands the join to a thread of its own; returns whether that thread has to be started.
    pub fn delegate_join(&mut self) -> (spawn: bool)
        ensures
            spawn == old(self).delegates(),
            *final(self) == (RuntimeGeneration {
                join_delegated: old(self).join_delegated || old(self).joinable,
                ..*old(self)
            }),
    {
        if !self.joinable {
            return false;
        }
        if self.join_delegated {
            return false;
        }
        self.join_delegated = true;
        true
    }

    /// The thread that was to join the runner could not be started: the next closer may try.
    pub fn delegation_failed(&mut self)
        ensures
            *final(self) == (RuntimeGeneration { join_delegated: false, ..*old(self) }),
    {
        self.join_delegated = false;
    }

    /// What a thread does once the generation is closing.
    pub open spec fn finish_close_spec(self, on_runner: bool) -> Close {
        if on_runner {
            Close::Delegate(self.delegates())
        } else {
            Close::Join(self.join_runner_spec())
        }
    }

    /// The generation after a thread began to wait for its end.
    pub open spec fn after_finish_close(self, on_runner: bool) -> Self {
        if on_runner {
            RuntimeGeneration { join_delegated: self.join_delegated || self.joinable, ..self }
        } else {
            RuntimeGeneration { joinable: false, ..self }
        }
    }

    /// Waits for the end of the generation, or on the runner itself lets another thread wait.
    pub fn finish_close(&mut self, on_runner: bool) -> (close: Close)
        ensures
            close == old(self).finish_close_spec(on_runner),
            *final(self) == old(self).after_finish_close(on_runner),
    {
        if on_runner {
            let spawn = self.delegate_join();
            return Close::Delegate(spawn);
        }
        Close::Join(self.join_runner())
    }

    /// What closing the generation asks for.
    pub open spec fn close_spec(self, only_if_unowned: bool, on_runner: bool) -> Close {
        if self.begin_close_spec(only_if_unowned) is Shared {
            Close::Shared
        } else {
            self.after_begin_close(only_if_unowned).finish_close_spec(on_runner)
        }
    }

    /// The generation after it was closed, up to the work that is left to the thread.
    pub open spec fn after_close_call(self, only_if_unowned: bool, on_runner: bool) -> Self {
        if self.begin_close_spec(only_if_unowned) is Shared {
            self
        } else {
            self.after_begin_close(only_if_unowned).after_finish_close(on_runner)
        }
    }

    /// Closes the generation if no lease keeps it open; also tells whether its channel is to be
    /// stopped first.
    pub fn close_if_unowned(&mut self, on_runner: bool) -> (close: (bool, Close))
        ensures
            close.0 == old(self).begin_close_spec(true) is Started,
            close.1 == old(self).close_spec(true, on_runner),
            *final(self) == old(self).after_close_call(true, on_runner),
    {
        match self.begin_close(true) {
            BeginClose::Shared => (false, Close::Shared),
            BeginClose::Started => (true, self.finish_close(on_runner)),
            BeginClose::AlreadyClosing => (false, self.finish_close(on_runner)),
        }
    }

    /// Closes the generation whoever owns it; also tells whether its channel is to be stopped
    /// first.
    pub fn close_forced(&mut self, on_runner: bool) -> (close: (bool, Close))
        ensures
            close.0 == old(self).begin_close_spec(false) is Started,
            close.1 == old(self).close_spec(false, on_runner),
            !(close.1 is Shared),
            *final(self) == old(self).after_close_call(false, on_runner),
    {
        let started = match self.begin_close(false) {
            BeginClose::Started => true,
            // A forced close ignores external owners.
            BeginClose::Shared => false,
            BeginClose::AlreadyClosing => false,
        };
        (started, self.finish_close(on_runner))
    }

    /// Nobody refers to the generation any more: it is over, or its runner is, and nobody was left
    /// to join it.
    pub open spec fn is_forgotten_spec(self) -> bool {
        &&& self.external_count == 0
        &&& self.internal_count == 0
        &&& self.status is Closed || self.joinable && !self.join_delegated
    }

    /// Returns whether nobody refers to the generation any more.
    pub fn is_forgotten(&self) -> (forgotten: bool)
        ensures
            forgotten == self.is_forgotten_spec(),
    {
        if self.external_count != 0 || self.internal_count != 0 {
            return false;
        }
        match self.status {
            GenerationStatus::Closed => true,
            _ => self.joinable && !self.join_delegated,
        }
    }

    /// Returns whether the generation takes work.
    pub fn is_active(&self) -> (active: bool)
        ensures
            active == self.status.is_open(),
    {
        match self.status {
            GenerationStatus::Starting | GenerationStatus::Running => true,
            _ => false,
        }
    }
}

/// A reference that keeps a generation open.
///
/// It cannot be copied: each lease that was taken is released once.
pub struct ExternalLease {
    generation: DeviceGenerationId,
}

impl View for ExternalLease {
    type V = DeviceGenerationId;

    closed spec fn view(&self) -> DeviceGenerationId {
        self.generation
    }
}

impl ExternalLease {
    /// The lease that a generation with one more owner gave out.
    pub(crate) fn of(id: DeviceGenerationId) -> (lease: Self)
        ensures
            lease@ == id,
    {
        ExternalLease { generation: id }
    }

    /// Returns the generation that the lease keeps open.
    pub fn generation_id(&self) -> (id: DeviceGenerationId)
        ensures
            id == self@,
    {
        self.generation
    }

    /// Takes another lease on the same generation.
    pub fn duplicate(&self, generation: &mut RuntimeGeneration) -> (lease: Self)
        requires
            self@ == old(generation).id,
        ensures
            lease@ == self@,
            *final(generation) == old(generation).leased(),
    {
        generation.external_lease_unchecked()
    }

    /// Gives the lease up; `generation` is the one that it keeps open.
    ///
    /// The last lease closes the generation. Also tells whether the channel of the generation is
    /// to be stopped first.
    pub fn release(self, generation: &mut RuntimeGeneration, on_runner: bool) -> (close: (
        bool,
        Close,
    ))
        requires
            self@ == old(generation).id,
        ensures
            *final(generation) == released(*old(generation), on_runner),
            close.0 == (old(generation).external_count == 1 && old(generation).status.is_open()),
            close.1 == release_spec(*old(generation), on_runner),
            close.1 is Shared <==> old(generation).external_count != 1,
            final(generation).external_count == old(generation).external_count.wrapping_sub(1),
            final(generation).status is Closing && !(old(generation).status is Closing)
                <==> close.0,
    {
        let before: usize = generation.external_count;
        generation.external_count = before.wrapping_sub(1);
        if before != 1 {
            return (false, Close::Shared);
        }
        generation.close_if_unowned(on_runner)
    }
}

/// What giving up a lease asks for.
pub open spec fn release_spec(generation: RuntimeGeneration, on_runner: bool) -> Close {
    if generation.external_count != 1 {
        Close::Shared
    } else {
        generation.unleased().close_spec(true, on_runner)
    }
}

/// A generation after a lease was given up.
pub open spec fn released(generation: RuntimeGeneration, on_runner: bool) -> RuntimeGeneration {
    if generation.external_count != 1 {
        generation.unleased()
    } else {
        generation.unleased().after_close_call(true, on_runner)
    }
}

/// Outcome of releasing a device-runner generation lease.
#[derive(Clone, Copy, Debug, PartialEq, Eq, Structural)]
pub enum DeviceLeaseRelease {
    /// The release closed the generation and joined its runner.
    Closed,
    /// The release initiated closing from the runner thread; a delegated join remains active.
    Closing,
    /// Other external owners still retain the generation.
    Shared,
    /// The lease did not retain a channel-backed generation.
    Stateless,
}

/// What a release comes to, once the thread has done what was left to it; nothing while the runner
/// is still to be joined.
pub fn release_outcome(id: DeviceGenerationId, close: Close) -> (outcome: Option<
    Result<DeviceLeaseRelease, DeviceLeaseReleaseError>,
>)
    ensures
        match close {
            Close::Shared => outcome == Some(
                Ok::<DeviceLeaseRelease, DeviceLeaseReleaseError>(DeviceLeaseRelease::Shared),
            ),
            Close::Delegate(_) => outcome == Some(
                Ok::<DeviceLeaseRelease, DeviceLeaseReleaseError>(DeviceLeaseRelease::Closing),
            ),
            Close::Join(JoinRunner::Joined) => outcome == Some(
                Ok::<DeviceLeaseRelease, DeviceLeaseReleaseError>(DeviceLeaseRelease::Closed),
            ),
            Close::Join(JoinRunner::Panicked) => outcome matches Some(Err(error))
                && error.generation() == id,
            Close::Join(_) => outcome is None,
        },
        outcome is None <==> close == Close::Join(JoinRunner::Join) || close == Close::Join(
            JoinRunner::Wait,
        ),
        outcome is Some && outcome->0 is Err <==> close == Close::Join(JoinRunner::Panicked),
{
    match close {
        Close::Shared => Some(Ok(DeviceLeaseRelease::Shared)),
        Close::Delegate(_) => Some(Ok(DeviceLeaseRelease::Closing)),
        Close::Join(JoinRunner::Joined) => Some(Ok(DeviceLeaseRelease::Closed)),
        Close::Join(JoinRunner::Panicked) => Some(
            Err(DeviceLeaseReleaseError::closed_with_runner_panic(id)),
        ),
        Close::Join(_) => None,
    }
}

/// The name of the thread of a runner.
pub open spec fn runner_name(runner_id: RunnerId, id: DeviceGenerationId) -> Seq<char> {
    "DS"@ + (match runner_id.stage {
        DeviceServiceStage::Upstream => "U"@,
        DeviceServiceStage::Downstream => "D"@,
    }) + "-"@ + decimal_digits(runner_id.device.type_id as nat) + "-"@ + decimal_digits(
        runner_id.device.index_id as nat,
    ) + "-g"@ + decimal_digits(id.0 as nat)
}

/// Names the thread of a runner.
pub fn runner_thread_name(runner_id: RunnerId, id: DeviceGenerationId) -> (name: String)
    ensures
        name@ == runner_name(runner_id, id),
{
    let mut name = String::from_str("DS");
    match runner_id.stage {
        DeviceServiceStage::Upstream => {
            name.append("U");
        },
        DeviceServiceStage::Downstream => {
            name.append("D");
        },
    }
    name.append("-");
    name.append(decimal(runner_id.device.type_id as u64).as_str());
    name.append("-");
    name.append(decimal(runner_id.device.index_id as u64).as_str());
    name.append("-g");
    name.append(decimal(id.0).as_str());
    name
}

/// Names the thread that joins a runner.
pub fn joiner_thread_name(runner_id: RunnerId) -> (name: String)
    ensures
        name@ == "DS-J-"@ + decimal_digits(runner_id.device.type_id as nat) + "-"@
            + decimal_digits(runner_id.device.index_id as nat),
{
    let mut name = String::from_str("DS-J-");
    name.append(decimal(runner_id.device.type_id as u64).as_str());
    name.append("-");
    name.append(decimal(runner_id.device.index_id as u64).as_str());
    name
}

/// Process-wide device-generation counters.
#[derive(Clone, Copy, Debug, PartialEq, Eq, Structural)]
pub struct DeviceGenerationMetrics {
    /// Number of generations created.
    pub created_generations: u64,
    /// Number of generations closed.
    pub closed_generations: u64,
}

impl Default for DeviceGenerationMetrics {
    fn default() -> (metrics: Self)
        ensures
            metrics == (DeviceGenerationMetrics { created_generations: 0, closed_generations: 0 }),
    {
        DeviceGenerationMetrics { created_generations: 0, closed_generations: 0 }
    }
}

impl DeviceGenerationMetrics {
    /// Returns the number of generations created.
    pub fn created_generations(&self) -> (count: u64)
        ensures
            count == self.created_generations,
    {
        self.created_generations
    }

    /// Returns the number of generations closed.
    pub fn closed_generations(&self) -> (count: u64)
        ensures
            count == self.closed_generations,
    {
        self.closed_generations
    }

    /// Returns the number of active generations.
    pub fn active_generations(&self) -> (count: u64)
        ensures
            count == self.created_generations.saturating_sub(self.closed_generations),
            self.created_generations >= self.closed_generations ==> count
                == self.created_generations - self.closed_generations,
            self.created_generations < self.closed_generations ==> count == 0,
    {
        self.created_generations.saturating_sub(self.closed_generations)
    }

    /// Returns the non-negative delta from an earlier snapshot.
    pub fn delta(self, earlier: Self) -> (delta: Self)
        ensures
            delta == (DeviceGenerationMetrics {
                created_generations: self.created_generations.saturating_sub(
                    earlier.created_generations,
                ),
                closed_generations: self.closed_generations.saturating_sub(
                    earlier.closed_generations,
                ),
            }),
            self.created_generations >= earlier.created_generations ==> delta.created_generations
                == self.created_generations - earlier.created_generations,
            self.created_generations < earlier.created_generations ==> delta.created_generations
                == 0,
            self.closed_generations >= earlier.closed_generations ==> delta.closed_generations
                == self.closed_generations - earlier.closed_generations,
            self.closed_generations < earlier.closed_generations ==> delta.closed_generations == 0,
    {
        DeviceGenerationMetrics {
            created_generations: self.created_generations.saturating_sub(
                earlier.created_generations,
            ),
            closed_generations: self.closed_generations.saturating_sub(
                earlier.closed_generations,
            ),
        }
    }
}

/// Returns process-wide device-generation counters.
pub fn device_generation_metrics(counters: &GenerationCounters) -> (metrics:
    DeviceGenerationMetrics)
    ensures
        metrics == (DeviceGenerationMetrics {
            created_generations: counters.created,
            closed_generations: counters.closed,
        }),
{
    DeviceGenerationMetrics {
        created_generations: counters.created,
        closed_generations: counters.closed,
    }
}

} // verus!
