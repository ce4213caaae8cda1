//! Stops and joins every device runner.
//!
//! Runners are shut down upstream first, so the work that producers accepted is drained before the
//! services that consume it are closed.

use crate::errors::DeviceServicesShutdownError;
use crate::generation::{ExternalLease, RuntimeGeneration};
use crate::ids::{DeviceGenerationId, DeviceId, DeviceServiceStage};
use crate::key_map::KeySet;
use crate::registry::{DeviceRuntime, Selection};
use vstd::prelude::*;

verus! {

use crate::barrier::LifecycleState;
use crate::registry::{
    forget_channels, forget_runners, held, lists_channels, lists_runners, pin_all,
    runner_generations, RuntimeView,
};

/// What a thread that shuts all services down does next.
#[derive(Clone, Copy, Debug, PartialEq, Eq, Structural)]
pub enum ShutdownPhase {
    /// Close the barrier.
    Acquire,
    /// Wait until nothing is being initialized, then keep downstream generations open.
    Pin,
    /// Wait until nothing is being initialized.
    Quiet(DeviceServiceStage),
    /// Forget the services of a stage.
    Channels(DeviceServiceStage),
    /// Release the leases that forgotten services held.
    DropChannels(DeviceServiceStage),
    /// Forget the runners of a stage.
    Runners(DeviceServiceStage),
    /// Release the leases that forgotten runners held.
    DropRunners(DeviceServiceStage),
    /// Close the generations of a stage.
    Close(DeviceServiceStage),
    /// A generation of a stage is being closed.
    Closing(DeviceServiceStage),
    /// Let go of the generations that were kept open.
    Unpin,
    /// Nothing: the shutdown is over.
    Over,
}

/// What happened since the last step.
#[derive(Clone, Copy, Debug, PartialEq, Eq, Structural)]
pub enum ShutdownEvent {
    /// What the last action asked for was done.
    Resume,
    /// The generation is closed.
    Closed {
        /// Whether its runner panicked.
        panicked: bool,
    },
}

/// What the thread does after a step.
pub enum ShutdownAction {
    /// Take the next step.
    Continue,
    /// Wait until another shutdown is over.
    WaitForShutdown,
    /// Wait until nothing is being initialized.
    WaitForInitializers,
    /// Wait until no thread looks for a service.
    WaitForChannels,
    /// Release a lease.
    Release(ExternalLease),
    /// Close a generation by force.
    Close(DeviceGenerationId),
    /// The shutdown is over.
    Done(Result<(), DeviceServicesShutdownError>),
}

/// A thread that shuts all services down, or those of one device.
pub struct ServicesShutdown {
    device: Option<DeviceId>,
    phase: ShutdownPhase,
    pins: Vec<u64>,
    freed: Vec<u64>,
    closers: Vec<u64>,
    runner_panics: usize,
}

/// What a thread that shuts services down remembers.
#[verifier::ext_equal]
pub struct ShutdownView {
    /// The device, where it shuts down the services of one alone.
    pub device: Option<DeviceId>,
    /// What the thread does next.
    pub phase: ShutdownPhase,
    /// The downstream generations that it keeps open.
    pub pins: Seq<u64>,
    /// The generations on which it has leases to release.
    pub freed: Seq<u64>,
    /// The generations that are still to be closed.
    pub closers: Seq<u64>,
    /// Number of runners that panicked.
    pub runner_panics: usize,
}

impl View for ServicesShutdown {
    type V = ShutdownView;

    closed spec fn view(&self) -> ShutdownView {
        ShutdownView {
            device: self.device,
            phase: self.phase,
            pins: self.pins@,
            freed: self.freed@,
            closers: self.closers@,
            runner_panics: self.runner_panics,
        }
    }
}

/// The numbers of a sequence, each at its first place only.
pub open spec fn distinct(numbers: Seq<u64>) -> Seq<u64>
    decreases numbers.len(),
{
    if numbers.len() == 0 {
        Seq::empty()
    } else if numbers.drop_last().contains(numbers.last()) {
        distinct(numbers.drop_last())
    } else {
        distinct(numbers.drop_last()).push(numbers.last())
    }
}

/// The numbers are those of generations.
pub open spec fn all_known(generations: Map<u64, RuntimeGeneration>, ids: Seq<u64>) -> bool {
    forall|i: int| 0 <= i < ids.len() ==> generations.contains_key(#[trigger] ids[i])
}

/// The phase after the generations of a stage are closed.
pub open spec fn after_stage(stage: DeviceServiceStage) -> ShutdownPhase {
    match stage {
        DeviceServiceStage::Upstream => ShutdownPhase::Quiet(DeviceServiceStage::Downstream),
        DeviceServiceStage::Downstream => ShutdownPhase::Unpin,
    }
}

impl ShutdownView {
    /// A shutdown that has done nothing yet.
    pub open spec fn init(device: Option<DeviceId>) -> Self {
        ShutdownView {
            device,
            phase: ShutdownPhase::Acquire,
            pins: Seq::empty(),
            freed: Seq::empty(),
            closers: Seq::empty(),
            runner_panics: 0,
        }
    }

    /// The runners of a stage that it shuts down.
    pub open spec fn selection(self, stage: DeviceServiceStage) -> Selection {
        Selection { stage, device: self.device }
    }

    /// The shutdown in another phase.
    pub open spec fn at(self, phase: ShutdownPhase) -> Self {
        ShutdownView { phase, ..self }
    }

    /// Every generation that the shutdown remembers is known to the runtime.
    pub open spec fn fits(self, rt: RuntimeView) -> bool {
        &&& all_known(rt.generations, self.pins)
        &&& all_known(rt.generations, self.freed)
        &&& all_known(rt.generations, self.closers)
    }
}

/// One step of a shutdown: what it does to the runtime and to itself, and what the thread does
/// after it. Where registries are walked, the order is left open.
pub open spec fn shutdown_step(
    rt: RuntimeView,
    sd: ShutdownView,
    event: ShutdownEvent,
    rt2: RuntimeView,
    sd2: ShutdownView,
    action: ShutdownAction,
) -> bool {
    match sd.phase {
        ShutdownPhase::Acquire => if rt.barrier.shutting_down {
            rt2 == rt && sd2 == sd && action is WaitForShutdown
        } else {
            &&& rt2 == (RuntimeView {
                barrier: LifecycleState { shutting_down: true, ..rt.barrier },
                ..rt
            })
            &&& sd2 == sd.at(ShutdownPhase::Pin)
            &&& action is Continue
        },
        ShutdownPhase::Pin => if rt.barrier.active_initializers != 0 {
            rt2 == rt && sd2 == sd && action is WaitForInitializers
        } else {
            &&& exists|keys: Seq<u128>| #[trigger]
                lists_runners(
                    keys,
                    rt.runners,
                    sd.selection(DeviceServiceStage::Downstream),
                ) && (rt2, sd2.pins) == pin_all(rt, keys)
            &&& sd2 == (ShutdownView {
                pins: sd2.pins,
                phase: ShutdownPhase::Quiet(DeviceServiceStage::Upstream),
                ..sd
            })
            &&& action is Continue
        },
        ShutdownPhase::Quiet(stage) => if rt.barrier.active_initializers != 0 {
            rt2 == rt && sd2 == sd && action is WaitForInitializers
        } else {
            rt2 == rt && sd2 == sd.at(ShutdownPhase::Channels(stage)) && action is Continue
        },
        ShutdownPhase::Channels(stage) => if rt.initializing {
            rt2 == rt && sd2 == sd && action is WaitForChannels
        } else {
            &&& exists|keys: Seq<u128>| #[trigger]
                lists_channels(keys, rt.channels, sd.selection(stage)) && (rt2, sd2.freed) == forget_channels(
                    rt,
                    keys,
                )
            &&& sd2 == (ShutdownView {
                freed: sd2.freed,
                phase: ShutdownPhase::DropChannels(stage),
                ..sd
            })
            &&& action is Continue
        },
        ShutdownPhase::DropChannels(stage) => {
            &&& rt2 == rt
            &&& if sd.freed.len() > 0 {
                &&& sd2 == (ShutdownView { freed: sd.freed.drop_last(), ..sd })
                &&& action matches ShutdownAction::Release(lease) && lease@.0 == sd.freed.last()
            } else {
                sd2 == sd.at(ShutdownPhase::Runners(stage)) && action is Continue
            }
        },
        ShutdownPhase::Runners(stage) => {
            &&& exists|keys: Seq<u128>| #[trigger]
                lists_runners(keys, rt.runners, sd.selection(stage)) && rt2 == forget_runners(rt, keys)
                    && sd2.closers == distinct(held(rt, runner_generations(rt, keys))) && sd2.freed == (
                if rt.strong {
                    runner_generations(rt, keys)
                } else {
                    Seq::empty()
                })
            &&& sd2 == (ShutdownView {
                freed: sd2.freed,
                closers: sd2.closers,
                phase: ShutdownPhase::DropRunners(stage),
                ..sd
            })
            &&& action is Continue
        },
        ShutdownPhase::DropRunners(stage) => {
            &&& rt2 == rt
            &&& if sd.freed.len() > 0 {
                &&& sd2 == (ShutdownView { freed: sd.freed.drop_last(), ..sd })
                &&& action matches ShutdownAction::Release(lease) && lease@.0 == sd.freed.last()
            } else {
                sd2 == sd.at(ShutdownPhase::Close(stage)) && action is Continue
            }
        },
        ShutdownPhase::Close(stage) => {
            &&& rt2 == rt
            &&& if sd.closers.len() > 0 {
                &&& sd2 == (ShutdownView {
                    closers: sd.closers.drop_last(),
                    phase: ShutdownPhase::Closing(stage),
                    ..sd
                })
                &&& action == ShutdownAction::Close(DeviceGenerationId(sd.closers.last()))
            } else {
                sd2 == sd.at(after_stage(stage)) && action is Continue
            }
        },
        ShutdownPhase::Closing(stage) => {
            &&& rt2 == rt
            &&& action is Continue
            &&& sd2 == (ShutdownView {
                runner_panics: if event == (ShutdownEvent::Closed { panicked: true }) {
                    sd.runner_panics.wrapping_add(1)
                } else {
                    sd.runner_panics
                },
                phase: ShutdownPhase::Close(stage),
                ..sd
            })
        },
        ShutdownPhase::Unpin => if sd.pins.len() > 0 {
            &&& rt2 == rt
            &&& sd2 == (ShutdownView { pins: sd.pins.drop_last(), ..sd })
            &&& action matches ShutdownAction::Release(lease) && lease@.0 == sd.pins.last()
        } else {
            &&& rt2 == (RuntimeView {
                barrier: LifecycleState { shutting_down: false, ..rt.barrier },
                ..rt
            })
            &&& sd2 == sd.at(ShutdownPhase::Over)
            &&& shutdown_result(sd.runner_panics, action)
        },
        ShutdownPhase::Over => rt2 == rt && sd2 == sd && shutdown_result(sd.runner_panics, action),
    }
}

/// The shutdown failed if and only if runners panicked, and tells how many.
pub open spec fn shutdown_result(runner_panics: usize, action: ShutdownAction) -> bool {
    if runner_panics == 0 {
        action == ShutdownAction::Done(Ok(()))
    } else {
        action matches ShutdownAction::Done(Err(error)) && error.panics() == runner_panics
    }
}

impl ServicesShutdown {
    /// Starts to shut all services down, or those of one device. New submissions must have
    /// stopped.
    pub fn new(device: Option<DeviceId>) -> (shutdown: Self)
        ensures
            shutdown@ == ShutdownView::init(device),
            forall|rt: RuntimeView| shutdown@.fits(rt),
    {
        ServicesShutdown {
            device,
            phase: ShutdownPhase::Acquire,
            pins: Vec::new(),
            freed: Vec::new(),
            closers: Vec::new(),
            runner_panics: 0,
        }
    }

    /// Takes one step.
    pub fn step(&mut self, runtime: &mut DeviceRuntime, event: ShutdownEvent) -> (action:
        ShutdownAction)
        requires
            old(runtime).wf(),
            old(self)@.fits(old(runtime)@),
        ensures
            shutdown_step(
                old(runtime)@,
                old(self)@,
                event,
                final(runtime)@,
                final(self)@,
                action,
            ),
            final(runtime).wf(),
            final(self)@.fits(final(runtime)@),
    {
        proof {
            lemma_fits_shrinks(old(self)@, old(runtime)@);
        }
        match self.phase {
            ShutdownPhase::Acquire => {
                if !runtime.begin_shutdown() {
                    assert(runtime@ =~= old(runtime)@);
                    return ShutdownAction::WaitForShutdown;
                }
                self.phase = ShutdownPhase::Pin;
                ShutdownAction::Continue
            },
            ShutdownPhase::Pin => {
                if !runtime.is_quiet() {
                    return ShutdownAction::WaitForInitializers;
                }
                self.pins = runtime.pin_runners(self.selection(DeviceServiceStage::Downstream));
                self.phase = ShutdownPhase::Quiet(DeviceServiceStage::Upstream);
                proof {
                    let keys = choose|keys: Seq<u128>| #[trigger]
                        lists_runners(
                            keys,
                            old(runtime)@.runners,
                            self@.selection(DeviceServiceStage::Downstream),
                        ) && (runtime@, self@.pins) == pin_all(old(runtime)@, keys);
                    lemma_pins_known(old(runtime)@, keys);
                    lemma_known_elsewhere(
                        old(runtime)@.generations,
                        runtime@.generations,
                        self@.freed,
                    );
                    lemma_known_elsewhere(
                        old(runtime)@.generations,
                        runtime@.generations,
                        self@.closers,
                    );
                }
                ShutdownAction::Continue
            },
            ShutdownPhase::Quiet(stage) => {
                if !runtime.is_quiet() {
                    return ShutdownAction::WaitForInitializers;
                }
                self.phase = ShutdownPhase::Channels(stage);
                ShutdownAction::Continue
            },
            ShutdownPhase::Channels(stage) => {
                if runtime.is_initializing() {
                    return ShutdownAction::WaitForChannels;
                }
                self.freed = runtime.remove_channels(self.selection(stage));
                self.phase = ShutdownPhase::DropChannels(stage);
                proof {
                    let keys = choose|keys: Seq<u128>| #[trigger]
                        lists_channels(keys, old(runtime)@.channels, self@.selection(stage)) && (
                        runtime@,
                        self@.freed,
                        ) == forget_channels(old(runtime)@, keys);
                    lemma_freed_known(old(runtime)@, keys);
                }
                ShutdownAction::Continue
            },
            ShutdownPhase::DropChannels(stage) => {
                match self.freed.pop() {
                    Some(id) => {
                        assert(self@.freed =~= old(self)@.freed.drop_last());
                        ShutdownAction::Release(ExternalLease::of(DeviceGenerationId::new(id)))
                    },
                    None => {
                        self.phase = ShutdownPhase::Runners(stage);
                        ShutdownAction::Continue
                    },
                }
            },
            ShutdownPhase::Runners(stage) => self.take_runners(runtime, stage),
            ShutdownPhase::DropRunners(stage) => {
                match self.freed.pop() {
                    Some(id) => {
                        assert(self@.freed =~= old(self)@.freed.drop_last());
                        ShutdownAction::Release(ExternalLease::of(DeviceGenerationId::new(id)))
                    },
                    None => {
                        self.phase = ShutdownPhase::Close(stage);
                        ShutdownAction::Continue
                    },
                }
            },
            ShutdownPhase::Close(stage) => {
                match self.closers.pop() {
                    Some(id) => {
                        assert(self@.closers =~= old(self)@.closers.drop_last());
                        self.phase = ShutdownPhase::Closing(stage);
                        ShutdownAction::Close(DeviceGenerationId::new(id))
                    },
                    None => {
                        self.phase = match stage {
                            DeviceServiceStage::Upstream => ShutdownPhase::Quiet(
                                DeviceServiceStage::Downstream,
                            ),
                            DeviceServiceStage::Downstream => ShutdownPhase::Unpin,
                        };
                        ShutdownAction::Continue
                    },
                }
            },
            ShutdownPhase::Closing(stage) => {
                match event {
                    ShutdownEvent::Closed { panicked: true } => {
                        self.runner_panics = self.runner_panics.wrapping_add(1);
                    },
                    _ => {},
                }
                self.phase = ShutdownPhase::Close(stage);
                ShutdownAction::Continue
            },
            ShutdownPhase::Unpin => {
                match self.pins.pop() {
                    Some(id) => {
                        assert(self@.pins =~= old(self)@.pins.drop_last());
                        ShutdownAction::Release(ExternalLease::of(DeviceGenerationId::new(id)))
                    },
                    None => {
                        runtime.end_shutdown();
                        self.phase = ShutdownPhase::Over;
                        self.done()
                    },
                }
            },
            ShutdownPhase::Over => self.done(),
        }
    }

    fn selection(&self, stage: DeviceServiceStage) -> (selection: Selection)
        ensures
            selection == self@.selection(stage),
    {
        Selection { stage, device: self.device }
    }

    fn done(&self) -> (action: ShutdownAction)
        ensures
            shutdown_result(self@.runner_panics, action),
    {
        if self.runner_panics == 0 {
            ShutdownAction::Done(Ok(()))
        } else {
            ShutdownAction::Done(Err(DeviceServicesShutdownError::new(self.runner_panics)))
        }
    }

    /// Forgets the runners of a stage, to close each of their generations once.
    fn take_runners(&mut self, runtime: &mut DeviceRuntime, stage: DeviceServiceStage) -> (action:
        ShutdownAction)
        requires
            old(runtime).wf(),
            old(self)@.fits(old(runtime)@),
            old(self)@.phase == ShutdownPhase::Runners(stage),
        ensures
            shutdown_step(
                old(runtime)@,
                old(self)@,
                ShutdownEvent::Resume,
                final(runtime)@,
                final(self)@,
                action,
            ),
            final(runtime).wf(),
            final(self)@.fits(final(runtime)@),
    {
        let removed = runtime.remove_runners(self.selection(stage));
        let ghost rt = old(runtime)@;
        let ghost keys = choose|keys: Seq<u128>| #[trigger]
            lists_runners(keys, rt.runners, self@.selection(stage)) && runtime@ == forget_runners(
                rt,
                keys,
            ) && removed@ == runner_generations(rt, keys);
        let mut seen = KeySet::new();
        let mut closers: Vec<u64> = Vec::new();
        let mut index: usize = 0;
        proof {
            assert(removed@.take(0) =~= Seq::<u64>::empty());
            lemma_forgotten_keeps_generations(rt, keys);
            lemma_removed_known(rt, keys, self@.selection(stage));
        }
        while index < removed.len()
            invariant
                index <= removed.len(),
                runtime@.generations == rt.generations,
                all_known(rt.generations, removed@),
                closers@ == distinct(held(rt, removed@.take(index as int))),
                forall|id: u64| #[trigger]
                    seen@.contains(id) <==> held(rt, removed@.take(index as int)).contains(id),
            decreases removed.len() - index,
        {
            let id: u64 = removed[index];
            let ghost before = seen@;
            let ghost earlier = held(rt, removed@.take(index as int));
            let ghost later = held(rt, removed@.take(index + 1));
            proof {
                assert(removed@.take(index + 1).drop_last() =~= removed@.take(index as int));
                assert(removed@.take(index + 1).last() == id);
                assert(runtime@.is_held(id) == rt.is_held(id));
            }
            if runtime.is_held(DeviceGenerationId::new(id)) {
                proof {
                    assert(later.drop_last() =~= earlier);
                    assert(later.last() == id);
                    lemma_contains_next(later, earlier.len() as int);
                    assert(later.take(earlier.len() as int) =~= earlier);
                    assert(later.take(earlier.len() as int + 1) =~= later);
                    assert(before.contains(id) <==> earlier.contains(id));
                }
                if seen.insert(id) {
                    closers.push(id);
                }
                proof {
                    assert(closers@ =~= distinct(later));
                    assert forall|n: u64| #[trigger] seen@.contains(n) <==> later.contains(n) by {
                        assert(before.contains(n) <==> earlier.contains(n));
                    }
                }
            }
            index = index + 1;
        }
        assert(removed@.take(index as int) =~= removed@);
        proof {
            lemma_distinct_from(held(rt, removed@));
            lemma_held_from(rt, removed@);
            assert forall|i: int| 0 <= i < closers@.len() implies runtime@.generations.contains_key(
                #[trigger] closers@[i],
            ) by {
                assert(held(rt, removed@).contains(closers@[i]));
                assert(removed@.contains(closers@[i]));
            }
            assert(all_known(runtime@.generations, closers@));
        }
        self.closers = closers;
        self.freed = if runtime.is_strong() {
            removed
        } else {
            Vec::new()
        };
        self.phase = ShutdownPhase::DropRunners(stage);
        ShutdownAction::Continue
    }
}

/// What a shutdown remembers is known to the runtime also once it forgets the last of each.
proof fn lemma_fits_shrinks(sd: ShutdownView, rt: RuntimeView)
    requires
        sd.fits(rt),
    ensures
        sd.pins.len() > 0 ==> all_known(rt.generations, sd.pins.drop_last()),
        sd.freed.len() > 0 ==> all_known(rt.generations, sd.freed.drop_last()),
        sd.closers.len() > 0 ==> all_known(rt.generations, sd.closers.drop_last()),
{
    if sd.pins.len() > 0 {
        lemma_known_shrinks(rt.generations, sd.pins);
    }
    if sd.freed.len() > 0 {
        lemma_known_shrinks(rt.generations, sd.freed);
    }
    if sd.closers.len() > 0 {
        lemma_known_shrinks(rt.generations, sd.closers);
    }
}

proof fn lemma_known_shrinks(generations: Map<u64, RuntimeGeneration>, ids: Seq<u64>)
    requires
        ids.len() > 0,
        all_known(generations, ids),
    ensures
        all_known(generations, ids.drop_last()),
{
    let fewer = ids.drop_last();
    assert forall|i: int| 0 <= i < fewer.len() implies generations.contains_key(
        #[trigger] fewer[i],
    ) by {
        assert(generations.contains_key(ids[i]));
    }
}

proof fn lemma_known_elsewhere(
    before: Map<u64, RuntimeGeneration>,
    after: Map<u64, RuntimeGeneration>,
    ids: Seq<u64>,
)
    requires
        all_known(before, ids),
        forall|id: u64| #[trigger] after.contains_key(id) <==> before.contains_key(id),
    ensures
        all_known(after, ids),
{
    assert forall|i: int| 0 <= i < ids.len() implies after.contains_key(#[trigger] ids[i]) by {
        assert(before.contains_key(ids[i]));
    }
}

proof fn lemma_contains_next(s: Seq<u64>, index: int)
    requires
        0 <= index < s.len(),
    ensures
        forall|id: u64| #[trigger]
            s.take(index + 1).contains(id) <==> s.take(index).contains(id) || id == s[index],
{
    assert forall|id: u64| #[trigger]
        s.take(index + 1).contains(id) <==> s.take(index).contains(id) || id == s[index] by {
        let longer = s.take(index + 1);
        assert(longer[index] == s[index]);
        if s.take(index).contains(id) {
            let n = choose|n: int| 0 <= n < index && s.take(index)[n] == id;
            assert(longer[n] == id);
        }
        if longer.contains(id) && id != s[index] {
            let n = choose|n: int| 0 <= n < longer.len() && longer[n] == id;
            assert(s.take(index)[n] == id);
        }
    }
}

/// Leaving out repetitions keeps what the sequence holds, and nothing else.
pub proof fn lemma_distinct_from(s: Seq<u64>)
    ensures
        distinct(s).no_duplicates(),
        forall|id: u64| #[trigger] distinct(s).contains(id) <==> s.contains(id),
        forall|i: int| 0 <= i < distinct(s).len() ==> s.contains(#[trigger] distinct(s)[i]),
    decreases s.len(),
{
    let d = distinct(s);
    if s.len() > 0 {
        let t = s.drop_last();
        let e = distinct(t);
        lemma_distinct_from(t);
        assert(s.take(s.len() - 1) =~= t);
        assert(s.take(s.len() - 1 + 1) =~= s);
        lemma_contains_next(s, s.len() - 1);
        assert forall|id: u64| #[trigger] d.contains(id) <==> s.contains(id) by {
            assert(e.contains(id) <==> t.contains(id));
            if d != e {
                assert(d[e.len() as int] == s.last());
                if e.contains(id) {
                    let n = choose|n: int| 0 <= n < e.len() && e[n] == id;
                    assert(d[n] == id);
                }
                if d.contains(id) && id != s.last() {
                    let n = choose|n: int| 0 <= n < d.len() && d[n] == id;
                    assert(e[n] == id);
                }
            }
        }
        if d != e {
            assert(!e.contains(s.last()));
            assert forall|i: int, j: int| 0 <= i < j < d.len() implies d[i] != d[j] by {
                if j == e.len() {
                    assert(e.contains(e[i]));
                }
            }
        }
    }
    assert forall|i: int| 0 <= i < d.len() implies s.contains(#[trigger] d[i]) by {
        assert(d.contains(d[i]));
    }
}

/// What is held among generations is some of them.
pub proof fn lemma_held_from(rt: RuntimeView, ids: Seq<u64>)
    ensures
        forall|id: u64| #[trigger]
            held(rt, ids).contains(id) <==> ids.contains(id) && rt.is_held(id),
    decreases ids.len(),
{
    if ids.len() > 0 {
        let rest = ids.drop_last();
        lemma_held_from(rt, rest);
        assert(ids.take(ids.len() - 1) =~= rest);
        assert(ids.take(ids.len() - 1 + 1) =~= ids);
        lemma_contains_next(ids, ids.len() - 1);
        let fewer = held(rt, rest);
        let all = held(rt, ids);
        assert forall|id: u64| #[trigger]
            all.contains(id) <==> ids.contains(id) && rt.is_held(id) by {
            assert(fewer.contains(id) <==> rest.contains(id) && rt.is_held(id));
            if rt.is_held(ids.last()) {
                lemma_contains_next(all, fewer.len() as int);
                assert(all.take(fewer.len() as int) =~= fewer);
                assert(all.take(fewer.len() as int + 1) =~= all);
            }
        }
    }
}

proof fn lemma_pins_known(rt: RuntimeView, keys: Seq<u128>)
    requires
        rt.wf(),
        forall|k: u128| #[trigger] keys.contains(k) ==> rt.runners.contains_key(k),
    ensures
        ({
            let (after, pins) = pin_all(rt, keys);
            &&& after.wf()
            &&& after.runners == rt.runners
            &&& forall|id: u64| #[trigger]
                after.generations.contains_key(id) <==> rt.generations.contains_key(id)
            &&& all_known(after.generations, pins)
        }),
    decreases keys.len(),
{
    if keys.len() > 0 {
        let rest = keys.drop_last();
        assert forall|k: u128| #[trigger] rest.contains(k) implies rt.runners.contains_key(k) by {
            let n = choose|n: int| 0 <= n < rest.len() && rest[n] == k;
            assert(keys[n] == k);
            assert(keys.contains(k));
        }
        lemma_pins_known(rt, rest);
        assert(keys.contains(keys.last()));
    }
}

proof fn lemma_freed_known(rt: RuntimeView, keys: Seq<u128>)
    requires
        rt.wf(),
    ensures
        ({
            let (after, freed) = forget_channels(rt, keys);
            &&& after.generations == rt.generations
            &&& forall|s: u64| #[trigger]
                after.states.contains_key(s) ==> rt.generations.contains_key(
                    after.states[s].generation.0,
                )
            &&& all_known(rt.generations, freed)
        }),
    decreases keys.len(),
{
    if keys.len() > 0 {
        lemma_freed_known(rt, keys.drop_last());
    }
}

proof fn lemma_forgotten_keeps_generations(rt: RuntimeView, keys: Seq<u128>)
    ensures
        forget_runners(rt, keys).generations == rt.generations,
        forget_runners(rt, keys).strong == rt.strong,
    decreases keys.len(),
{
    if keys.len() > 0 {
        lemma_forgotten_keeps_generations(rt, keys.drop_last());
    }
}

proof fn lemma_removed_known(rt: RuntimeView, keys: Seq<u128>, selection: Selection)
    requires
        rt.wf(),
        lists_runners(keys, rt.runners, selection),
    ensures
        all_known(rt.generations, runner_generations(rt, keys)),
        forall|id: u64| #[trigger]
            runner_generations(rt, keys).contains(id) ==> rt.generations.contains_key(id),
{
    let removed = runner_generations(rt, keys);
    assert forall|i: int| 0 <= i < keys.len() implies rt.generations.contains_key(
        #[trigger] removed[i],
    ) by {
        assert(keys.contains(keys[i]));
    }
}

/// Each number of a sequence is kept once, and no other is.
pub proof fn law_distinct_keeps_each_once(numbers: Seq<u64>)
    ensures
        distinct(numbers).no_duplicates(),
        forall|n: u64| #[trigger] distinct(numbers).contains(n) <==> numbers.contains(n),
        numbers.no_duplicates() ==> distinct(numbers) == numbers,
    decreases numbers.len(),
{
    if numbers.len() > 0 {
        let rest = numbers.drop_last();
        let last = numbers.last();
        law_distinct_keeps_each_once(rest);
        assert(numbers[numbers.len() - 1] == last);
        assert forall|n: u64| #[trigger] distinct(numbers).contains(n) <==> numbers.contains(
            n,
        ) by {
            if numbers.contains(n) && n != last {
                let i = choose|i: int| 0 <= i < numbers.len() && numbers[i] == n;
                assert(rest[i] == n);
                assert(distinct(rest).contains(n));
            }
            if rest.contains(n) {
                let i = choose|i: int| 0 <= i < rest.len() && rest[i] == n;
                assert(numbers[i] == n);
            }
            if !rest.contains(last) {
                let longer = distinct(rest).push(last);
                assert(longer[longer.len() - 1] == last);
                if distinct(rest).contains(n) {
                    let i = choose|i: int| 0 <= i < distinct(rest).len() && distinct(rest)[i] == n;
                    assert(longer[i] == n);
                }
                if longer.contains(n) && n != last {
                    let i = choose|i: int| 0 <= i < longer.len() && longer[i] == n;
                    assert(distinct(rest)[i] == n);
                }
            } else {
                assert(distinct(rest).contains(last));
            }
        }
        if !rest.contains(last) {
            let longer = distinct(rest).push(last);
            assert forall|i: int, j: int| 0 <= i < j < longer.len() implies longer[i]
                != longer[j] by {
                if j == distinct(rest).len() {
                    assert(distinct(rest).contains(longer[i]));
                } else {
                    assert(distinct(rest)[i] != distinct(rest)[j]);
                }
            }
        }
        if numbers.no_duplicates() {
            assert(rest.no_duplicates());
            if rest.contains(last) {
                let i = choose|i: int| 0 <= i < rest.len() && rest[i] == last;
                assert(numbers[i] == numbers[numbers.len() - 1]);
            }
            assert(rest.push(last) =~= numbers);
        }
    }
}

/// A shutdown ends only once it has let go of everything that it kept open; it then opens the
/// barrier, and succeeds exactly if no runner panicked. Until then nothing opens the barrier, and
/// nothing closes it but the first step.
pub proof fn law_shutdown_ends_when_it_lets_go(
    rt: RuntimeView,
    sd: ShutdownView,
    event: ShutdownEvent,
    rt2: RuntimeView,
    sd2: ShutdownView,
    action: ShutdownAction,
)
    requires
        shutdown_step(rt, sd, event, rt2, sd2, action),
        !(sd.phase is Over),
    ensures
        action is Done <==> sd.phase is Unpin && sd.pins.len() == 0,
        action is Done ==> sd2.phase is Over && !rt2.barrier.shutting_down,
        action is Done ==> (action->Done_0 is Ok <==> sd.runner_panics == 0),
        action is Done && action->Done_0 is Err ==> action->Done_0->Err_0.panics()
            == sd.runner_panics,
        !(action is Done) && !(sd.phase is Acquire) ==> rt2.barrier.shutting_down
            == rt.barrier.shutting_down,
        sd.phase is Acquire ==> rt2.barrier.shutting_down,
        rt2.barrier.active_initializers == rt.barrier.active_initializers,
        sd2.device == sd.device,
{
    if sd.phase is Pin && rt.barrier.active_initializers == 0 {
        let keys = choose|keys: Seq<u128>| #[trigger]
            lists_runners(keys, rt.runners, sd.selection(DeviceServiceStage::Downstream)) && (
            rt2,
            sd2.pins,
            ) == pin_all(rt, keys);
        lemma_pins_keep_barrier(rt, keys);
    }
    if sd.phase is Channels && !rt.initializing {
        let keys = choose|keys: Seq<u128>| #[trigger]
            lists_channels(keys, rt.channels, sd.selection(sd.phase->Channels_0)) && (
            rt2,
            sd2.freed,
            ) == forget_channels(rt, keys);
        lemma_forgetting_keeps_barrier(rt, keys);
    }
    if sd.phase is Runners {
        let keys = choose|keys: Seq<u128>| #[trigger]
            lists_runners(keys, rt.runners, sd.selection(sd.phase->Runners_0)) && rt2
                == forget_runners(rt, keys);
        lemma_forgetting_keeps_barrier(rt, keys);
    }
}

proof fn lemma_pins_keep_barrier(rt: RuntimeView, keys: Seq<u128>)
    ensures
        pin_all(rt, keys).0.barrier == rt.barrier,
    decreases keys.len(),
{
    if keys.len() > 0 {
        lemma_pins_keep_barrier(rt, keys.drop_last());
    }
}

proof fn lemma_forgetting_keeps_barrier(rt: RuntimeView, keys: Seq<u128>)
    ensures
        forget_channels(rt, keys).0.barrier == rt.barrier,
        forget_runners(rt, keys).barrier == rt.barrier,
    decreases keys.len(),
{
    if keys.len() > 0 {
        lemma_forgetting_keeps_barrier(rt, keys.drop_last());
    }
}

} // verus!
