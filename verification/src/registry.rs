//! The generations, channel states and registries of all device runners of a process.
//!
//! Registries find a runner, or a service of a runner, by its identity. They are weak by default:
//! being registered keeps nothing alive. Strong registries hold a lease on each registered runner
//! and a reference to each registered channel state.

use crate::barrier::LifecycleState;
use crate::generation::{
    Close, ExternalLease, GenerationCounters, GenerationUpgrade, JoinRunner, RuntimeGeneration,
};
use crate::ids::{DeviceGenerationId, DeviceId, DeviceServiceStage, RunnerId};
use crate::key_map::KeyMap;
use std::collections::HashMap;
use vstd::prelude::*;

verus! {

use crate::generation::{release_spec, released};

broadcast use vstd::std_specs::hash::group_hash_axioms;

/// A service on a runner that handles share.
#[derive(Clone, Copy, Debug, PartialEq, Eq, Structural)]
pub struct ChannelDeviceState {
    /// The runner that hosts the service.
    pub runner: RunnerId,
    /// The number of the service type.
    pub service: u64,
    /// The number of the utilities of the service.
    pub utilities: u64,
    /// The generation that the state keeps open with its lease.
    pub generation: DeviceGenerationId,
    /// Number of handles, and of strong registry entries, that share the state.
    pub references: usize,
}

/// The number of a runner in the registries.
pub open spec fn runner_code(runner: RunnerId) -> u128 {
    (runner.device.type_id * 131072 + runner.device.index_id * 2
        + runner.stage.rank_spec()) as u128
}

/// The number of a service of a runner in the registries.
pub open spec fn channel_code(runner: RunnerId, service: u64) -> u128 {
    (runner_code(runner) * 0x1_0000_0000_0000_0000 + service) as u128
}

/// The stage of the runner with a number.
pub open spec fn runner_code_stage(code: u128) -> DeviceServiceStage {
    if code % 2 == 0 {
        DeviceServiceStage::Upstream
    } else {
        DeviceServiceStage::Downstream
    }
}

/// The device of the runner with a number.
pub open spec fn runner_code_device(code: u128) -> DeviceId {
    DeviceId { type_id: (code / 131072) as u16, index_id: (code / 2 % 65536) as u16 }
}

/// The number of the runner of the service with a number.
pub open spec fn channel_code_runner(code: u128) -> u128 {
    code / 0x1_0000_0000_0000_0000
}

/// The runners of one stage, of all devices or of one.
#[derive(Clone, Copy, Debug, PartialEq, Eq, Structural)]
pub struct Selection {
    /// The stage.
    pub stage: DeviceServiceStage,
    /// The device, where it is about one alone.
    pub device: Option<DeviceId>,
}

impl Selection {
    /// The runner is one of them.
    pub open spec fn selects(self, runner: RunnerId) -> bool {
        runner.stage == self.stage && match self.device {
            Some(device) => runner.device == device,
            None => true,
        }
    }

    /// The runner with that number is one of them.
    pub open spec fn has_runner(self, code: u128) -> bool {
        self.selects(RunnerId { device: runner_code_device(code), stage: runner_code_stage(code) })
    }

    /// The runner of the service with that number is one of them.
    pub open spec fn has_channel(self, code: u128) -> bool {
        self.has_runner(channel_code_runner(code))
    }

    fn takes_runner(&self, code: u128) -> (takes: bool)
        ensures
            takes == self.has_runner(code),
    {
        if stage_of_runner(code) != self.stage {
            return false;
        }
        match self.device {
            Some(device) => device_of_runner(code) == device,
            None => true,
        }
    }

    fn takes_channel(&self, code: u128) -> (takes: bool)
        ensures
            takes == self.has_channel(code),
    {
        self.takes_runner(code / 0x1_0000_0000_0000_0000)
    }
}

/// Runners have different numbers, and the number of a runner tells its device and its stage.
pub proof fn law_runner_code(a: RunnerId, b: RunnerId)
    ensures
        runner_code(a) == runner_code(b) ==> a == b,
        runner_code(a) < 0x2_0000_0000,
        runner_code_stage(runner_code(a)) == a.stage,
        runner_code_device(runner_code(a)) == a.device,
{
    let x = a.device.type_id * 131072 + a.device.index_id * 2 + a.stage.rank_spec();
    assert(0 <= x < 0x2_0000_0000);
    assert(runner_code(a) == x);
}

/// Services have different numbers, and the number of a service tells that of its runner.
pub proof fn law_channel_code(a: RunnerId, s: u64, b: RunnerId, t: u64)
    ensures
        channel_code(a, s) == channel_code(b, t) ==> a == b && s == t,
        channel_code_runner(channel_code(a, s)) == runner_code(a),
{
    law_runner_code(a, b);
    law_runner_code(b, a);
    let x = runner_code(a) * 0x1_0000_0000_0000_0000 + s;
    let y = runner_code(b) * 0x1_0000_0000_0000_0000 + t;
    assert(channel_code(a, s) == x);
    assert(channel_code(b, t) == y);
    assert(x / 0x1_0000_0000_0000_0000 == runner_code(a)) by (nonlinear_arith)
        requires
            x == runner_code(a) * 0x1_0000_0000_0000_0000 + s,
            s < 0x1_0000_0000_0000_0000,
    ;
}

fn code_of_runner(runner: RunnerId) -> (code: u128)
    ensures
        code == runner_code(runner),
{
    (runner.device.type_id as u128) * 131072 + (runner.device.index_id as u128) * 2 + (
    runner.stage.rank() as u128)
}

fn code_of_channel(runner: RunnerId, service: u64) -> (code: u128)
    ensures
        code == channel_code(runner, service),
{
    proof {
        law_runner_code(runner, runner);
    }
    code_of_runner(runner) * 0x1_0000_0000_0000_0000 + (service as u128)
}

fn stage_of_runner(code: u128) -> (stage: DeviceServiceStage)
    ensures
        stage == runner_code_stage(code),
{
    if code % 2 == 0 {
        DeviceServiceStage::Upstream
    } else {
        DeviceServiceStage::Downstream
    }
}

fn device_of_runner(code: u128) -> (device: DeviceId)
    ensures
        device == runner_code_device(code),
{
    DeviceId {
        type_id: #[verifier::truncate]
        ((code / 131072) as u16),
        index_id: (code / 2 % 65536) as u16,
    }
}

/// Returns whether a thread is the one of a runner.
pub fn is_device_runner_thread(thread: Option<RunnerId>, runner: RunnerId) -> (same: bool)
    ensures
        same == (thread == Some(runner)),
        same <==> thread is Some && (thread->0).device == runner.device && (thread->0).stage
            == runner.stage,
{
    match thread {
        Some(id) => id == runner,
        None => false,
    }
}

/// What came of looking for a service.
pub enum Lookup {
    /// The service is there, and its generation is open; a reference was taken.
    Shared(u64),
    /// The service is there, so another instance of it cannot be put in its place.
    AlreadyInitialized,
    /// The service was there, but its generation is not open: it was forgotten. A lease that this
    /// set free is to be released.
    Stale(Option<ExternalLease>),
    /// The service is not there.
    Absent,
}

/// What came of looking for a runner.
#[derive(Clone, Copy, Debug, PartialEq, Eq, Structural)]
pub enum Attach {
    /// A lease was taken on the generation.
    Ready(DeviceGenerationId),
    /// The generation is about to be over: wait for that.
    Closing(DeviceGenerationId),
    /// A generation was created, with a lease; its runner thread is to be started.
    Started(DeviceGenerationId),
}

/// What came of giving up a lease, or of closing a generation.
#[derive(Clone, Copy, Debug, PartialEq, Eq, Structural)]
pub struct CloseStep {
    /// The generation.
    pub generation: DeviceGenerationId,
    /// Whether its channel is to be stopped now.
    pub stop_channel: bool,
    /// What the thread does next.
    pub close: Close,
}

/// What the runtime knows.
#[verifier::ext_equal]
pub struct RuntimeView {
    /// Whether the registries keep alive what they hold.
    pub strong: bool,
    /// The barrier between initialization and shutdown.
    pub barrier: LifecycleState,
    /// The counters of generations.
    pub counters: GenerationCounters,
    /// The generations; the record of one that is over stays.
    pub generations: Map<u64, RuntimeGeneration>,
    /// The channel states that somebody still refers to.
    pub states: Map<u64, ChannelDeviceState>,
    /// The number of the next channel state.
    pub next_state: u64,
    /// The registered runners.
    pub runners: Map<u128, u64>,
    /// The registered services.
    pub channels: Map<u128, u64>,
    /// Whether a thread looks for a service, or initializes it; no other thread may meanwhile.
    pub initializing: bool,
}

impl RuntimeView {
    /// Numbers are ones that were given out, and registries and states refer to what fits them.
    pub open spec fn wf(self) -> bool {
        &&& forall|id: u64| #[trigger]
            self.generations.contains_key(id) ==> {
                &&& self.generations[id].id.0 == id
                &&& id < self.counters.next_id
                &&& self.generations[id].status is Closed ==> !self.generations[id].joinable
            }
        &&& forall|s: u64| #[trigger]
            self.states.contains_key(s) ==> {
                &&& s < self.next_state
                &&& self.states[s].references > 0
                &&& self.generations.contains_key(self.states[s].generation.0)
                &&& self.generations[self.states[s].generation.0].runner_id
                    == self.states[s].runner
            }
        &&& forall|k: u128| #[trigger]
            self.runners.contains_key(k) ==> {
                let id = self.runners[k];
                &&& self.generations.contains_key(id)
                &&& runner_code(self.generations[id].runner_id) == k
            }
        &&& forall|k: u128| #[trigger]
            self.channels.contains_key(k) ==> {
                let s = self.channels[k];
                &&& s < self.next_state
                &&& self.strong ==> self.states.contains_key(s)
                &&& self.states.contains_key(s) ==> channel_code(
                    self.states[s].runner,
                    self.states[s].service,
                ) == k
            }
    }

    /// The numbers are not used up.
    pub open spec fn has_room(self) -> bool {
        &&& self.counters.next_id < u64::MAX
        &&& self.next_state < u64::MAX
        &&& self.barrier.active_initializers < usize::MAX
        &&& forall|s: u64| #[trigger]
            self.states.contains_key(s) ==> self.states[s].references < usize::MAX
    }

    /// A process in which no device was used.
    pub open spec fn init(strong: bool) -> Self {
        RuntimeView {
            strong,
            barrier: LifecycleState::idle(),
            counters: GenerationCounters { next_id: 1, created: 0, closed: 0 },
            generations: Map::empty(),
            states: Map::empty(),
            next_state: 0,
            runners: Map::empty(),
            channels: Map::empty(),
            initializing: false,
        }
    }

    /// The runtime with one generation changed.
    pub open spec fn with_generation(self, g: RuntimeGeneration) -> Self {
        RuntimeView { generations: self.generations.insert(g.id.0, g), ..self }
    }

    /// The runtime with one channel state changed.
    pub open spec fn with_state(self, s: u64, state: ChannelDeviceState) -> Self {
        RuntimeView { states: self.states.insert(s, state), ..self }
    }

    /// The runtime with one more reference to a channel state.
    pub open spec fn state_shared(self, s: u64) -> Self {
        self.with_state(
            s,
            ChannelDeviceState {
                references: (self.states[s].references + 1) as usize,
                ..self.states[s]
            },
        )
    }

    /// The runtime with one reference to a channel state less; the last one takes the state away.
    pub open spec fn state_dropped(self, s: u64) -> Self {
        if self.states[s].references == 1 {
            RuntimeView { states: self.states.remove(s), ..self }
        } else {
            self.with_state(
                s,
                ChannelDeviceState {
                    references: (self.states[s].references - 1) as usize,
                    ..self.states[s]
                },
            )
        }
    }

    /// The generation whose lease is set free when a reference to a channel state is dropped.
    pub open spec fn state_lease(self, s: u64) -> Option<DeviceGenerationId> {
        if self.states[s].references == 1 {
            Some(self.states[s].generation)
        } else {
            None
        }
    }

    /// The channel state under a number in the registry of services, if somebody refers to it.
    pub open spec fn registered(self, key: u128) -> Option<u64> {
        if self.channels.contains_key(key) && self.states.contains_key(self.channels[key]) {
            Some(self.channels[key])
        } else {
            None
        }
    }

    /// A channel state is in the registry of services.
    pub open spec fn is_registered(self, s: u64) -> bool {
        self.registered(channel_code(self.states[s].runner, self.states[s].service)) == Some(s)
    }

    /// Somebody refers to the generation.
    pub open spec fn is_held(self, id: u64) -> bool {
        !self.generations[id].is_forgotten_spec()
    }

    /// The generation of a channel state takes work.
    pub open spec fn is_active(self, s: u64) -> bool {
        self.generations[self.states[s].generation.0].status.is_open()
    }

    /// The runtime after a registered service was forgotten.
    pub open spec fn channel_removed(self, key: u128) -> Self {
        let removed = RuntimeView { channels: self.channels.remove(key), ..self };
        match self.registered(key) {
            Some(s) => if self.strong {
                removed.state_dropped(s)
            } else {
                removed
            },
            None => removed,
        }
    }

    /// The generation whose lease is set free when a registered service is forgotten.
    pub open spec fn channel_lease(self, key: u128) -> Option<DeviceGenerationId> {
        match self.registered(key) {
            Some(s) => if self.strong {
                self.state_lease(s)
            } else {
                None
            },
            None => None,
        }
    }

    /// The runtime after a service was looked for.
    pub open spec fn looked_up(self, key: u128, given: bool) -> Self {
        match self.registered(key) {
            Some(s) => if !self.is_active(s) {
                self.channel_removed(key)
            } else if given {
                self
            } else {
                self.state_shared(s)
            },
            None => self,
        }
    }

    /// What looking for a service gives.
    pub open spec fn lookup_matches(self, key: u128, given: bool, lookup: Lookup) -> bool {
        match self.registered(key) {
            Some(s) => if !self.is_active(s) {
                lookup matches Lookup::Stale(lease) && lease_view(lease) == self.channel_lease(key)
            } else if given {
                lookup is AlreadyInitialized
            } else {
                lookup == Lookup::Shared(s)
            },
            None => lookup is Absent,
        }
    }

    /// The registered generation of a runner, unless it is over or nobody refers to it any more.
    pub open spec fn live_runner(self, runner: RunnerId) -> Option<RuntimeGeneration> {
        let key = runner_code(runner);
        if self.runners.contains_key(key) {
            let g = self.generations[self.runners[key]];
            if g.status is Closed || g.is_forgotten_spec() {
                None
            } else {
                Some(g)
            }
        } else {
            None
        }
    }

    /// The runtime after a generation was created for a runner.
    pub open spec fn created(self, runner: RunnerId) -> Self {
        let id = self.counters.next_id;
        RuntimeView {
            counters: self.counters.after_create(),
            generations: self.generations.insert(
                id,
                RuntimeGeneration {
                    external_count: 1,
                    internal_count: 1,
                    ..RuntimeGeneration::fresh(id, runner)
                },
            ),
            ..self
        }
    }

    /// The generation that is created for a runner: a lease for whoever asked, one for a strong
    /// registry, and a reference for the runner thread.
    pub open spec fn started(self, runner: RunnerId, id: u64) -> RuntimeGeneration {
        RuntimeGeneration {
            external_count: if self.strong {
                2
            } else {
                1
            },
            internal_count: 1,
            ..RuntimeGeneration::fresh(id, runner)
        }
    }

    /// The runtime after the lease of a strong registry on the former generation of a runner was
    /// given up.
    pub open spec fn runner_replaced(self, runner: RunnerId, on_runner: bool) -> Self {
        let key = runner_code(runner);
        if self.strong && self.runners.contains_key(key) {
            self.with_generation(released(self.generations[self.runners[key]], on_runner))
        } else {
            self
        }
    }

    /// The runtime after a runner was looked for, and a generation was created where there was
    /// none to share.
    pub open spec fn attached(self, runner: RunnerId, thread: Option<RunnerId>) -> Self {
        match self.live_runner(runner) {
            Some(g) => if g.status is Closing {
                self
            } else {
                self.with_generation(g.leased())
            },
            None => {
                let id = self.counters.next_id;
                let replaced = self.runner_replaced(runner, thread == Some(runner));
                RuntimeView {
                    counters: self.counters.after_create(),
                    generations: replaced.generations.insert(id, self.started(runner, id)),
                    runners: self.runners.insert(runner_code(runner), id),
                    ..replaced
                }
            },
        }
    }

    /// What looking for a runner gives.
    pub open spec fn attach_spec(self, runner: RunnerId) -> Attach {
        match self.live_runner(runner) {
            Some(g) => if g.status is Closing {
                Attach::Closing(g.id)
            } else {
                Attach::Ready(g.id)
            },
            None => Attach::Started(DeviceGenerationId(self.counters.next_id)),
        }
    }

    /// The runtime after an initialized service was registered.
    pub open spec fn channel_registered(
        self,
        runner: RunnerId,
        service: u64,
        utilities: u64,
        generation: DeviceGenerationId,
    ) -> Self {
        let key = channel_code(runner, service);
        let s = self.next_state;
        let state = ChannelDeviceState {
            runner,
            service,
            utilities,
            generation,
            references: if self.strong {
                2
            } else {
                1
            },
        };
        let freed = self.channel_removed(key);
        RuntimeView {
            states: freed.states.insert(s, state),
            next_state: (s + 1) as u64,
            channels: self.channels.insert(key, s),
            ..freed
        }
    }
}

/// The keys of the selected runners that are registered, each once.
pub open spec fn lists_runners(
    keys: Seq<u128>,
    runners: Map<u128, u64>,
    selection: Selection,
) -> bool {
    &&& keys.no_duplicates()
    &&& forall|k: u128| #[trigger]
        keys.contains(k) <==> runners.contains_key(k) && selection.has_runner(k)
}

/// The keys of the registered services of selected runners, each once.
pub open spec fn lists_channels(
    keys: Seq<u128>,
    channels: Map<u128, u64>,
    selection: Selection,
) -> bool {
    &&& keys.no_duplicates()
    &&& forall|k: u128| #[trigger]
        keys.contains(k) <==> channels.contains_key(k) && selection.has_channel(k)
}

/// The runtime after a lease was taken on each open generation among registered runners, and those
/// generations.
pub open spec fn pin_all(rt: RuntimeView, keys: Seq<u128>) -> (RuntimeView, Seq<u64>)
    decreases keys.len(),
{
    if keys.len() == 0 {
        (rt, Seq::empty())
    } else {
        let (before, pins) = pin_all(rt, keys.drop_last());
        let g = before.generations[before.runners[keys.last()]];
        if g.status.is_open() && !g.is_forgotten_spec() {
            (before.with_generation(g.leased()), pins.push(g.id.0))
        } else {
            (before, pins)
        }
    }
}

/// The runtime after registered services were forgotten, and the generations whose leases this set
/// free.
pub open spec fn forget_channels(rt: RuntimeView, keys: Seq<u128>) -> (RuntimeView, Seq<u64>)
    decreases keys.len(),
{
    if keys.len() == 0 {
        (rt, Seq::empty())
    } else {
        let (before, freed) = forget_channels(rt, keys.drop_last());
        let key = keys.last();
        (
            before.channel_removed(key),
            match before.channel_lease(key) {
                Some(id) => freed.push(id.0),
                None => freed,
            },
        )
    }
}

/// The runtime after registered runners were forgotten.
pub open spec fn forget_runners(rt: RuntimeView, keys: Seq<u128>) -> RuntimeView
    decreases keys.len(),
{
    if keys.len() == 0 {
        rt
    } else {
        let before = forget_runners(rt, keys.drop_last());
        RuntimeView { runners: before.runners.remove(keys.last()), ..before }
    }
}

/// Those among generations that somebody refers to.
pub open spec fn held(rt: RuntimeView, ids: Seq<u64>) -> Seq<u64>
    decreases ids.len(),
{
    if ids.len() == 0 {
        Seq::empty()
    } else if rt.is_held(ids.last()) {
        held(rt, ids.drop_last()).push(ids.last())
    } else {
        held(rt, ids.drop_last())
    }
}

/// The generations of registered runners.
pub open spec fn runner_generations(rt: RuntimeView, keys: Seq<u128>) -> Seq<u64> {
    Seq::new(keys.len(), |i: int| rt.runners[keys[i]])
}

/// The generation that an optional lease keeps open.
pub open spec fn lease_view(lease: Option<ExternalLease>) -> Option<DeviceGenerationId> {
    match lease {
        Some(lease) => Some(lease@),
        None => None,
    }
}

/// The generations, channel states and registries of all device runners of a process.
pub struct DeviceRuntime {
    strong: bool,
    barrier: LifecycleState,
    counters: GenerationCounters,
    generations: HashMap<u64, RuntimeGeneration>,
    states: HashMap<u64, ChannelDeviceState>,
    next_state: u64,
    runners: KeyMap,
    channels: KeyMap,
    initializing: bool,
}

impl View for DeviceRuntime {
    type V = RuntimeView;

    closed spec fn view(&self) -> RuntimeView {
        RuntimeView {
            strong: self.strong,
            barrier: self.barrier,
            counters: self.counters,
            generations: self.generations@,
            states: self.states@,
            next_state: self.next_state,
            runners: self.runners@,
            channels: self.channels@,
            initializing: self.initializing,
        }
    }
}

impl DeviceRuntime {
    /// Numbers are ones that were given out, and registries and states refer to what fits them.
    pub open spec fn wf(&self) -> bool {
        self@.wf()
    }

    /// A process in which no device was used; `strong` makes the registries keep alive what they
    /// hold.
    pub fn new(strong: bool) -> (runtime: Self)
        ensures
            runtime@ == RuntimeView::init(strong),
            runtime.wf(),
    {
        DeviceRuntime {
            strong,
            barrier: LifecycleState::default(),
            counters: GenerationCounters::new(),
            generations: HashMap::new(),
            states: HashMap::new(),
            next_state: 0,
            runners: KeyMap::new(),
            channels: KeyMap::new(),
            initializing: false,
        }
    }

    /// Returns the counters of generations.
    pub fn counters(&self) -> (counters: GenerationCounters)
        ensures
            counters == self@.counters,
    {
        self.counters
    }

    /// Returns whether there are numbers left: for a generation, for a channel state, and for one
    /// more thread that initializes a service.
    pub fn numbers_left(&self) -> (left: bool)
        ensures
            left == (self@.counters.next_id < u64::MAX && self@.next_state < u64::MAX
                && self@.barrier.active_initializers < usize::MAX),
    {
        self.counters.next_id < u64::MAX && self.next_state < u64::MAX
            && self.barrier.active_initializers < usize::MAX
    }

    /// Returns a generation, if there ever was one with that number.
    pub fn generation(&self, id: DeviceGenerationId) -> (generation: Option<RuntimeGeneration>)
        ensures
            generation == (if self@.generations.contains_key(id.0) {
                Some(self@.generations[id.0])
            } else {
                None
            }),
    {
        match self.generations.get(&id.0) {
            Some(generation) => Some(*generation),
            None => None,
        }
    }

    /// Returns a channel state, if somebody still refers to it.
    pub fn channel_state(&self, state: u64) -> (found: Option<ChannelDeviceState>)
        ensures
            found == (if self@.states.contains_key(state) {
                Some(self@.states[state])
            } else {
                None
            }),
    {
        match self.states.get(&state) {
            Some(state) => Some(*state),
            None => None,
        }
    }

    fn known(&self, id: DeviceGenerationId) -> (generation: RuntimeGeneration)
        requires
            self@.generations.contains_key(id.0),
        ensures
            generation == self@.generations[id.0],
    {
        *self.generations.get(&id.0).unwrap()
    }

    fn put(&mut self, generation: RuntimeGeneration)
        ensures
            final(self)@ == old(self)@.with_generation(generation),
    {
        self.generations.insert(generation.id.0, generation);
    }

    /// Takes a lease on a generation, for an owner that already has one.
    pub fn lease(&mut self, id: DeviceGenerationId) -> (lease: ExternalLease)
        requires
            old(self).wf(),
            old(self)@.generations.contains_key(id.0),
        ensures
            final(self)@ == old(self)@.with_generation(old(self)@.generations[id.0].leased()),
            final(self).wf(),
            lease@ == id,
    {
        let mut generation = self.known(id);
        let lease = generation.external_lease_unchecked();
        self.put(generation);
        lease
    }

    /// Gives a lease up, on the thread of a runner or on another one.
    ///
    /// The last lease closes the generation.
    pub fn release(&mut self, lease: ExternalLease, thread: Option<RunnerId>) -> (step: CloseStep)
        requires
            old(self).wf(),
            old(self)@.generations.contains_key(lease@.0),
        ensures
            ({
                let g = old(self)@.generations[lease@.0];
                let on_runner = thread == Some(g.runner_id);
                &&& final(self)@ == old(self)@.with_generation(released(g, on_runner))
                &&& step == (CloseStep {
                    generation: lease@,
                    stop_channel: g.external_count == 1 && g.status.is_open(),
                    close: release_spec(g, on_runner),
                })
            }),
            final(self).wf(),
    {
        let id = lease.generation_id();
        let mut generation = self.known(id);
        let on_runner = is_device_runner_thread(thread, generation.runner_id);
        let (stop_channel, close) = lease.release(&mut generation, on_runner);
        self.put(generation);
        CloseStep { generation: id, stop_channel, close }
    }

    /// Closes a generation whoever owns it.
    pub fn close_forced(&mut self, id: DeviceGenerationId, thread: Option<RunnerId>) -> (step:
        CloseStep)
        requires
            old(self).wf(),
            old(self)@.generations.contains_key(id.0),
        ensures
            ({
                let g = old(self)@.generations[id.0];
                let on_runner = thread == Some(g.runner_id);
                &&& final(self)@ == old(self)@.with_generation(g.after_close_call(false, on_runner))
                &&& step == (CloseStep {
                    generation: id,
                    stop_channel: g.status.is_open(),
                    close: g.close_spec(false, on_runner),
                })
            }),
            final(self).wf(),
    {
        let mut generation = self.known(id);
        let on_runner = is_device_runner_thread(thread, generation.runner_id);
        let (stop_channel, close) = generation.close_forced(on_runner);
        self.put(generation);
        CloseStep { generation: id, stop_channel, close }
    }

    /// Begins to join the runner of a generation, unless another thread already did.
    pub fn join_runner(&mut self, id: DeviceGenerationId) -> (join: JoinRunner)
        requires
            old(self).wf(),
            old(self)@.generations.contains_key(id.0),
        ensures
            ({
                let g = old(self)@.generations[id.0];
                &&& join == g.join_runner_spec()
                &&& final(self)@ == old(self)@.with_generation(
                    RuntimeGeneration { joinable: false, ..g },
                )
            }),
            final(self).wf(),
    {
        let mut generation = self.known(id);
        let join = generation.join_runner();
        self.put(generation);
        join
    }

    /// The thread that was told to join the runner of a generation has joined it.
    pub fn runner_joined(&mut self, id: DeviceGenerationId, panicked: bool) -> (join: JoinRunner)
        requires
            old(self).wf(),
            old(self)@.generations.contains_key(id.0),
            !old(self)@.generations[id.0].joinable,
        ensures
            ({
                let g = old(self)@.generations[id.0];
                &&& join == (if g.runner_panicked || panicked {
                    JoinRunner::Panicked
                } else {
                    JoinRunner::Joined
                })
                &&& final(self)@ == (RuntimeView {
                    counters: GenerationCounters {
                        closed: g.count_close(old(self)@.counters.closed),
                        ..old(self)@.counters
                    },
                    ..old(self)@.with_generation(g.after_close(panicked))
                })
            }),
            final(self).wf(),
    {
        let mut generation = self.known(id);
        let join = generation.runner_joined(panicked, &mut self.counters);
        self.put(generation);
        join
    }

    /// The thread that was to join the runner of a generation could not be started.
    pub fn delegation_failed(&mut self, id: DeviceGenerationId)
        requires
            old(self).wf(),
            old(self)@.generations.contains_key(id.0),
        ensures
            final(self)@ == old(self)@.with_generation(
                RuntimeGeneration { join_delegated: false, ..old(self)@.generations[id.0] },
            ),
            final(self).wf(),
    {
        let mut generation = self.known(id);
        generation.delegation_failed();
        self.put(generation);
    }

    /// The runner thread of a generation was started.
    pub fn set_join_handle(&mut self, id: DeviceGenerationId)
        requires
            old(self).wf(),
            old(self)@.generations.contains_key(id.0),
            !(old(self)@.generations[id.0].status is Closed),
        ensures
            final(self)@ == old(self)@.with_generation(
                RuntimeGeneration { joinable: true, ..old(self)@.generations[id.0] },
            ),
            final(self).wf(),
    {
        let mut generation = self.known(id);
        generation.set_join_handle();
        self.put(generation);
    }

    /// The runner thread of a generation enters its loop.
    pub fn mark_running(&mut self, id: DeviceGenerationId)
        requires
            old(self).wf(),
            old(self)@.generations.contains_key(id.0),
        ensures
            ({
                let g = old(self)@.generations[id.0];
                final(self)@ == old(self)@.with_generation(
                    if g.status is Starting {
                        RuntimeGeneration {
                            status: crate::generation::GenerationStatus::Running,
                            ..g
                        }
                    } else {
                        g
                    },
                )
            }),
            final(self).wf(),
    {
        let mut generation = self.known(id);
        generation.mark_running();
        self.put(generation);
    }

    /// Counts a reference that the runner of a generation or a queued task holds.
    pub fn internal_reference(&mut self, id: DeviceGenerationId)
        requires
            old(self).wf(),
            old(self)@.generations.contains_key(id.0),
        ensures
            ({
                let g = old(self)@.generations[id.0];
                final(self)@ == old(self)@.with_generation(
                    RuntimeGeneration {
                        internal_count: g.internal_count.wrapping_add(1),
                        ..g
                    },
                )
            }),
            final(self).wf(),
    {
        let mut generation = self.known(id);
        generation.internal_reference();
        self.put(generation);
    }

    /// Drops a reference that the runner of a generation or a queued task held.
    pub fn drop_internal_reference(&mut self, id: DeviceGenerationId)
        requires
            old(self).wf(),
            old(self)@.generations.contains_key(id.0),
        ensures
            ({
                let g = old(self)@.generations[id.0];
                final(self)@ == old(self)@.with_generation(
                    RuntimeGeneration {
                        internal_count: g.internal_count.wrapping_sub(1),
                        ..g
                    },
                )
            }),
            final(self).wf(),
    {
        let mut generation = self.known(id);
        generation.drop_internal_reference();
        self.put(generation);
    }

    /// Takes one more reference to a channel state.
    pub fn share_state(&mut self, state: u64)
        requires
            old(self).wf(),
            old(self)@.states.contains_key(state),
            old(self)@.states[state].references < usize::MAX,
        ensures
            final(self)@ == old(self)@.state_shared(state),
            final(self).wf(),
    {
        let mut found: ChannelDeviceState = *self.states.get(&state).unwrap();
        found.references = found.references + 1;
        self.states.insert(state, found);
    }

    /// Drops a reference to a channel state; the last one sets its lease free.
    pub fn drop_state(&mut self, state: u64) -> (lease: Option<ExternalLease>)
        requires
            old(self).wf(),
            old(self)@.states.contains_key(state),
            old(self)@.strong && old(self)@.is_registered(state) ==> old(
                self,
            )@.states[state].references > 1,
        ensures
            final(self)@ == old(self)@.state_dropped(state),
            lease_view(lease) == old(self)@.state_lease(state),
            final(self).wf(),
    {
        let mut found: ChannelDeviceState = *self.states.get(&state).unwrap();
        if found.references == 1 {
            self.states.remove(&state);
            Some(ExternalLease::of(found.generation))
        } else {
            found.references = found.references - 1;
            self.states.insert(state, found);
            None
        }
    }

    /// Forgets a registered service; a strong registry drops its reference to the state.
    fn forget_channel(&mut self, key: u128) -> (lease: Option<ExternalLease>)
        requires
            old(self).wf(),
        ensures
            final(self)@ == old(self)@.channel_removed(key),
            lease_view(lease) == old(self)@.channel_lease(key),
            final(self).wf(),
    {
        match self.channels.remove(key) {
            Some(state) => {
                if self.strong {
                    self.drop_state(state)
                } else {
                    None
                }
            },
            None => None,
        }
    }

    /// Looks for a service of a runner; `given` when the caller brings an instance of it.
    pub fn lookup(&mut self, runner: RunnerId, service: u64, given: bool) -> (lookup: Lookup)
        requires
            old(self).wf(),
            old(self)@.has_room(),
        ensures
            final(self)@ == old(self)@.looked_up(channel_code(runner, service), given),
            old(self)@.lookup_matches(channel_code(runner, service), given, lookup),
            final(self).wf(),
    {
        let key: u128 = code_of_channel(runner, service);
        match self.channels.get(key) {
            Some(state) => {
                match self.channel_state(state) {
                    Some(existing) => {
                        if self.known(existing.generation).is_active() {
                            if given {
                                return Lookup::AlreadyInitialized;
                            }
                            self.share_state(state);
                            return Lookup::Shared(state);
                        }
                        Lookup::Stale(self.forget_channel(key))
                    },
                    None => Lookup::Absent,
                }
            },
            None => Lookup::Absent,
        }
    }

    /// Creates a generation of a runner, with a lease for the caller and a reference for the runner
    /// thread, which is to be started.
    pub fn start(&mut self, runner: RunnerId) -> (lease: ExternalLease)
        requires
            old(self).wf(),
            old(self)@.counters.next_id < u64::MAX,
        ensures
            final(self)@ == old(self)@.created(runner),
            lease@.0 == old(self)@.counters.next_id,
            final(self).wf(),
    {
        let mut generation = RuntimeGeneration::new(runner, &mut self.counters);
        let lease = generation.external_lease_unchecked();
        generation.internal_reference();
        self.put(generation);
        assert(self@ =~= old(self)@.created(runner));
        lease
    }

    /// Looks for the runner of a service, and creates a generation of it where there is none to
    /// share. A single runner serves all the services of its device and stage.
    pub fn attach(&mut self, runner: RunnerId, thread: Option<RunnerId>) -> (attach: Attach)
        requires
            old(self).wf(),
            old(self)@.has_room(),
        ensures
            final(self)@ == old(self)@.attached(runner, thread),
            attach == old(self)@.attach_spec(runner),
            final(self).wf(),
    {
        let key: u128 = code_of_runner(runner);
        let former: Option<u64> = self.runners.get(key);
        match former {
            Some(id) => {
                let mut generation = self.known(DeviceGenerationId::new(id));
                match upgrade_registered(&mut generation) {
                    GenerationUpgrade::Ready => {
                        self.put(generation);
                        return Attach::Ready(generation.id);
                    },
                    GenerationUpgrade::Closing => {
                        return Attach::Closing(generation.id);
                    },
                    GenerationUpgrade::Gone => {
                        if self.strong {
                            // The entry that is about to be replaced holds a lease. Its generation
                            // is over, so releasing it leaves nothing to do.
                            let lease = ExternalLease::of(generation.id);
                            let on_runner = is_device_runner_thread(thread, runner);
                            lease.release(&mut generation, on_runner);
                            self.put(generation);
                        }
                    },
                }
            },
            None => {},
        }
        let id = self.start(runner).generation_id();
        if self.strong {
            self.lease(id);
        }
        self.runners.insert(key, id.0);
        proof {
            let before = old(self)@;
            assert forall|k: u128| #[trigger] self@.runners.contains_key(k) implies ({
                let id = self@.runners[k];
                &&& self@.generations.contains_key(id)
                &&& runner_code(self@.generations[id].runner_id) == k
            }) by {
                if k != key {
                    assert(before.runners.contains_key(k));
                }
            }
        }
        assert(self@ =~= old(self)@.attached(runner, thread));
        Attach::Started(id)
    }

    /// Registers a service that was initialized on a generation, whose lease the new channel state
    /// keeps. A lease that a replaced entry set free is to be released.
    pub fn register(
        &mut self,
        runner: RunnerId,
        service: u64,
        utilities: u64,
        lease: ExternalLease,
    ) -> (result: (u64, Option<ExternalLease>))
        requires
            old(self).wf(),
            old(self)@.has_room(),
            old(self)@.generations.contains_key(lease@.0),
            old(self)@.generations[lease@.0].runner_id == runner,
        ensures
            final(self)@ == old(self)@.channel_registered(runner, service, utilities, lease@),
            result.0 == old(self)@.next_state,
            lease_view(result.1) == old(self)@.channel_lease(channel_code(runner, service)),
            final(self).wf(),
    {
        let key: u128 = code_of_channel(runner, service);
        let replaced = self.forget_channel(key);
        let state: u64 = self.next_state;
        let references: usize = if self.strong {
            2
        } else {
            1
        };
        self.states.insert(
            state,
            ChannelDeviceState {
                runner,
                service,
                utilities,
                generation: lease.generation_id(),
                references,
            },
        );
        self.next_state = state + 1;
        self.channels.insert(key, state);
        assert(self@.channels =~= old(self)@.channels.insert(key, state));
        assert(self@ =~= old(self)@.channel_registered(runner, service, utilities, lease@));
        (state, replaced)
    }

    /// Asks for leave to initialize a service; `thread` is the runner whose thread asks.
    pub fn enter(&mut self, thread: Option<RunnerId>, target: DeviceServiceStage) -> (admission:
        crate::barrier::Admission)
        requires
            old(self)@.barrier.active_initializers < usize::MAX,
        ensures
            admission == old(self)@.barrier.admission(stage_of(thread), target),
            final(self)@ == (RuntimeView {
                barrier: old(self)@.barrier.after_admission(admission),
                ..old(self)@
            }),
            old(self).wf() ==> final(self).wf(),
    {
        let caller = match thread {
            Some(runner) => Some(runner.stage),
            None => None,
        };
        self.barrier.enter(caller, target)
    }

    /// Gives the leave to initialize a service back.
    pub fn leave(&mut self)
        requires
            old(self)@.barrier.active_initializers > 0,
        ensures
            final(self)@ == (RuntimeView {
                barrier: LifecycleState {
                    active_initializers: (old(self)@.barrier.active_initializers - 1) as usize,
                    ..old(self)@.barrier
                },
                ..old(self)@
            }),
            old(self).wf() ==> final(self).wf(),
    {
        self.barrier.leave();
    }

    /// Keeps other threads from looking for services; returns whether no other thread did so.
    pub fn lock_channels(&mut self) -> (locked: bool)
        ensures
            locked == !old(self)@.initializing,
            final(self)@ == (RuntimeView { initializing: true, ..old(self)@ }),
            old(self).wf() ==> final(self).wf(),
    {
        if self.initializing {
            return false;
        }
        self.initializing = true;
        true
    }

    /// Lets other threads look for services again.
    pub fn unlock_channels(&mut self)
        ensures
            final(self)@ == (RuntimeView { initializing: false, ..old(self)@ }),
            old(self).wf() ==> final(self).wf(),
    {
        self.initializing = false;
    }
}

/// The stage of the runner whose thread it is.
pub open spec fn stage_of(thread: Option<RunnerId>) -> Option<DeviceServiceStage> {
    match thread {
        Some(runner) => Some(runner.stage),
        None => None,
    }
}


/// Asks a registered generation for a new lease: there is none to be had where nobody refers to it
/// any more.
fn upgrade_registered(generation: &mut RuntimeGeneration) -> (upgrade: GenerationUpgrade)
    ensures
        upgrade == (if old(generation).is_forgotten_spec() {
            GenerationUpgrade::Gone
        } else {
            old(generation).upgrade_spec()
        }),
        *final(generation) == (if upgrade is Ready {
            old(generation).leased()
        } else {
            *old(generation)
        }),
{
    if generation.is_forgotten() {
        return GenerationUpgrade::Gone;
    }
    generation.upgrade()
}

impl DeviceRuntime {
    fn runners_of(&self, selection: Selection) -> (keys: Vec<u128>)
        ensures
            lists_runners(keys@, self@.runners, selection),
    {
        let all = self.runners.keys();
        let mut keys: Vec<u128> = Vec::new();
        let mut index: usize = 0;
        let ghost runners = self@.runners;
        while index < all.len()
            invariant
                index <= all.len(),
                all@.no_duplicates(),
                all@.to_set() == runners.dom(),
                keys@.no_duplicates(),
                forall|k: u128| #[trigger]
                    keys@.contains(k) <==> all@.take(index as int).contains(k)
                        && selection.has_runner(k),
            decreases all.len() - index,
        {
            let key: u128 = all[index];
            let ghost before = keys@;
            let selected = selection.takes_runner(key);
            if selected {
                keys.push(key);
            }
            proof {
                lemma_listed(all@, before, keys@, index as int, selected);
                assert forall|k: u128| #[trigger]
                    keys@.contains(k) <==> all@.take(index + 1).contains(k) && selection.has_runner(k) by {
                    assert(before.contains(k) <==> all@.take(index as int).contains(k)
                        && selection.has_runner(k));
                }
            }
            index = index + 1;
        }
        proof {
            assert(all@.take(index as int) =~= all@);
            assert forall|k: u128| #[trigger] keys@.contains(k) <==> runners.contains_key(k)
                && selection.has_runner(k) by {
                assert(all@.contains(k) <==> all@.to_set().contains(k));
            }
        }
        keys
    }

    fn channels_of(&self, selection: Selection) -> (keys: Vec<u128>)
        ensures
            lists_channels(keys@, self@.channels, selection),
    {
        let all = self.channels.keys();
        let mut keys: Vec<u128> = Vec::new();
        let mut index: usize = 0;
        let ghost channels = self@.channels;
        while index < all.len()
            invariant
                index <= all.len(),
                all@.no_duplicates(),
                all@.to_set() == channels.dom(),
                keys@.no_duplicates(),
                forall|k: u128| #[trigger]
                    keys@.contains(k) <==> all@.take(index as int).contains(k)
                        && selection.has_channel(k),
            decreases all.len() - index,
        {
            let key: u128 = all[index];
            let ghost before = keys@;
            let selected = selection.takes_channel(key);
            if selected {
                keys.push(key);
            }
            proof {
                lemma_listed(all@, before, keys@, index as int, selected);
                assert forall|k: u128| #[trigger]
                    keys@.contains(k) <==> all@.take(index + 1).contains(k) && selection.has_channel(k) by {
                    assert(before.contains(k) <==> all@.take(index as int).contains(k)
                        && selection.has_channel(k));
                }
            }
            index = index + 1;
        }
        proof {
            assert(all@.take(index as int) =~= all@);
            assert forall|k: u128| #[trigger] keys@.contains(k) <==> channels.contains_key(k)
                && selection.has_channel(k) by {
                assert(all@.contains(k) <==> all@.to_set().contains(k));
            }
        }
        keys
    }

    /// Takes a lease on each open generation among the selected runners.
    pub fn pin_runners(&mut self, selection: Selection) -> (pins: Vec<u64>)
        requires
            old(self).wf(),
        ensures
            exists|keys: Seq<u128>| #[trigger]
                lists_runners(keys, old(self)@.runners, selection) && (
                final(self)@,
                pins@,
                ) == pin_all(old(self)@, keys),
            final(self).wf(),
    {
        let keys = self.runners_of(selection);
        let mut pins: Vec<u64> = Vec::new();
        let mut index: usize = 0;
        let ghost rt = self@;
        assert(keys@.take(0) =~= Seq::<u128>::empty());
        while index < keys.len()
            invariant
                index <= keys.len(),
                self.wf(),
                self@.runners == rt.runners,
                forall|k: u128| #[trigger] keys@.contains(k) ==> rt.runners.contains_key(k),
                (self@, pins@) == pin_all(rt, keys@.take(index as int)),
            decreases keys.len() - index,
        {
            let key: u128 = keys[index];
            proof {
                assert(keys@.contains(key));
                assert(keys@.take(index + 1).drop_last() =~= keys@.take(index as int));
                assert(keys@.take(index + 1).last() == key);
            }
            match self.runners.get(key) {
                Some(id) => {
                    let mut generation = self.known(DeviceGenerationId::new(id));
                    if upgrade_registered(&mut generation) == GenerationUpgrade::Ready {
                        self.put(generation);
                        pins.push(id);
                    }
                },
                None => {},
            }
            index = index + 1;
        }
        assert(keys@.take(index as int) =~= keys@);
        assert(lists_runners(keys@, rt.runners, selection));
        pins
    }

    /// Forgets the services of the selected runners; returns the generations whose leases are to be
    /// released for it.
    pub fn remove_channels(&mut self, selection: Selection) -> (freed: Vec<u64>)
        requires
            old(self).wf(),
        ensures
            exists|keys: Seq<u128>| #[trigger]
                lists_channels(keys, old(self)@.channels, selection) && (
                final(self)@,
                freed@,
                ) == forget_channels(old(self)@, keys),
            final(self).wf(),
    {
        let keys = self.channels_of(selection);
        let mut freed: Vec<u64> = Vec::new();
        let mut index: usize = 0;
        let ghost rt = self@;
        assert(keys@.take(0) =~= Seq::<u128>::empty());
        while index < keys.len()
            invariant
                index <= keys.len(),
                self.wf(),
                (self@, freed@) == forget_channels(rt, keys@.take(index as int)),
            decreases keys.len() - index,
        {
            let key: u128 = keys[index];
            proof {
                assert(keys@.take(index + 1).drop_last() =~= keys@.take(index as int));
                assert(keys@.take(index + 1).last() == key);
            }
            match self.forget_channel(key) {
                Some(lease) => {
                    freed.push(lease.generation_id().0);
                },
                None => {},
            }
            index = index + 1;
        }
        assert(keys@.take(index as int) =~= keys@);
        assert(lists_channels(keys@, rt.channels, selection));
        freed
    }

    /// Forgets the selected runners; returns their generations.
    pub fn remove_runners(&mut self, selection: Selection) -> (removed: Vec<u64>)
        requires
            old(self).wf(),
        ensures
            exists|keys: Seq<u128>| #[trigger]
                lists_runners(keys, old(self)@.runners, selection)
                    && final(self)@ == forget_runners(old(self)@, keys) && removed@
                    == runner_generations(old(self)@, keys),
            final(self).wf(),
    {
        let keys = self.runners_of(selection);
        let mut removed: Vec<u64> = Vec::new();
        let mut index: usize = 0;
        let ghost rt = self@;
        proof {
            assert(keys@.take(0) =~= Seq::<u128>::empty());
            assert forall|j: int| 0 <= j < keys.len() implies rt.runners.contains_key(
                #[trigger] keys@[j],
            ) by {
                assert(keys@.contains(keys@[j]));
            }
        }
        while index < keys.len()
            invariant
                index <= keys.len(),
                self.wf(),
                keys@.no_duplicates(),
                forall|k: u128| #[trigger] keys@.contains(k) ==> rt.runners.contains_key(k),
                forall|j: int|
                    index <= j < keys.len() ==> self@.runners.contains_key(#[trigger] keys@[j])
                        && self@.runners[keys@[j]] == rt.runners[keys@[j]],
                self@ == forget_runners(rt, keys@.take(index as int)),
                removed@ == runner_generations(rt, keys@.take(index as int)),
            decreases keys.len() - index,
        {
            let key: u128 = keys[index];
            proof {
                assert(keys@.contains(key));
                assert(keys@.take(index + 1).drop_last() =~= keys@.take(index as int));
                assert(keys@.take(index + 1).last() == key);
            }
            match self.runners.remove(key) {
                Some(id) => {
                    removed.push(id);
                },
                None => {},
            }
            assert(removed@ =~= runner_generations(rt, keys@.take(index + 1)));
            index = index + 1;
        }
        assert(keys@.take(index as int) =~= keys@);
        assert(lists_runners(keys@, rt.runners, selection));
        removed
    }

    /// Returns whether somebody refers to a generation.
    pub fn is_held(&self, id: DeviceGenerationId) -> (is_held: bool)
        requires
            self@.generations.contains_key(id.0),
        ensures
            is_held == self@.is_held(id.0),
    {
        !self.known(id).is_forgotten()
    }

    /// Returns whether the registries keep alive what they hold.
    pub fn is_strong(&self) -> (strong: bool)
        ensures
            strong == self@.strong,
    {
        self.strong
    }

    /// Closes the barrier for a shutdown, unless one is under way; returns whether it did.
    pub fn begin_shutdown(&mut self) -> (begun: bool)
        ensures
            begun == !old(self)@.barrier.shutting_down,
            final(self)@ == (RuntimeView {
                barrier: LifecycleState { shutting_down: true, ..old(self)@.barrier },
                ..old(self)@
            }),
            old(self).wf() ==> final(self).wf(),
    {
        self.barrier.begin_shutdown()
    }

    /// Returns whether nothing is being initialized.
    pub fn is_quiet(&self) -> (quiet: bool)
        ensures
            quiet == (self@.barrier.active_initializers == 0),
    {
        self.barrier.is_quiet()
    }

    /// Returns whether a thread looks for a service, or initializes it.
    pub fn is_initializing(&self) -> (initializing: bool)
        ensures
            initializing == self@.initializing,
    {
        self.initializing
    }

    /// Opens the barrier after a shutdown.
    pub fn end_shutdown(&mut self)
        ensures
            final(self)@ == (RuntimeView {
                barrier: LifecycleState { shutting_down: false, ..old(self)@.barrier },
                ..old(self)@
            }),
            old(self).wf() ==> final(self).wf(),
    {
        self.barrier.end_shutdown();
    }
}

/// A list of the keys seen so far that pass a test, one key on.
proof fn lemma_listed(
    all: Seq<u128>,
    before: Seq<u128>,
    after: Seq<u128>,
    index: int,
    passes: bool,
)
    requires
        0 <= index < all.len(),
        all.no_duplicates(),
        before.no_duplicates(),
        forall|k: u128| #[trigger] before.contains(k) ==> all.take(index).contains(k),
        after == (if passes {
            before.push(all[index])
        } else {
            before
        }),
    ensures
        after.no_duplicates(),
        forall|k: u128| #[trigger]
            all.take(index + 1).contains(k) <==> all.take(index).contains(k) || k == all[index],
        forall|k: u128| #[trigger]
            after.contains(k) <==> before.contains(k) || passes && k == all[index],
        !all.take(index).contains(all[index]),
{
    let key = all[index];
    assert forall|k: u128| #[trigger]
        all.take(index + 1).contains(k) <==> all.take(index).contains(k) || k == key by {
        if all.take(index).contains(k) {
            let n = choose|n: int| 0 <= n < index && all.take(index)[n] == k;
            assert(all.take(index + 1)[n] == k);
        }
        assert(all.take(index + 1)[index] == key);
        if all.take(index + 1).contains(k) && k != key {
            let longer = all.take(index + 1);
            let n = choose|n: int| 0 <= n < longer.len() && longer[n] == k;
            assert(all.take(index)[n] == k);
        }
    }
    if all.take(index).contains(key) {
        let n = choose|n: int| 0 <= n < index && all.take(index)[n] == key;
        assert(all[n] == all[index]);
    }
    if passes {
        assert forall|k: u128| #[trigger] after.contains(k) <==> before.contains(k) || k == key by {
            if before.contains(k) {
                let n = choose|n: int| 0 <= n < before.len() && before[n] == k;
                assert(after[n] == k);
            }
            assert(after[before.len() as int] == key);
        }
        assert(!before.contains(key));
        assert(after.no_duplicates()) by {
            assert forall|i: int, j: int| 0 <= i < j < after.len() implies after[i] != after[j] by {
                if j == before.len() {
                    assert(before.contains(before[i]));
                }
            }
        }
    }
}

} // verus!
