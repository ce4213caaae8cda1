//! What holds of the registries however threads look for services and shut them down.

use crate::generation::RuntimeGeneration;
use crate::ids::{DeviceGenerationId, DeviceServiceStage, RunnerId};
use crate::initialization::{
    finished, init_action, init_step, InitAction, InitEvent, InitPhase, Initialization,
    ServiceOutcome,
};
use crate::registry::{
    channel_code, forget_channels, forget_runners, held, law_channel_code, law_runner_code,
    lists_channels, lists_runners, pin_all, runner_code, runner_generations, Attach, Lookup,
    RuntimeView, Selection,
};
use crate::services_shutdown::{
    distinct, lemma_distinct_from, lemma_held_from, shutdown_step, ShutdownAction, ShutdownEvent,
    ShutdownPhase, ShutdownView,
};
use vstd::prelude::*;

verus! {

/// All services of one device and stage share a runner, and so a generation: whoever looks for
/// the runner after it was found or created is given the same one, as long as it is open.
pub proof fn law_services_share_runner(
    rt: RuntimeView,
    runner: RunnerId,
    first: Option<RunnerId>,
)
    requires
        rt.wf(),
        !(rt.attach_spec(runner) is Closing),
        forall|id: u64| #[trigger]
            rt.generations.contains_key(id) ==> rt.generations[id].external_count < usize::MAX,
    ensures
        ({
            let id = match rt.attach_spec(runner) {
                Attach::Ready(id) => id,
                Attach::Started(id) => id,
                Attach::Closing(id) => id,
            };
            let after = rt.attached(runner, first);
            &&& after.attach_spec(runner) == Attach::Ready(id)
            &&& after.generations[id.0].runner_id == runner
        }),
{
    let key = runner_code(runner);
    if rt.live_runner(runner) is Some {
        law_runner_code(rt.generations[rt.runners[key]].runner_id, runner);
    }
}

/// Runners that differ in device or stage never share a generation.
pub proof fn law_runners_are_apart(rt: RuntimeView, a: RunnerId, b: RunnerId)
    requires
        rt.wf(),
        a != b,
        rt.attach_spec(a) is Ready,
        rt.attach_spec(b) is Ready,
    ensures
        rt.attach_spec(a) != rt.attach_spec(b),
{
    law_runner_code(a, b);
    assert(rt.runners.contains_key(runner_code(a)));
    assert(rt.runners.contains_key(runner_code(b)));
}

/// A new generation has a number that no generation had before.
pub proof fn law_new_generation_is_new(rt: RuntimeView, runner: RunnerId)
    requires
        rt.wf(),
        rt.attach_spec(runner) is Started,
    ensures
        rt.attach_spec(runner) matches Attach::Started(id) ==> !rt.generations.contains_key(id.0),
{
}

/// A weak registry keeps nothing open: a new generation is owned by whoever asked for it alone,
/// and a new channel state by its handle alone. A strong registry owns a share of each.
pub proof fn law_registry_shares(
    rt: RuntimeView,
    runner: RunnerId,
    service: u64,
    utilities: u64,
    generation: DeviceGenerationId,
)
    ensures
        rt.started(runner, rt.counters.next_id).external_count == (if rt.strong {
            2int
        } else {
            1int
        }),
        rt.channel_registered(
            runner,
            service,
            utilities,
            generation,
        ).states[rt.next_state].references == (if rt.strong {
            2int
        } else {
            1int
        }),
{
}

/// A service that was registered is found by whoever looks for it next, without being initialized
/// again; and another instance of it is refused.
pub proof fn law_registered_is_found(
    rt: RuntimeView,
    runner: RunnerId,
    service: u64,
    utilities: u64,
    generation: DeviceGenerationId,
    found: Lookup,
    refused: Lookup,
)
    requires
        rt.wf(),
        rt.generations.contains_key(generation.0),
        rt.generations[generation.0].status.is_open(),
        ({
            let after = rt.channel_registered(runner, service, utilities, generation);
            &&& after.lookup_matches(channel_code(runner, service), false, found)
            &&& after.lookup_matches(channel_code(runner, service), true, refused)
        }),
    ensures
        found == Lookup::Shared(rt.next_state),
        refused is AlreadyInitialized,
{
}

/// A service whose generation is not open is never shared.
pub proof fn law_stale_is_not_shared(rt: RuntimeView, key: u128, given: bool, lookup: Lookup)
    requires
        rt.lookup_matches(key, given, lookup),
        lookup is Shared,
    ensures
        lookup matches Lookup::Shared(s) ==> rt.is_active(s) && rt.states.contains_key(s),
{
}

/// Closing or leaving one generation leaves every other one as it was.
pub proof fn law_generations_are_apart(rt: RuntimeView, g: RuntimeGeneration, other: u64)
    requires
        other != g.id.0,
        rt.generations.contains_key(other),
    ensures
        rt.with_generation(g).generations[other] == rt.generations[other],
        rt.with_generation(g).runners == rt.runners,
        rt.with_generation(g).channels == rt.channels,
{
}

/// The runtime, and all the threads that look for services in it.
pub struct InitSystem {
    /// The runtime.
    pub rt: RuntimeView,
    /// The threads.
    pub calls: Seq<Initialization>,
}

/// Number of threads that passed the barrier.
pub open spec fn permits(calls: Seq<Initialization>) -> int
    decreases calls.len(),
{
    if calls.len() == 0 {
        0
    } else {
        permits(calls.drop_last()) + (if calls.last().has_permit() {
            1int
        } else {
            0int
        })
    }
}

/// The barrier counts the threads that passed it, and at most one of them is at work on the
/// registries: the one for which they are locked.
pub open spec fn init_inv(s: InitSystem) -> bool {
    &&& s.rt.wf()
    &&& s.rt.barrier.active_initializers == permits(s.calls)
    &&& forall|i: int| 0 <= i < s.calls.len() ==> (#[trigger] s.calls[i]).fits(s.rt)
    &&& s.rt.initializing ==> exists|i: int|
        0 <= i < s.calls.len() && (#[trigger] s.calls[i]).locks()
    &&& forall|i: int, j: int|
        0 <= i < s.calls.len() && 0 <= j < s.calls.len() && (#[trigger] s.calls[i]).locks() && (
        #[trigger] s.calls[j]).locks() ==> i == j
}

/// The system after a thread took a step.
pub open spec fn init_system_step(s: InitSystem, i: int, event: InitEvent) -> InitSystem {
    let (rt, call) = init_step(s.rt, s.calls[i], event);
    InitSystem { rt, calls: s.calls.update(i, call) }
}

proof fn lemma_permits_update(calls: Seq<Initialization>, i: int, call: Initialization)
    requires
        0 <= i < calls.len(),
    ensures
        permits(calls.update(i, call)) == permits(calls) - (if calls[i].has_permit() {
            1int
        } else {
            0int
        }) + (if call.has_permit() {
            1int
        } else {
            0int
        }),
        permits(calls) >= (if calls[i].has_permit() {
            1int
        } else {
            0int
        }),
    decreases calls.len(),
{
    lemma_permits_nonnegative(calls.drop_last());
    if i == calls.len() - 1 {
        assert(calls.update(i, call).drop_last() =~= calls.drop_last());
    } else {
        assert(calls.update(i, call).drop_last() =~= calls.drop_last().update(i, call));
        lemma_permits_update(calls.drop_last(), i, call);
    }
}

proof fn lemma_permits_nonnegative(calls: Seq<Initialization>)
    ensures
        permits(calls) >= 0,
    decreases calls.len(),
{
    if calls.len() > 0 {
        lemma_permits_nonnegative(calls.drop_last());
    }
}

proof fn lemma_permits_positive(calls: Seq<Initialization>, j: int)
    requires
        0 <= j < calls.len(),
        calls[j].has_permit(),
    ensures
        permits(calls) > 0,
{
    lemma_permits_update(calls, j, calls[j]);
}

/// However many threads look for services at a time, only one of them is between looking for its
/// service and registering it; so no service is initialized by two threads at once.
pub proof fn law_one_initializes_at_a_time(s: InitSystem, i: int, event: InitEvent)
    requires
        init_inv(s),
        0 <= i < s.calls.len(),
        s.rt.has_room(),
    ensures
        init_inv(init_system_step(s, i, event)),
{
    let t = init_system_step(s, i, event);
    let before = s.calls[i];
    lemma_step_keeps_wf(s.rt, before, event);
    let after = t.calls[i];
    lemma_permits_update(s.calls, i, after);
    assert(t.rt.barrier.active_initializers == permits(t.calls));
    assert forall|j: int| 0 <= j < t.calls.len() implies (#[trigger] t.calls[j]).fits(t.rt) by {
        if j != i {
            assert(s.calls[j].fits(s.rt));
            if s.calls[j].has_permit() {
                assert(t.calls[j].has_permit());
                lemma_permits_positive(t.calls, j);
            }
            if s.calls[j].locks() {
                assert(!before.locks());
                assert(s.rt.initializing);
            }
            lemma_step_keeps_runners(s.rt, before, event);
        }
    }
    if t.rt.initializing {
        if s.rt.initializing {
            let j = choose|j: int| 0 <= j < s.calls.len() && (#[trigger] s.calls[j]).locks();
            if j != i {
                assert(t.calls[j].locks());
            } else {
                assert(t.calls[i].locks());
            }
        } else {
            assert(t.calls[i].locks());
        }
    }
    assert forall|j: int, k: int|
        0 <= j < t.calls.len() && 0 <= k < t.calls.len() && (#[trigger] t.calls[j]).locks() && (
        #[trigger] t.calls[k]).locks() implies j == k by {
        if j != i && k != i {
            assert(s.calls[j].locks() && s.calls[k].locks());
        } else if j != k {
            let other = if j == i {
                k
            } else {
                j
            };
            assert(s.calls[other].locks());
            assert(s.rt.initializing);
            assert(before.locks() || !after.locks());
        }
    }
}

/// A step of a thread keeps the runtime well-formed, and what the thread holds known to it.
proof fn lemma_step_keeps_wf(rt: RuntimeView, call: Initialization, event: InitEvent)
    requires
        rt.wf(),
        rt.has_room(),
        call.fits(rt),
    ensures
        init_step(rt, call, event).0.wf(),
        init_step(rt, call, event).1.fits(init_step(rt, call, event).0),
{
    let (after, next) = init_step(rt, call, event);
    let key = runner_code(call.runner);
    match call.phase {
        InitPhase::Attach => {
            if rt.live_runner(call.runner) is Some {
                law_runner_code(rt.generations[rt.runners[key]].runner_id, call.runner);
            }
            assert forall|k: u128| #[trigger] after.runners.contains_key(k) implies ({
                let id = after.runners[k];
                &&& after.generations.contains_key(id)
                &&& runner_code(after.generations[id].runner_id) == k
            }) by {
                if k != key {
                    assert(rt.runners.contains_key(k));
                }
            }
        },
        InitPhase::Initialize { generation } => {
            assert forall|k: u128| #[trigger] after.channels.contains_key(k) implies ({
                let s = after.channels[k];
                &&& s < after.next_state
                &&& after.strong ==> after.states.contains_key(s)
                &&& after.states.contains_key(s) ==> channel_code(
                    after.states[s].runner,
                    after.states[s].service,
                ) == k
            }) by {
                if k != call.key() {
                    assert(rt.channels.contains_key(k));
                }
            }
        },
        _ => {},
    }
}

/// A step of a thread keeps the generations, and the runner of each.
proof fn lemma_step_keeps_runners(rt: RuntimeView, call: Initialization, event: InitEvent)
    requires
        rt.wf(),
    ensures
        forall|id: u64| #[trigger]
            rt.generations.contains_key(id) ==> init_step(
                rt,
                call,
                event,
            ).0.generations.contains_key(id) && init_step(rt, call, event).0.generations[id].runner_id
                == rt.generations[id].runner_id,
{
}

/// While one thread is at work on the registries, every other one that wants to look for a service
/// waits and changes nothing.
pub proof fn law_others_wait(
    rt: RuntimeView,
    call: Initialization,
    event: InitEvent,
    action: InitAction,
)
    requires
        rt.initializing,
        call.phase is Lookup,
        init_action(rt, call, event, action),
    ensures
        action is WaitForChannels,
        init_step(rt, call, event) == (rt, call),
{
}

/// Threads that waited for a closing generation share the one that replaces it: the first of them
/// to look again registers its service on a new generation, and the next one finds that service.
pub proof fn law_waiters_share_replacement(
    rt: RuntimeView,
    first: Initialization,
    second: Initialization,
    generation: DeviceGenerationId,
    utilities: u64,
    action: InitAction,
)
    requires
        rt.wf(),
        rt.has_room(),
        first.phase == (InitPhase::Initialize { generation }),
        first.fits(rt),
        rt.generations[generation.0].status.is_open(),
        second.phase is Lookup,
        !second.given,
        second.key() == first.key(),
        ({
            let event = InitEvent::Initialized(ServiceOutcome::Ready { utilities });
            let after = init_step(rt, first, event).0;
            init_action(after, second, InitEvent::Resume, action)
        }),
    ensures
        action == InitAction::Ready(rt.next_state, None),
{
    let event = InitEvent::Initialized(ServiceOutcome::Ready { utilities });
    let after = init_step(rt, first, event).0;
    assert(after == finished(
        rt.channel_registered(first.runner, first.service, utilities, generation),
    ));
    assert(after.registered(first.key()) == Some(rt.next_state));
}

/// How far along a shutdown is.
pub open spec fn progress(phase: ShutdownPhase) -> int {
    match phase {
        ShutdownPhase::Acquire => 0,
        ShutdownPhase::Pin => 1,
        ShutdownPhase::Quiet(stage) => stage_progress(stage),
        ShutdownPhase::Channels(stage) => stage_progress(stage) + 1,
        ShutdownPhase::DropChannels(stage) => stage_progress(stage) + 2,
        ShutdownPhase::Runners(stage) => stage_progress(stage) + 3,
        ShutdownPhase::DropRunners(stage) => stage_progress(stage) + 4,
        ShutdownPhase::Close(stage) => stage_progress(stage) + 5,
        ShutdownPhase::Closing(stage) => stage_progress(stage) + 5,
        ShutdownPhase::Unpin => 14,
        ShutdownPhase::Over => 15,
    }
}

/// How far along a shutdown is when it begins with a stage.
pub open spec fn stage_progress(stage: DeviceServiceStage) -> int {
    match stage {
        DeviceServiceStage::Upstream => 2,
        DeviceServiceStage::Downstream => 8,
    }
}

/// A shutdown only goes forward, and it begins with downstream services only once every upstream
/// generation that it found was closed, and the runner of each was joined.
pub proof fn law_upstream_first(
    rt: RuntimeView,
    sd: ShutdownView,
    event: ShutdownEvent,
    rt2: RuntimeView,
    sd2: ShutdownView,
    action: ShutdownAction,
)
    requires
        shutdown_step(rt, sd, event, rt2, sd2, action),
    ensures
        progress(sd2.phase) >= progress(sd.phase),
        progress(sd.phase) < 8 && progress(sd2.phase) >= 8 ==> sd.phase == ShutdownPhase::Close(
            DeviceServiceStage::Upstream,
        ) && sd.closers.len() == 0,
        progress(sd.phase) < 14 && progress(sd2.phase) >= 14 ==> sd.phase == ShutdownPhase::Close(
            DeviceServiceStage::Downstream,
        ) && sd.closers.len() == 0,
        action is Close ==> sd.phase is Close,
{
}

/// A stage is not touched while something is being initialized, and a downstream generation that
/// was open when the shutdown began is not let go before the end.
pub proof fn law_shutdown_waits(
    rt: RuntimeView,
    sd: ShutdownView,
    event: ShutdownEvent,
    rt2: RuntimeView,
    sd2: ShutdownView,
    action: ShutdownAction,
)
    requires
        shutdown_step(rt, sd, event, rt2, sd2, action),
    ensures
        sd.phase is Quiet && rt.barrier.active_initializers != 0 ==> sd2 == sd && rt2 == rt,
        sd.phase is Pin && rt.barrier.active_initializers != 0 ==> sd2 == sd && rt2 == rt,
        sd.phase is Channels && rt.initializing ==> sd2 == sd && rt2 == rt,
        !(sd.phase is Pin) && !(sd.phase is Unpin) ==> sd2.pins == sd.pins,
        rt.barrier.shutting_down && !(sd.phase is Unpin) ==> rt2.barrier.shutting_down,
{
    if sd.phase is Pin && rt.barrier.active_initializers == 0 {
        let keys = choose|keys: Seq<u128>| #[trigger]
            lists_runners(
                keys,
                rt.runners,
                sd.selection(DeviceServiceStage::Downstream),
            ) && (rt2, sd2.pins) == pin_all(rt, keys);
        lemma_pin_keeps_barrier(rt, keys);
    }
    if sd.phase is Channels && !rt.initializing {
        let stage = sd.phase->Channels_0;
        let keys = choose|keys: Seq<u128>| #[trigger]
            lists_channels(keys, rt.channels, sd.selection(stage)) && (rt2, sd2.freed) == forget_channels(
                rt,
                keys,
            );
        lemma_forget_channels(rt, keys);
    }
    if sd.phase is Runners {
        let stage = sd.phase->Runners_0;
        let keys = choose|keys: Seq<u128>| #[trigger]
            lists_runners(keys, rt.runners, sd.selection(stage)) && rt2 == forget_runners(rt, keys)
                && sd2.closers == distinct(held(rt, runner_generations(rt, keys)));
        lemma_forget_runners(rt, keys);
    }
}

proof fn lemma_pin_keeps_barrier(rt: RuntimeView, keys: Seq<u128>)
    ensures
        pin_all(rt, keys).0.barrier == rt.barrier,
    decreases keys.len(),
{
    if keys.len() > 0 {
        lemma_pin_keeps_barrier(rt, keys.drop_last());
    }
}

proof fn lemma_forget_channels(rt: RuntimeView, keys: Seq<u128>)
    ensures
        forget_channels(rt, keys).0.barrier == rt.barrier,
        forget_channels(rt, keys).0.runners == rt.runners,
        forall|k: u128| #[trigger]
            forget_channels(rt, keys).0.channels.contains_key(k) <==> rt.channels.contains_key(k)
                && !keys.contains(k),
    decreases keys.len(),
{
    if keys.len() > 0 {
        let rest = keys.drop_last();
        lemma_forget_channels(rt, rest);
        assert forall|k: u128| #[trigger]
            forget_channels(rt, keys).0.channels.contains_key(k) <==> rt.channels.contains_key(k)
                && !keys.contains(k) by {
            lemma_contains_last(keys, k);
            assert(forget_channels(rt, rest).0.channels.contains_key(k)
                <==> rt.channels.contains_key(k) && !rest.contains(k));
        }
    }
}

proof fn lemma_forget_runners(rt: RuntimeView, keys: Seq<u128>)
    ensures
        forget_runners(rt, keys).barrier == rt.barrier,
        forget_runners(rt, keys).channels == rt.channels,
        forall|k: u128| #[trigger]
            forget_runners(rt, keys).runners.contains_key(k) <==> rt.runners.contains_key(k)
                && !keys.contains(k),
    decreases keys.len(),
{
    if keys.len() > 0 {
        let rest = keys.drop_last();
        lemma_forget_runners(rt, rest);
        assert forall|k: u128| #[trigger]
            forget_runners(rt, keys).runners.contains_key(k) <==> rt.runners.contains_key(k)
                && !keys.contains(k) by {
            lemma_contains_last(keys, k);
            assert(forget_runners(rt, rest).runners.contains_key(k) <==> rt.runners.contains_key(k)
                && !rest.contains(k));
        }
    }
}

proof fn lemma_contains_last(keys: Seq<u128>, k: u128)
    requires
        keys.len() > 0,
    ensures
        keys.contains(k) <==> keys.drop_last().contains(k) || k == keys.last(),
{
    let rest = keys.drop_last();
    assert(keys[keys.len() - 1] == keys.last());
    if rest.contains(k) {
        let n = choose|n: int| 0 <= n < rest.len() && rest[n] == k;
        assert(keys[n] == k);
    }
    if keys.contains(k) && k != keys.last() {
        let n = choose|n: int| 0 <= n < keys.len() && keys[n] == k;
        assert(rest[n] == k);
    }
}

/// A shutdown that is over lets every thread initialize services again, and so a new generation be
/// created.
pub proof fn law_reopens_after_shutdown(
    rt: RuntimeView,
    sd: ShutdownView,
    event: ShutdownEvent,
    rt2: RuntimeView,
    sd2: ShutdownView,
    action: ShutdownAction,
    caller: Option<DeviceServiceStage>,
    target: DeviceServiceStage,
)
    requires
        shutdown_step(rt, sd, event, rt2, sd2, action),
        sd.phase is Unpin,
    ensures
        sd2.phase is Over <==> action is Done,
        action is Done ==> rt2.barrier.admission(caller, target) is Granted,
        action is Done ==> sd.pins.len() == 0,
{
}

/// When a shutdown forgets the runners of a stage, no runner of that stage stays registered, the
/// others do, and the generation of each forgotten runner is closed, once, unless nobody refers to
/// it any more. Where the shutdown is about one device, this is so of its runners.
pub proof fn law_every_runner_is_closed(
    rt: RuntimeView,
    sd: ShutdownView,
    event: ShutdownEvent,
    rt2: RuntimeView,
    sd2: ShutdownView,
    action: ShutdownAction,
    stage: DeviceServiceStage,
)
    requires
        shutdown_step(rt, sd, event, rt2, sd2, action),
        sd.phase == ShutdownPhase::Runners(stage),
    ensures
        forall|k: u128| #[trigger]
            rt2.runners.contains_key(k) <==> rt.runners.contains_key(k) && !sd.selection(
                stage,
            ).has_runner(k),
        sd2.closers.no_duplicates(),
        forall|k: u128| #[trigger]
            rt.runners.contains_key(k) && sd.selection(stage).has_runner(k) && rt.is_held(
                rt.runners[k],
            ) ==> sd2.closers.contains(rt.runners[k]),
        forall|id: u64| #[trigger]
            sd2.closers.contains(id) ==> rt.is_held(id) && exists|k: u128| #[trigger]
                rt.runners.contains_key(k) && sd.selection(stage).has_runner(k) && rt.runners[k]
                    == id,
{
    let selection = sd.selection(stage);
    let keys = choose|keys: Seq<u128>| #[trigger]
        lists_runners(keys, rt.runners, selection) && rt2 == forget_runners(rt, keys)
            && sd2.closers == distinct(held(rt, runner_generations(rt, keys)));
    let removed = runner_generations(rt, keys);
    lemma_forget_runners(rt, keys);
    lemma_held_from(rt, removed);
    lemma_distinct_from(held(rt, removed));
    assert forall|k: u128| #[trigger]
        rt2.runners.contains_key(k) <==> rt.runners.contains_key(k) && !selection.has_runner(k) by {
        assert(keys.contains(k) <==> rt.runners.contains_key(k) && selection.has_runner(k));
    }
    assert forall|k: u128| #[trigger]
        rt.runners.contains_key(k) && selection.has_runner(k) && rt.is_held(
            rt.runners[k],
        ) implies sd2.closers.contains(rt.runners[k]) by {
        assert(keys.contains(k));
        let n = choose|n: int| 0 <= n < keys.len() && keys[n] == k;
        assert(removed[n] == rt.runners[k]);
        assert(removed.contains(rt.runners[k]));
        assert(held(rt, removed).contains(rt.runners[k]));
    }
    assert forall|id: u64| #[trigger] sd2.closers.contains(id) implies rt.is_held(id) && exists|
        k: u128,
    | #[trigger]
        rt.runners.contains_key(k) && selection.has_runner(k) && rt.runners[k] == id by {
        assert(held(rt, removed).contains(id));
        assert(removed.contains(id));
        let n = choose|n: int| 0 <= n < removed.len() && removed[n] == id;
        assert(keys.contains(keys[n]));
        assert(rt.runners.contains_key(keys[n]));
    }
}

/// When a shutdown forgets the services of a stage, no service of that stage stays registered, and
/// the others do. Where the shutdown is about one device, this is so of its services.
pub proof fn law_every_channel_is_forgotten(
    rt: RuntimeView,
    sd: ShutdownView,
    event: ShutdownEvent,
    rt2: RuntimeView,
    sd2: ShutdownView,
    action: ShutdownAction,
    stage: DeviceServiceStage,
)
    requires
        shutdown_step(rt, sd, event, rt2, sd2, action),
        sd.phase == ShutdownPhase::Channels(stage),
        !rt.initializing,
    ensures
        forall|k: u128| #[trigger]
            rt2.channels.contains_key(k) <==> rt.channels.contains_key(k) && !sd.selection(
                stage,
            ).has_channel(k),
{
    let selection = sd.selection(stage);
    let keys = choose|keys: Seq<u128>| #[trigger]
        lists_channels(keys, rt.channels, selection) && (rt2, sd2.freed) == forget_channels(
            rt,
            keys,
        );
    lemma_forget_channels(rt, keys);
    assert forall|k: u128| #[trigger]
        rt2.channels.contains_key(k) <==> rt.channels.contains_key(k) && !selection.has_channel(
            k,
        ) by {
        assert(keys.contains(k) <==> rt.channels.contains_key(k) && selection.has_channel(k));
    }
}

/// Whether a runner is shut down is told by its stage and its device; so a shutdown of one device
/// leaves the runners and the services of every other one alone.
pub proof fn law_selection_tells_runners(
    selection: Selection,
    runner: RunnerId,
    service: u64,
)
    ensures
        selection.has_runner(runner_code(runner)) == selection.selects(runner),
        selection.has_channel(channel_code(runner, service)) == selection.selects(runner),
        selection.device is Some && runner.device != selection.device->0 ==> !selection.selects(
            runner,
        ),
{
    law_runner_code(runner, runner);
    law_channel_code(runner, service, runner, service);
}

/// A shutdown that runs to its end: its states, and what happened before each step.
pub open spec fn is_shutdown_run(states: Seq<ShutdownView>, events: Seq<ShutdownEvent>) -> bool {
    &&& states.len() == events.len() + 1
    &&& states[0] == ShutdownView::init(states[0].device)
    &&& forall|n: int|
        0 <= n < events.len() ==> exists|
            rt: RuntimeView,
            rt2: RuntimeView,
            action: ShutdownAction,
        | #[trigger]
            shutdown_step(rt, states[n], #[trigger] events[n], rt2, states[n + 1], action)
}

/// Number of generations that a shutdown closed whose runner had panicked.
pub open spec fn panics_seen(states: Seq<ShutdownView>, events: Seq<ShutdownEvent>, n: int) -> int
    decreases n,
{
    if n <= 0 {
        0
    } else {
        panics_seen(states, events, n - 1) + (if states[n - 1].phase is Closing && events[n - 1]
            == (ShutdownEvent::Closed { panicked: true }) {
            1int
        } else {
            0int
        })
    }
}

/// The number of panics that a shutdown reports is that of the runners that had panicked.
pub proof fn law_panics_are_counted(
    states: Seq<ShutdownView>,
    events: Seq<ShutdownEvent>,
    n: int,
)
    requires
        is_shutdown_run(states, events),
        0 <= n <= events.len() < usize::MAX,
    ensures
        states[n].runner_panics == panics_seen(states, events, n),
        0 <= panics_seen(states, events, n) <= n,
    decreases n,
{
    if n > 0 {
        law_panics_are_counted(states, events, n - 1);
        let event = events[n - 1];
        let m = n - 1;
        assert(0 <= m < events.len());
        let (rt, rt2, action) = choose|
            rt: RuntimeView,
            rt2: RuntimeView,
            action: ShutdownAction,
        | #[trigger]
            shutdown_step(rt, states[m], events[m], rt2, states[m + 1], action);
        assert(shutdown_step(rt, states[m], events[m], rt2, states[m + 1], action));
    }
}

} // verus!
