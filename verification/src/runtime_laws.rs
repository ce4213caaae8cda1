//! What the registries of runners and services answer, and what each answer changes.

use crate::generation::ExternalLease;
use crate::ids::{DeviceGenerationId, RunnerId};
use crate::initialization::{InitAction, InitEvent, Initialization, ServiceOutcome};
use crate::registry::{Attach, Lookup};
use vstd::prelude::*;

verus! {

use crate::initialization::{init_action, init_step};
use crate::registry::{channel_code, forget_runners, held, pin_all, runner_code, RuntimeView};

/// A channel state is counted by its references: one more is shared, one less is dropped, and the
/// last one takes the state away and sets the lease of its generation free. Sharing and dropping
/// undo each other.
pub proof fn law_references_are_counted(rt: RuntimeView, s: u64, other: u64)
    requires
        rt.states.contains_key(s),
        0 < rt.states[s].references < usize::MAX,
        other != s,
    ensures
        ({
            let shared = rt.state_shared(s);
            let dropped = rt.state_dropped(s);
            let last = rt.states[s].references == 1;
            &&& shared.states[s].references == rt.states[s].references + 1
            &&& shared.states[s].generation == rt.states[s].generation
            &&& shared.states[s].runner == rt.states[s].runner
            &&& shared.states[s].service == rt.states[s].service
            &&& shared.states[s].utilities == rt.states[s].utilities
            &&& shared.state_dropped(s) == rt
            &&& shared.state_lease(s) is None
            &&& dropped.states.contains_key(s) <==> !last
            &&& !last ==> dropped.states[s].references == rt.states[s].references - 1
            &&& !last ==> dropped.states[s].generation == rt.states[s].generation
            &&& rt.state_lease(s) is Some <==> last
            &&& last ==> rt.state_lease(s) == Some(rt.states[s].generation)
            &&& shared.states.contains_key(other) <==> rt.states.contains_key(other)
            &&& dropped.states.contains_key(other) <==> rt.states.contains_key(other)
            &&& rt.states.contains_key(other) ==> shared.states[other] == rt.states[other]
                && dropped.states[other] == rt.states[other]
            &&& shared.generations == rt.generations && dropped.generations == rt.generations
            &&& shared.channels == rt.channels && dropped.channels == rt.channels
            &&& shared.runners == rt.runners && dropped.runners == rt.runners
        }),
{
    let shared = rt.state_shared(s);
    assert(shared.state_dropped(s).states =~= rt.states);
    assert(shared.state_dropped(s) =~= rt);
}

/// A service is shared exactly if it is registered, somebody refers to it, its generation takes
/// work, and the caller does not bring one of its own. A registered service whose generation takes
/// no work is forgotten. Only what is shared gets one reference more.
pub proof fn law_service_is_shared_while_active(
    rt: RuntimeView,
    key: u128,
    given: bool,
    lookup: Lookup,
)
    requires
        rt.lookup_matches(key, given, lookup),
    ensures
        ({
            let there = rt.channels.contains_key(key) && rt.states.contains_key(rt.channels[key]);
            let s = rt.channels[key];
            let open = rt.generations[rt.states[s].generation.0].status.is_open();
            &&& lookup is Shared <==> there && open && !given
            &&& lookup is Shared ==> lookup == Lookup::Shared(s) && rt.looked_up(key, given)
                == rt.state_shared(s)
            &&& lookup is AlreadyInitialized <==> there && open && given
            &&& lookup is AlreadyInitialized ==> rt.looked_up(key, given) == rt
            &&& lookup is Stale <==> there && !open
            &&& lookup is Stale ==> !rt.looked_up(key, given).channels.contains_key(key)
            &&& lookup is Absent <==> !there
            &&& lookup is Absent ==> rt.looked_up(key, given) == rt
        }),
{
}

/// Forgetting a service takes it out of the registry and leaves every other one in it. A registry
/// that keeps its services alive drops its reference, and sets the lease free with the last one;
/// any other changes no reference.
pub proof fn law_forgotten_service(rt: RuntimeView, key: u128, other: u128)
    requires
        other != key,
    ensures
        ({
            let after = rt.channel_removed(key);
            &&& !after.channels.contains_key(key)
            &&& after.channels.contains_key(other) <==> rt.channels.contains_key(other)
            &&& rt.channels.contains_key(other) ==> after.channels[other] == rt.channels[other]
            &&& !rt.strong ==> after.states == rt.states && rt.channel_lease(key) is None
            &&& rt.strong && rt.registered(key) is Some ==> after.states == rt.state_dropped(
                rt.channels[key],
            ).states && (rt.channel_lease(key) is Some <==> rt.states[rt.channels[key]].references
                == 1)
            &&& rt.channel_lease(key) is Some ==> rt.channel_lease(key) == Some(
                rt.states[rt.channels[key]].generation,
            )
            &&& after.runners == rt.runners
            &&& after.generations == rt.generations
        }),
{
}

/// A runner is shared exactly if its registered generation takes work and somebody refers to it: it
/// then has one lease more. While that generation closes there is something to wait for, and
/// nothing changes. Else a generation is created: it has the next number, the runner that was asked
/// for, a lease for whoever asked and one for a registry that keeps its runners alive, and a
/// reference for its thread; and it is registered.
pub proof fn law_runner_is_shared_while_open(
    rt: RuntimeView,
    runner: RunnerId,
    thread: Option<RunnerId>,
)
    requires
        rt.wf(),
        rt.has_room(),
    ensures
        ({
            let key = runner_code(runner);
            let g = rt.generations[rt.runners[key]];
            let live = rt.runners.contains_key(key) && !(g.status is Closed)
                && !g.is_forgotten_spec();
            let after = rt.attached(runner, thread);
            let id = rt.counters.next_id;
            &&& rt.attach_spec(runner) is Ready <==> live && g.status.is_open()
            &&& rt.attach_spec(runner) is Ready ==> rt.attach_spec(runner) == Attach::Ready(g.id)
                && after == rt.with_generation(g.leased())
            &&& rt.attach_spec(runner) is Closing <==> live && g.status is Closing
            &&& rt.attach_spec(runner) is Closing ==> rt.attach_spec(runner) == Attach::Closing(
                g.id,
            ) && after == rt
            &&& rt.attach_spec(runner) is Started <==> !live
            &&& !live ==> {
                let new = after.generations[id];
                &&& rt.attach_spec(runner) == Attach::Started(DeviceGenerationId(id))
                &&& !rt.generations.contains_key(id)
                &&& after.runners == rt.runners.insert(key, id)
                &&& new.id.0 == id
                &&& new.runner_id == runner
                &&& new.status is Starting
                &&& new.external_count == (if rt.strong {
                    2int
                } else {
                    1int
                })
                &&& new.internal_count == 1
                &&& !new.joinable && !new.runner_panicked && !new.join_delegated
                &&& after.counters.created == rt.counters.created.wrapping_add(1)
                &&& after.counters.next_id == id + 1
            }
            &&& after.channels == rt.channels
            &&& after.states == rt.states
            &&& after.barrier == rt.barrier
        }),
{
}

/// A service that is registered is found under its own number, with the runner, the generation and
/// the utilities that it was registered with. It has a reference for whoever asked, and one for a
/// registry that keeps its services alive.
pub proof fn law_registered_service(
    rt: RuntimeView,
    runner: RunnerId,
    service: u64,
    utilities: u64,
    generation: DeviceGenerationId,
)
    requires
        rt.has_room(),
    ensures
        ({
            let after = rt.channel_registered(runner, service, utilities, generation);
            let s = rt.next_state;
            &&& after.registered(channel_code(runner, service)) == Some(s)
            &&& after.next_state == s + 1
            &&& after.states[s].runner == runner
            &&& after.states[s].service == service
            &&& after.states[s].utilities == utilities
            &&& after.states[s].generation == generation
            &&& after.states[s].references == (if rt.strong {
                2int
            } else {
                1int
            })
            &&& after.is_registered(s)
            &&& after.runners == rt.runners
            &&& after.generations == rt.generations
        }),
{
}

/// A generation that is created for a client has the next number, one lease and one reference, and
/// is not registered; no other generation changes.
pub proof fn law_created_generation(rt: RuntimeView, runner: RunnerId, other: u64)
    requires
        rt.has_room(),
        other != rt.counters.next_id,
    ensures
        ({
            let after = rt.created(runner);
            let g = after.generations[rt.counters.next_id];
            &&& g.id.0 == rt.counters.next_id
            &&& g.runner_id == runner
            &&& g.external_count == 1
            &&& g.internal_count == 1
            &&& g.status is Starting
            &&& !g.joinable && !g.join_delegated && !g.runner_panicked
            &&& after.counters.next_id == rt.counters.next_id + 1
            &&& after.counters.closed == rt.counters.closed
            &&& after.generations.contains_key(other) <==> rt.generations.contains_key(other)
            &&& rt.generations.contains_key(other) ==> after.generations[other]
                == rt.generations[other]
            &&& after.runners == rt.runners
            &&& after.channels == rt.channels
            &&& after.states == rt.states
        }),
{
}

/// Forgetting runners takes exactly them out of the registry.
pub proof fn law_forgotten_runners(rt: RuntimeView, keys: Seq<u128>)
    ensures
        ({
            let after = forget_runners(rt, keys);
            &&& forall|k: u128| #[trigger]
                after.runners.contains_key(k) <==> rt.runners.contains_key(k) && !keys.contains(k)
            &&& forall|k: u128| #[trigger]
                after.runners.contains_key(k) ==> after.runners[k] == rt.runners[k]
            &&& after.generations == rt.generations
            &&& after.channels == rt.channels
            &&& after.states == rt.states
        }),
    decreases keys.len(),
{
    if keys.len() > 0 {
        let rest = keys.drop_last();
        law_forgotten_runners(rt, rest);
        let after = forget_runners(rt, keys);
        assert forall|k: u128| #[trigger]
            after.runners.contains_key(k) <==> rt.runners.contains_key(k) && !keys.contains(k) by {
            assert(forget_runners(rt, rest).runners.contains_key(k) <==> rt.runners.contains_key(k)
                && !rest.contains(k));
            if rest.contains(k) {
                let n = choose|n: int| 0 <= n < rest.len() && rest[n] == k;
                assert(keys[n] == k);
            }
            if keys.contains(k) {
                let n = choose|n: int| 0 <= n < keys.len() && keys[n] == k;
                if n < rest.len() {
                    assert(rest[n] == k);
                }
            }
            assert(keys[keys.len() - 1] == keys.last());
        }
        assert forall|k: u128| #[trigger] after.runners.contains_key(k) implies after.runners[k]
            == rt.runners[k] by {
            assert(forget_runners(rt, rest).runners.contains_key(k));
        }
    }
}

/// Of generations, those that somebody refers to are held, in their order.
pub proof fn law_held_generations(rt: RuntimeView, ids: Seq<u64>)
    ensures
        held(rt, ids) == ids.filter(|id: u64| !rt.generations[id].is_forgotten_spec()),
    decreases ids.len(),
{
    reveal(Seq::filter);
    if ids.len() > 0 {
        law_held_generations(rt, ids.drop_last());
    }
}

/// A generation is that of one of some registered runners.
pub open spec fn is_among(rt: RuntimeView, keys: Seq<u128>, id: u64) -> bool {
    exists|i: int| 0 <= i < keys.len() && rt.runners[#[trigger] keys[i]] == id
}

/// A shutdown pins exactly the generations of registered runners that take work and that somebody
/// refers to: each gets one lease, and no other generation changes.
pub proof fn law_open_generations_are_pinned(rt: RuntimeView, keys: Seq<u128>, id: u64)
    requires
        rt.wf(),
        keys.no_duplicates(),
        forall|i: int| 0 <= i < keys.len() ==> rt.runners.contains_key(#[trigger] keys[i]),
    ensures
        ({
            let after = pin_all(rt, keys).0;
            let pins = pin_all(rt, keys).1;
            let g = rt.generations[id];
            let pinned = is_among(rt, keys, id) && g.status.is_open() && !g.is_forgotten_spec();
            &&& after.runners == rt.runners
            &&& after.channels == rt.channels
            &&& after.states == rt.states
            &&& pins.contains(id) <==> pinned
            &&& after.generations[id] == (if pinned {
                g.leased()
            } else {
                g
            })
            &&& after.generations.contains_key(id) <==> rt.generations.contains_key(id)
        }),
    decreases keys.len(),
{
    let after = pin_all(rt, keys).0;
    let pins = pin_all(rt, keys).1;
    if keys.len() == 0 {
        assert(!pins.contains(id));
    } else {
        let rest = keys.drop_last();
        let key = keys.last();
        let last = rt.runners[key];
        assert(keys[keys.len() - 1] == key);
        assert forall|i: int| 0 <= i < rest.len() implies rt.runners.contains_key(
            #[trigger] rest[i],
        ) by {
            assert(rest[i] == keys[i]);
        }
        assert(rest.no_duplicates());
        law_open_generations_are_pinned(rt, rest, id);
        law_open_generations_are_pinned(rt, rest, last);
        let before = pin_all(rt, rest).0;
        let earlier = pin_all(rt, rest).1;
        assert(rt.runners.contains_key(key));
        assert(rt.generations.contains_key(last) && rt.generations[last].id.0 == last);
        assert(!is_among(rt, rest, last)) by {
            if is_among(rt, rest, last) {
                let i = choose|i: int| 0 <= i < rest.len() && rt.runners[#[trigger] rest[i]] == last;
                assert(rest[i] == keys[i] && keys[i] != keys[keys.len() - 1]);
                assert(rt.runners.contains_key(keys[i]));
            }
        }
        assert(is_among(rt, keys, id) <==> is_among(rt, rest, id) || id == last) by {
            if is_among(rt, rest, id) {
                let i = choose|i: int| 0 <= i < rest.len() && rt.runners[#[trigger] rest[i]] == id;
                assert(rest[i] == keys[i]);
                assert(rt.runners[keys[i]] == id);
            }
            if id == last {
                assert(rt.runners[keys[keys.len() - 1]] == id);
            }
            if is_among(rt, keys, id) {
                let i = choose|i: int| 0 <= i < keys.len() && rt.runners[#[trigger] keys[i]] == id;
                if i < rest.len() {
                    assert(rt.runners[rest[i]] == id);
                }
            }
        }
        let g = before.generations[last];
        assert(g == rt.generations[last]);
        if g.status.is_open() && !g.is_forgotten_spec() {
            assert(pins == earlier.push(last));
            assert(pins[pins.len() - 1] == last);
            if earlier.contains(id) {
                let n = choose|n: int| 0 <= n < earlier.len() && earlier[n] == id;
                assert(pins[n] == id);
            }
            if pins.contains(id) && id != last {
                let n = choose|n: int| 0 <= n < pins.len() && pins[n] == id;
                assert(earlier[n] == id);
            }
        }
    }
}

/// A service is initialized in place exactly on the thread of the runner that hosts it, the one of
/// the same device and the same stage; from every other thread it is a task of that runner.
pub proof fn law_service_is_initialized_on_its_runner(
    rt: RuntimeView,
    call: Initialization,
    event: InitEvent,
    action: InitAction,
)
    requires
        init_action(rt, call, event, action),
        action is Initialize,
    ensures
        action->here <==> call.thread is Some && (call.thread->0).device == call.runner.device && (
        call.thread->0).stage == call.runner.stage,
        init_step(rt, call, event).1.phase is Initialize,
        action->Initialize_generation == init_step(
            rt,
            call,
            event,
        ).1.phase->Initialize_generation,
{
}

/// A thread that wants a service gets it only registered: it was there and took work, or it was
/// made and is registered now under the runner and with the utilities that it was made with. Where
/// the thread brings an instance and one is there, it gets an error.
pub proof fn law_ready_service_is_registered(
    rt: RuntimeView,
    call: Initialization,
    event: InitEvent,
    s: u64,
    lease: Option<ExternalLease>,
)
    requires
        rt.has_room(),
        init_action(rt, call, event, InitAction::Ready(s, lease)),
    ensures
        ({
            let after = init_step(rt, call, event).0;
            &&& init_step(rt, call, event).1.phase is Over
            &&& after.registered(channel_code(call.runner, call.service)) == Some(s)
            &&& call.phase is Lookup ==> !call.given && rt.is_active(s) && lease is None
            &&& call.phase is Initialize ==> after.states[s].runner == call.runner
                && after.states[s].service == call.service && after.states[s].generation
                == call.phase->Initialize_generation && event is Initialized
                && event->Initialized_0 == (ServiceOutcome::Ready {
                utilities: after.states[s].utilities,
            })
            &&& call.phase is Lookup || call.phase is Initialize
        }),
{
}

/// A service that cannot be made is not registered, and the lease that was taken for it is handed
/// back: with an error where one is there already, or where making it panicked on this very thread,
/// which is that of the runner; with a panic where it panicked elsewhere or the runner takes no
/// work.
pub proof fn law_service_that_is_not_made(
    rt: RuntimeView,
    call: Initialization,
    outcome: ServiceOutcome,
    action: InitAction,
)
    requires
        call.phase is Initialize,
        !(outcome is Ready),
        init_action(rt, call, InitEvent::Initialized(outcome), action),
    ensures
        ({
            let (after, next) = init_step(rt, call, InitEvent::Initialized(outcome));
            let own = call.thread is Some && (call.thread->0).device == call.runner.device && (
            call.thread->0).stage == call.runner.stage;
            let generation = call.phase->Initialize_generation;
            &&& next.phase is Over
            &&& after.channels == rt.channels
            &&& after.states == rt.states
            &&& after.generations == rt.generations
            &&& action is Failed <==> outcome is AlreadyInitialized || (outcome is Panicked && own)
            &&& action is Panicked <==> outcome is Refused || (outcome is Panicked && !own)
            &&& action matches InitAction::Failed(error, lease) ==> {
                &&& lease is Some && (lease->0)@ == generation
                &&& outcome is AlreadyInitialized ==> error@ == "Service already initialized."@
                &&& outcome is Panicked ==> error@ == "Service initialization failed: Any { .. }"@
            }
            &&& action matches InitAction::Panicked(lease) ==> lease@ == generation
        }),
{
}

/// A runner never waits for its own generation to close, and every other thread does, and then
/// looks for the service again; meanwhile others may look for services.
pub proof fn law_runner_never_waits_for_itself(
    rt: RuntimeView,
    call: Initialization,
    event: InitEvent,
    action: InitAction,
)
    requires
        init_action(rt, call, event, action),
    ensures
        ({
            let (after, next) = init_step(rt, call, event);
            let own = call.thread is Some && (call.thread->0).device == call.runner.device && (
            call.thread->0).stage == call.runner.stage;
            &&& action is WaitClosed ==> !own && next.phase is Lookup && !after.initializing
            &&& action is OwnRunner ==> own && next.phase is Over
            &&& call.phase is Attach ==> (action is WaitClosed || action is OwnRunner
                <==> rt.attach_spec(call.runner) is Closing)
            &&& action is WaitForShutdown <==> call.phase is Permit && rt.barrier.shutting_down
                && call.thread is None
            &&& action is WaitForChannels <==> call.phase is Lookup && rt.initializing
        }),
{
}

/// Whatever ends the call of a thread that passed the barrier takes it off the barrier, and lets
/// others look for services; what does not end it keeps it on.
pub proof fn law_end_of_a_call_leaves_the_barrier(
    rt: RuntimeView,
    call: Initialization,
    event: InitEvent,
)
    requires
        rt.has_room(),
        call.fits(rt),
    ensures
        ({
            let (after, next) = init_step(rt, call, event);
            let count = after.barrier.active_initializers - rt.barrier.active_initializers;
            &&& count == (if next.has_permit() {
                1int
            } else {
                0int
            }) - (if call.has_permit() {
                1int
            } else {
                0int
            })
            &&& call.locks() && next.phase is Over ==> !after.initializing
            &&& next.locks() ==> after.initializing
            &&& after.barrier.shutting_down == rt.barrier.shutting_down
            &&& next.runner == call.runner
            &&& next.service == call.service
            &&& next.given == call.given
            &&& next.thread == call.thread
        }),
{
}

} // verus!
