//! What holds of a shutdown as a whole, from its first step to its last, whatever other threads do
//! to the runtime between its steps.

use crate::generation::RuntimeGeneration;
use crate::ids::{DeviceId, DeviceServiceStage};
use crate::initialization::{init_step, InitEvent, Initialization};
use crate::registry::{
    channel_code_runner, forget_channels, forget_runners, held, law_runner_code, lists_channels,
    lists_runners, pin_all, runner_code, runner_code_device, runner_code_stage, runner_generations,
    RuntimeView,
};
use crate::registry_laws::{
    law_every_channel_is_forgotten, law_every_runner_is_closed, progress, stage_progress,
};
use crate::services_shutdown::{
    distinct, shutdown_step, ShutdownAction, ShutdownEvent, ShutdownPhase, ShutdownView,
};
use vstd::prelude::*;

verus! {

/// A generation is closed, or nobody refers to it any more.
pub open spec fn is_gone(rt: RuntimeView, id: u64) -> bool {
    rt.generations[id].status is Closed || !rt.is_held(id)
}

/// What other threads may have done to the runtime meanwhile.
///
/// Numbers are given out once. A generation stays known, and one that is gone stays so. A
/// registered runner stays registered, unless its generation is gone; then another may take its
/// place. A service may be forgotten, and another may be registered in its place.
pub open spec fn others_step(rt: RuntimeView, rt2: RuntimeView) -> bool {
    &&& rt.counters.next_id <= rt2.counters.next_id
    &&& rt.next_state <= rt2.next_state
    &&& forall|id: u64| #[trigger]
        rt.generations.contains_key(id) ==> {
            &&& rt2.generations.contains_key(id)
            &&& is_gone(rt, id) ==> is_gone(rt2, id)
        }
    &&& forall|k: u128| #[trigger]
        rt.runners.contains_key(k) ==> (rt2.runners.contains_key(k) && rt2.runners[k]
            == rt.runners[k]) || is_gone(rt2, rt.runners[k])
    &&& forall|k: u128| #[trigger]
        rt2.runners.contains_key(k) ==> (rt.runners.contains_key(k) && rt.runners[k]
            == rt2.runners[k]) || rt2.runners[k] >= rt.counters.next_id
    &&& forall|k: u128| #[trigger]
        rt2.channels.contains_key(k) ==> (rt.channels.contains_key(k) && rt.channels[k]
            == rt2.channels[k]) || rt2.channels[k] >= rt.next_state
}

/// What other threads do one after the other is what they may have done meanwhile.
pub proof fn law_others_compose(a: RuntimeView, b: RuntimeView, c: RuntimeView)
    requires
        a.wf(),
        others_step(a, b),
        others_step(b, c),
    ensures
        others_step(a, a),
        others_step(a, c),
{
    assert forall|k: u128| #[trigger] a.runners.contains_key(k) implies (c.runners.contains_key(k)
        && c.runners[k] == a.runners[k]) || is_gone(c, a.runners[k]) by {
        assert(a.generations.contains_key(a.runners[k]));
        assert(b.generations.contains_key(a.runners[k]));
    }
}

/// A strong registry holds a lease on the generation of each registered runner.
pub open spec fn registry_holds_leases(rt: RuntimeView) -> bool {
    rt.strong ==> forall|k: u128| #[trigger]
        rt.runners.contains_key(k) ==> rt.generations[rt.runners[k]].external_count > 0
}

/// A thread that looks for a service or initializes it does what other threads may.
pub proof fn law_others_initialize(rt: RuntimeView, call: Initialization, event: InitEvent)
    requires
        rt.wf(),
        rt.has_room(),
        call.fits(rt),
        registry_holds_leases(rt),
    ensures
        others_step(rt, init_step(rt, call, event).0),
{
    let rt2 = init_step(rt, call, event).0;
    let key = runner_code(call.runner);
    assert forall|id: u64| #[trigger] rt.generations.contains_key(id) implies
        rt2.generations.contains_key(id) && (is_gone(rt, id) ==> is_gone(rt2, id)) by {
        assert(id < rt.counters.next_id);
        if rt.runners.contains_key(key) && rt.runners[key] == id {
            assert(rt.strong ==> rt.generations[id].external_count > 0);
        }
    }
    assert forall|k: u128| #[trigger] rt.runners.contains_key(k) implies (rt2.runners.contains_key(
        k,
    ) && rt2.runners[k] == rt.runners[k]) || is_gone(rt2, rt.runners[k]) by {
        assert(rt.generations.contains_key(rt.runners[k]));
    }
}

/// A change to a generation that somebody refers to is what other threads may do, unless it opens
/// the generation again; so it is with leases, closing and joining.
pub proof fn law_others_change_generation(rt: RuntimeView, g: RuntimeGeneration)
    requires
        rt.wf(),
        rt.generations.contains_key(g.id.0),
        rt.is_held(g.id.0),
        rt.generations[g.id.0].status is Closed ==> g.status is Closed,
    ensures
        others_step(rt, rt.with_generation(g)),
{
    assert forall|k: u128| #[trigger] rt.runners.contains_key(k) implies
        rt.with_generation(g).generations.contains_key(rt.runners[k]) by {
        assert(rt.generations.contains_key(rt.runners[k]));
    }
}

/// One step of a shutdown: the runtime and the shutdown before and after it, what had happened, and
/// what the thread does next.
pub struct Moment {
    /// The runtime before the step.
    pub before: RuntimeView,
    /// The shutdown before the step.
    pub shutdown: ShutdownView,
    /// What happened since the step before.
    pub event: ShutdownEvent,
    /// The runtime after the step.
    pub after: RuntimeView,
    /// The shutdown after the step.
    pub next: ShutdownView,
    /// What the thread does after the step.
    pub action: ShutdownAction,
}

/// The steps of a whole shutdown, of one device or of all: a generation that is to be closed is
/// closed before the next step, and between steps other threads do what they may.
pub open spec fn is_whole_shutdown(device: Option<DeviceId>, moments: Seq<Moment>) -> bool {
    &&& moments.len() > 0
    &&& moments[0].shutdown == ShutdownView::init(device)
    &&& moments.last().next.phase is Over
    &&& forall|n: int| 0 <= n < moments.len() ==> is_moment(#[trigger] moments[n])
    &&& forall|n: int|
        0 <= n < moments.len() - 1 ==> follows(#[trigger] moments[n], moments[n + 1])
}

/// The step is one that a shutdown takes.
pub open spec fn is_moment(m: Moment) -> bool {
    &&& m.before.wf()
    &&& shutdown_step(m.before, m.shutdown, m.event, m.after, m.next, m.action)
}

/// The next step of a shutdown comes after what the thread was to do was done.
pub open spec fn follows(m: Moment, then: Moment) -> bool {
    &&& then.shutdown == m.next
    &&& others_step(m.after, then.before)
    &&& m.action matches ShutdownAction::Close(id) ==> then.before.generations[id.0].status
        is Closed
}

/// The runner with a number is shut down.
pub open spec fn is_selected(device: Option<DeviceId>, k: u128) -> bool {
    device matches Some(device) ==> runner_code_device(k) == device
}

proof fn lemma_pin_all(rt: RuntimeView, keys: Seq<u128>)
    requires
        rt.wf(),
        forall|n: int| 0 <= n < keys.len() ==> rt.runners.contains_key(#[trigger] keys[n]),
    ensures
        ({
            let rt2 = pin_all(rt, keys).0;
            &&& rt2.runners == rt.runners
            &&& rt2.channels == rt.channels
            &&& rt2.counters == rt.counters
            &&& rt2.next_state == rt.next_state
            &&& forall|id: u64| #[trigger]
                rt.generations.contains_key(id) <==> rt2.generations.contains_key(id)
            &&& forall|id: u64| #[trigger]
                rt2.generations.contains_key(id) ==> {
                    &&& rt2.generations[id].id.0 == id
                    &&& is_gone(rt, id) ==> is_gone(rt2, id)
                }
        }),
    decreases keys.len(),
{
    if keys.len() > 0 {
        let rest = keys.drop_last();
        assert forall|n: int| 0 <= n < rest.len() implies rt.runners.contains_key(
            #[trigger] rest[n],
        ) by {
            assert(rest[n] == keys[n]);
        }
        lemma_pin_all(rt, rest);
        let last = keys[keys.len() - 1];
        assert(rt.runners.contains_key(last));
        let before = pin_all(rt, rest).0;
        let id = before.runners[last];
        assert(rt.generations.contains_key(id));
        assert(before.generations.contains_key(id));
    }
}

proof fn lemma_forget_channels_keeps(rt: RuntimeView, keys: Seq<u128>)
    ensures
        ({
            let rt2 = forget_channels(rt, keys).0;
            &&& rt2.runners == rt.runners
            &&& rt2.generations == rt.generations
            &&& rt2.counters == rt.counters
            &&& rt2.next_state == rt.next_state
            &&& forall|k: u128| #[trigger]
                rt2.channels.contains_key(k) ==> rt.channels.contains_key(k) && rt.channels[k]
                    == rt2.channels[k]
            &&& forall|k: u128| #[trigger]
                rt.channels.contains_key(k) && !keys.contains(k) ==> rt2.channels.contains_key(k)
        }),
    decreases keys.len(),
{
    if keys.len() > 0 {
        let rest = keys.drop_last();
        lemma_forget_channels_keeps(rt, rest);
        assert forall|k: u128| #[trigger]
            rt.channels.contains_key(k) && !keys.contains(k) implies forget_channels(
            rt,
            keys,
        ).0.channels.contains_key(k) by {
            assert(keys[keys.len() - 1] == keys.last());
            if rest.contains(k) {
                let n = choose|n: int| 0 <= n < rest.len() && rest[n] == k;
                assert(keys[n] == k);
            }
        }
    }
}

proof fn lemma_forget_runners_keeps(rt: RuntimeView, keys: Seq<u128>)
    ensures
        ({
            let rt2 = forget_runners(rt, keys);
            &&& rt2 == (RuntimeView { runners: rt2.runners, ..rt })
            &&& forall|k: u128| #[trigger]
                rt2.runners.contains_key(k) ==> rt.runners.contains_key(k) && rt.runners[k]
                    == rt2.runners[k]
            &&& forall|k: u128| #[trigger]
                rt.runners.contains_key(k) && !keys.contains(k) ==> rt2.runners.contains_key(k)
        }),
    decreases keys.len(),
{
    if keys.len() > 0 {
        let rest = keys.drop_last();
        lemma_forget_runners_keeps(rt, rest);
        assert forall|k: u128| #[trigger]
            rt.runners.contains_key(k) && !keys.contains(k) implies forget_runners(
            rt,
            keys,
        ).runners.contains_key(k) by {
            assert(keys[keys.len() - 1] == keys.last());
            if rest.contains(k) {
                let n = choose|n: int| 0 <= n < rest.len() && rest[n] == k;
                assert(keys[n] == k);
            }
        }
    }
}

/// What one step of a shutdown does to the registries and generations: it takes nothing out but
/// what it is about, and changes nothing else of them.
proof fn lemma_moment(m: Moment)
    requires
        is_moment(m),
    ensures
        ({
            let (rt, rt2, sd) = (m.before, m.after, m.shutdown);
            &&& m.next.device == sd.device
            &&& rt2.counters == rt.counters
            &&& rt2.next_state == rt.next_state
            &&& forall|id: u64| #[trigger]
                rt.generations.contains_key(id) ==> {
                    &&& rt2.generations.contains_key(id)
                    &&& is_gone(rt, id) ==> is_gone(rt2, id)
                }
            &&& forall|k: u128| #[trigger]
                rt2.runners.contains_key(k) ==> rt.runners.contains_key(k) && rt.runners[k]
                    == rt2.runners[k]
            &&& forall|k: u128| #[trigger]
                rt2.channels.contains_key(k) ==> rt.channels.contains_key(k) && rt.channels[k]
                    == rt2.channels[k]
            &&& forall|k: u128| #[trigger]
                rt.runners.contains_key(k) && !(sd.phase matches ShutdownPhase::Runners(stage)
                    && sd.selection(stage).has_runner(k)) ==> rt2.runners.contains_key(k)
            &&& forall|k: u128| #[trigger]
                rt.channels.contains_key(k) && !(sd.phase matches ShutdownPhase::Channels(stage)
                    && sd.selection(stage).has_channel(k)) ==> rt2.channels.contains_key(k)
        }),
{
    let (rt, rt2, sd, sd2) = (m.before, m.after, m.shutdown, m.next);
    match sd.phase {
        ShutdownPhase::Pin => {
            if rt.barrier.active_initializers == 0 {
                let keys = choose|keys: Seq<u128>| #[trigger]
                    lists_runners(
                        keys,
                        rt.runners,
                        sd.selection(DeviceServiceStage::Downstream),
                    ) && (rt2, sd2.pins) == pin_all(rt, keys);
                assert forall|n: int| 0 <= n < keys.len() implies rt.runners.contains_key(
                    #[trigger] keys[n],
                ) by {
                    assert(keys.contains(keys[n]));
                }
                lemma_pin_all(rt, keys);
            }
        },
        ShutdownPhase::Channels(stage) => {
            if !rt.initializing {
                let keys = choose|keys: Seq<u128>| #[trigger]
                    lists_channels(keys, rt.channels, sd.selection(stage)) && (rt2, sd2.freed)
                        == forget_channels(rt, keys);
                lemma_forget_channels_keeps(rt, keys);
                assert forall|k: u128| #[trigger]
                    rt.channels.contains_key(k) && !sd.selection(stage).has_channel(
                        k,
                    ) implies rt2.channels.contains_key(k) by {
                    assert(!keys.contains(k));
                }
            }
        },
        ShutdownPhase::Runners(stage) => {
            let keys = choose|keys: Seq<u128>| #[trigger]
                lists_runners(keys, rt.runners, sd.selection(stage)) && rt2 == forget_runners(
                    rt,
                    keys,
                ) && sd2.closers == distinct(held(rt, runner_generations(rt, keys)));
            lemma_forget_runners_keeps(rt, keys);
            assert forall|k: u128| #[trigger]
                rt.runners.contains_key(k) && !sd.selection(stage).has_runner(
                    k,
                ) implies rt2.runners.contains_key(k) by {
                assert(!keys.contains(k));
            }
        },
        _ => {},
    }
}

/// A step of a shutdown leaves alone what is not of its device: it forgets no other runner and no
/// other service.
pub proof fn law_others_are_left_alone(device: Option<DeviceId>, m: Moment, k: u128)
    requires
        is_moment(m),
        m.shutdown.device == device,
    ensures
        m.next.device == device,
        m.before.runners.contains_key(k) && !is_selected(device, k) ==> {
            &&& m.after.runners.contains_key(k)
            &&& m.after.runners[k] == m.before.runners[k]
        },
        m.before.channels.contains_key(k) && !is_selected(device, channel_code_runner(k))
            ==> m.after.channels.contains_key(k) && m.after.channels[k] == m.before.channels[k],
{
    lemma_moment(m);
}

/// The generation of a runner that was registered when the shutdown began: it is gone, or still to
/// be found, or to be closed.
spec fn runner_inv(m: Moment, k: u128, id: u64) -> bool {
    let stage = runner_code_stage(k);
    let sd = m.shutdown;
    &&& m.before.generations.contains_key(id)
    &&& id < m.before.counters.next_id
    &&& progress(sd.phase) > stage_progress(stage) + 3 ==> !(m.before.runners.contains_key(k)
        && m.before.runners[k] == id)
    &&& is_gone(m.before, id) || (if progress(sd.phase) <= stage_progress(stage) + 3 {
        m.before.runners.contains_key(k) && m.before.runners[k] == id
    } else {
        &&& sd.phase == ShutdownPhase::DropRunners(stage) || sd.phase == ShutdownPhase::Close(stage)
            || sd.phase == ShutdownPhase::Closing(stage)
        &&& sd.closers.contains(id)
    })
}

proof fn lemma_runner_inv(m: Moment, then: Moment, k: u128, id: u64)
    requires
        is_moment(m),
        is_moment(then),
        follows(m, then),
        is_selected(m.shutdown.device, k),
        runner_inv(m, k, id),
    ensures
        runner_inv(then, k, id),
{
    lemma_moment(m);
    let stage = runner_code_stage(k);
    let (rt, rt2, sd, sd2) = (m.before, m.after, m.shutdown, m.next);
    assert(rt2.generations.contains_key(id));
    match sd.phase {
        ShutdownPhase::Runners(other) => {
            law_every_runner_is_closed(rt, sd, m.event, rt2, sd2, m.action, other);
            if other == stage {
                assert(sd.selection(stage).has_runner(k));
                assert(!rt2.runners.contains_key(k));
                if !is_gone(rt, id) {
                    assert(sd2.closers.contains(id));
                    assert(rt2.generations == rt.generations) by {
                        let keys = choose|keys: Seq<u128>| #[trigger]
                            lists_runners(keys, rt.runners, sd.selection(stage)) && rt2
                                == forget_runners(rt, keys) && sd2.closers == distinct(
                                held(rt, runner_generations(rt, keys)),
                            );
                        lemma_forget_runners_keeps(rt, keys);
                    }
                }
            }
        },
        ShutdownPhase::Close(other) => {
            if sd.closers.len() > 0 && sd.closers.contains(id) && id != sd.closers.last() {
                let n = choose|n: int| 0 <= n < sd.closers.len() && sd.closers[n] == id;
                assert(sd2.closers[n] == id);
            }
        },
        _ => {},
    }
    if rt.runners.contains_key(k) && rt.runners[k] == id {
        assert(rt2.runners.contains_key(k) || sd.phase == ShutdownPhase::Runners(stage));
    }
    if then.before.runners.contains_key(k) && then.before.runners[k] == id {
        assert(rt2.runners.contains_key(k) && rt2.runners[k] == id);
    }
}

/// A service that was registered when the shutdown began is registered until its stage comes, at
/// most.
spec fn channel_inv(m: Moment, k: u128, state: u64) -> bool {
    let stage = runner_code_stage(channel_code_runner(k));
    &&& state < m.before.next_state
    &&& progress(m.shutdown.phase) > stage_progress(stage) + 1 ==> !(m.before.channels.contains_key(
        k,
    ) && m.before.channels[k] == state)
}

proof fn lemma_channel_inv(m: Moment, then: Moment, k: u128, state: u64)
    requires
        is_moment(m),
        is_moment(then),
        follows(m, then),
        is_selected(m.shutdown.device, channel_code_runner(k)),
        channel_inv(m, k, state),
    ensures
        channel_inv(then, k, state),
{
    lemma_moment(m);
    let stage = runner_code_stage(channel_code_runner(k));
    let (rt, rt2, sd, sd2) = (m.before, m.after, m.shutdown, m.next);
    if sd.phase == ShutdownPhase::Channels(stage) && !rt.initializing {
        law_every_channel_is_forgotten(rt, sd, m.event, rt2, sd2, m.action, stage);
        assert(!rt2.channels.contains_key(k));
    }
    if then.before.channels.contains_key(k) && then.before.channels[k] == state {
        assert(rt2.channels.contains_key(k) && rt2.channels[k] == state);
    }
}

proof fn lemma_at(device: Option<DeviceId>, moments: Seq<Moment>, n: int, k: u128, id: u64, c: u128)
    requires
        is_whole_shutdown(device, moments),
        0 <= n < moments.len(),
    ensures
        moments[n].shutdown.device == device,
        is_selected(device, k) && moments[0].before.runners.contains_key(k)
            && moments[0].before.runners[k] == id ==> runner_inv(moments[n], k, id),
        is_selected(device, channel_code_runner(c)) && moments[0].before.channels.contains_key(c)
            ==> channel_inv(moments[n], c, moments[0].before.channels[c]),
    decreases n,
{
    let first = moments[0].before;
    assert(is_moment(moments[n]));
    if n == 0 {
        assert(first.wf());
        if first.runners.contains_key(k) {
            assert(first.generations.contains_key(first.runners[k]));
        }
    } else {
        lemma_at(device, moments, n - 1, k, id, c);
        let m = moments[n - 1];
        let then = moments[n - 1 + 1];
        assert(is_moment(m));
        assert(follows(m, then));
        lemma_moment(m);
        if is_selected(device, k) && first.runners.contains_key(k) && first.runners[k] == id {
            lemma_runner_inv(m, then, k, id);
        }
        if is_selected(device, channel_code_runner(c)) && first.channels.contains_key(c) {
            lemma_channel_inv(m, then, c, first.channels[c]);
        }
    }
}

/// A whole shutdown, of a device or of all: whatever other threads do meanwhile, when it is over
/// every runner that was registered when it began is registered no more, in that generation, which
/// is closed unless nobody referred to it any more, and every service that was registered is
/// registered no more. This is so of both stages, and of whichever services there were.
pub proof fn law_whole_shutdown(
    device: Option<DeviceId>,
    moments: Seq<Moment>,
    runner: u128,
    service: u128,
)
    requires
        is_whole_shutdown(device, moments),
    ensures
        ({
            let first = moments[0].before;
            let end = moments.last().after;
            &&& first.runners.contains_key(runner) && is_selected(device, runner) ==> {
                &&& is_gone(end, first.runners[runner])
                &&& !(end.runners.contains_key(runner) && end.runners[runner]
                    == first.runners[runner])
            }
            &&& first.channels.contains_key(service) && is_selected(
                device,
                channel_code_runner(service),
            ) ==> !(end.channels.contains_key(service) && end.channels[service]
                == first.channels[service])
        }),
{
    let first = moments[0].before;
    let n = moments.len() - 1;
    let m = moments[n];
    assert(is_moment(m));
    lemma_at(device, moments, n, runner, first.runners[runner], service);
    lemma_moment(m);
    assert(m.shutdown.phase is Unpin || m.shutdown.phase is Over);
    if first.runners.contains_key(runner) && is_selected(device, runner) {
        assert(m.before.generations.contains_key(first.runners[runner]));
    }
}

proof fn lemma_closers(m: Moment)
    requires
        is_moment(m),
    ensures
        !(m.shutdown.phase is Runners) ==> forall|id: u64| #[trigger]
            m.next.closers.contains(id) ==> m.shutdown.closers.contains(id),
        m.action matches ShutdownAction::Close(id) ==> m.shutdown.closers.contains(id.0),
{
    let (closers, rest) = (m.shutdown.closers, m.next.closers);
    if m.shutdown.phase is Close && closers.len() > 0 {
        assert(closers[closers.len() - 1] == closers.last());
        assert forall|id: u64| #[trigger] rest.contains(id) implies closers.contains(id) by {
            let i = choose|i: int| 0 <= i < rest.len() && rest[i] == id;
            assert(closers[i] == id);
        }
    } else if !(m.shutdown.phase is Runners) {
        assert(rest == closers);
    }
}

proof fn lemma_found(device: Option<DeviceId>, moments: Seq<Moment>, n: int, id: u64)
    requires
        0 <= n < moments.len(),
        is_moment(moments[n]),
        moments[n].shutdown.device == device,
        moments[n].shutdown.phase is Runners,
        moments[n].next.closers.contains(id),
    ensures
        was_found(device, moments, id),
{
    let m = moments[n];
    let stage = m.shutdown.phase->Runners_0;
    law_every_runner_is_closed(
        m.before,
        m.shutdown,
        m.event,
        m.after,
        m.next,
        m.action,
        stage,
    );
    let k = choose|k: u128| #[trigger]
        m.before.runners.contains_key(k) && m.shutdown.selection(stage).has_runner(k)
            && m.before.runners[k] == id;
    assert(m.before.generations.contains_key(id));
    law_runner_code(m.before.generations[id].runner_id, m.before.generations[id].runner_id);
    assert(found_at(device, moments, n, k, id));
}

/// A shutdown closes a generation only if it is that of a runner that it found registered, of its
/// device.
pub proof fn law_only_selected_are_closed(
    device: Option<DeviceId>,
    moments: Seq<Moment>,
    n: int,
)
    requires
        is_whole_shutdown(device, moments),
        0 <= n < moments.len(),
    ensures
        forall|id: u64| #[trigger]
            moments[n].shutdown.closers.contains(id) ==> was_found(device, moments, id),
        moments[n].action matches ShutdownAction::Close(id) ==> was_found(device, moments, id.0),
    decreases n,
{
    let m = moments[n];
    assert(is_moment(m));
    lemma_closers(m);
    if n == 0 {
        assert(m.shutdown.closers =~= Seq::<u64>::empty());
    } else {
        let before = moments[n - 1];
        assert(is_moment(before));
        assert(follows(before, moments[n - 1 + 1]));
        assert(m.shutdown == before.next);
        law_only_selected_are_closed(device, moments, n - 1);
        lemma_at(device, moments, n - 1, 0, 0, 0);
        lemma_closers(before);
        assert forall|id: u64| #[trigger]
            m.shutdown.closers.contains(id) implies was_found(device, moments, id) by {
            if before.shutdown.phase is Runners {
                lemma_found(device, moments, n - 1, id);
            }
        }
    }
}

/// A generation was that of a registered runner of the device at some step.
pub open spec fn was_found(device: Option<DeviceId>, moments: Seq<Moment>, id: u64) -> bool {
    exists|n: int, k: u128| #[trigger] found_at(device, moments, n, k, id)
}

/// A generation was that of a registered runner of the device at one step.
pub open spec fn found_at(
    device: Option<DeviceId>,
    moments: Seq<Moment>,
    n: int,
    k: u128,
    id: u64,
) -> bool {
    &&& 0 <= n < moments.len()
    &&& is_selected(device, k)
    &&& moments[n].before.runners.contains_key(k)
    &&& moments[n].before.runners[k] == id
    &&& is_selected(device, runner_code(moments[n].before.generations[id].runner_id))
    &&& device matches Some(device) ==> moments[n].before.generations[id].runner_id.device
        == device
}

} // verus!
