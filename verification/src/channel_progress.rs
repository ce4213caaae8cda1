//! What the server of a channel brings about when it is left to run: tasks that were flushed are
//! run, and a channel that was asked to close comes to a stop.

use crate::channel::{server_action, CallPhase, ServerPhase, CHANNEL_MAX_TASK};
use crate::channel_laws::{
    call_fits, call_holds, call_steps, closer_steps, has_written, inv, is_active, is_working,
    law_inv_call, law_inv_server, next, server_fits, server_holds, server_owner, server_steps,
    taken, Place, System,
};
use vstd::prelude::*;

verus! {

/// The system after the server alone took a number of steps.
pub open spec fn server_run(s: System, n: nat) -> System
    decreases n,
{
    if n == 0 {
        s
    } else {
        server_run(server_steps(s), (n - 1) as nat)
    }
}

/// No call has taken a slot that it has not counted yet.
pub open spec fn is_settled(s: System) -> bool {
    forall|i: int, k: int|
        0 <= i < s.calls.len() ==> !(#[trigger] call_holds(s.calls[i].phase, k))
}

/// Where no call is under way, none has taken a slot.
proof fn lemma_settled(s: System)
    requires
        inv(s),
        s.channel.active == 0,
    ensures
        is_settled(s),
{
    assert(s.ledger.active =~= Set::<int>::empty());
    assert forall|i: int, k: int| 0 <= i < s.calls.len() implies !(#[trigger] call_holds(
        s.calls[i].phase,
        k,
    )) by {
        assert(!s.ledger.active.contains(i));
        assert(!is_active(s.calls[i].phase));
    }
}

/// How many slots are counted while no call has taken one that is not.
proof fn lemma_enqueued(s: System)
    requires
        inv(s),
        is_settled(s),
    ensures
        match s.server.phase {
            ServerPhase::Fill { start, index } => s.channel.enqueued == start
                && s.channel.available >= CHANNEL_MAX_TASK,
            ServerPhase::Count { start } => s.channel.enqueued == start && s.channel.available
                >= CHANNEL_MAX_TASK,
            ServerPhase::ResetIndex => s.channel.enqueued == 0,
            _ => s.channel.enqueued == taken(s.channel),
        },
{
    let phase = s.server.phase;
    let end: int = match phase {
        ServerPhase::Fill { start, index } => start as int,
        ServerPhase::Count { start } => start as int,
        ServerPhase::ResetIndex => 0,
        _ => taken(s.channel),
    };
    let counted = vstd::set_lib::set_int_range(0, end);
    vstd::set_lib::lemma_int_range(0, end);
    assert forall|k: int| #[trigger] s.ledger.owner.contains_key(k) implies server_holds(
        phase,
        k,
    ) by {
        let who = s.ledger.owner[k];
        if who != server_owner() {
            assert(call_holds(s.calls[who].phase, k));
        }
    }
    if phase is Fill || phase is Count {
        let last = CHANNEL_MAX_TASK - 1;
        assert(server_holds(phase, last as int));
        assert(s.ledger.owner.contains_key(last as int));
    }
    if !(phase is ResetIndex) {
        assert forall|k: int| #[trigger] counted.contains(k) <==> s.ledger.published.contains(
            k,
        ) by {
            if counted.contains(k) {
                assert(s.ledger.published.contains(k) || s.ledger.owner.contains_key(k));
            }
            if s.ledger.published.contains(k) && (phase is Fill || phase is Count) && k >= end {
                assert(server_holds(phase, k));
                assert(s.ledger.owner.contains_key(k));
            }
        }
        assert(s.ledger.published =~= counted);
    } else {
        assert(s.ledger.published =~= Set::<int>::empty());
    }
}

/// The word of the next index does not wrap around before it is reset.
pub open spec fn has_spare_index(s: System) -> bool {
    ||| s.channel.available + CHANNEL_MAX_TASK <= u32::MAX
    ||| s.server.phase is ResetCount
    ||| s.server.phase is ResetIndex
    ||| (s.server.phase is LoadCount || s.server.phase is Swap || s.server.phase is Top
        && !s.server.ready_to_execute) && s.channel.enqueued == CHANNEL_MAX_TASK
}

/// Bounds how many steps the server takes after it asked how many slots are counted, until it
/// stops.
spec fn stop_after_load(enqueued: u32) -> int {
    if enqueued >= CHANNEL_MAX_TASK {
        41
    } else {
        3 + stop_after_check(enqueued)
    }
}

/// As above, after it found that no call is under way.
spec fn stop_after_check(enqueued: u32) -> int {
    if enqueued == 0 {
        1
    } else {
        1 + stop_after_claim(enqueued)
    }
}

/// As above, when it takes the slots that are left.
spec fn stop_after_claim(enqueued: u32) -> int {
    if enqueued >= CHANNEL_MAX_TASK {
        43
    } else {
        44 + CHANNEL_MAX_TASK - enqueued
    }
}

/// How many steps the server still takes until it stops, once nothing else happens.
spec fn steps_to_stop(s: System) -> int {
    let enqueued = s.channel.enqueued;
    match s.server.phase {
        ServerPhase::Stopped => 0,
        ServerPhase::CheckDrained => stop_after_check(enqueued),
        ServerPhase::CheckActive => 1 + stop_after_check(enqueued),
        ServerPhase::CheckClose => 2 + stop_after_check(enqueued),
        ServerPhase::LoadCount => stop_after_load(enqueued),
        ServerPhase::Execute { index } => CHANNEL_MAX_TASK - index + stop_after_load(enqueued),
        ServerPhase::Top => if s.server.ready_to_execute {
            1 + CHANNEL_MAX_TASK + stop_after_load(enqueued)
        } else {
            1 + stop_after_load(enqueued)
        },
        ServerPhase::Idle => 2 + stop_after_load(enqueued),
        ServerPhase::ResetIndex => 38,
        ServerPhase::ResetCount => 39,
        ServerPhase::Swap => 40,
        ServerPhase::Claim => stop_after_claim(enqueued),
        ServerPhase::Count { start } => 43,
        ServerPhase::Fill { start, index } => 43 + CHANNEL_MAX_TASK - index,
    }
}

/// The channel was asked to close, and no call is under way.
pub open spec fn is_draining(s: System) -> bool {
    s.closer is Requested && s.channel.active == 0
}

proof fn lemma_nearer_to_stop(s: System)
    requires
        inv(s),
        is_draining(s),
        has_spare_index(s),
        !(s.server.phase is Stopped),
    ensures
        server_fits(s),
        inv(server_steps(s)),
        is_draining(server_steps(s)),
        has_spare_index(server_steps(s)),
        0 <= steps_to_stop(server_steps(s)) < steps_to_stop(s),
{
    lemma_settled(s);
    lemma_enqueued(s);
    law_inv_server(s);
}

/// A channel that was asked to close, with no call under way, comes to a stop: the server takes at
/// most as many steps as four buffers have slots. Then every task that the channel accepted has
/// run, once.
pub proof fn law_closed_channel_stops(s: System)
    requires
        inv(s),
        is_draining(s),
        has_spare_index(s),
    ensures
        exists|n: nat|
            n <= 4 * CHANNEL_MAX_TASK && has_stopped(#[trigger] server_run(s, n)),
{
    lemma_stops(s);
    assert(steps_to_stop(s) <= 4 * CHANNEL_MAX_TASK);
}

/// The server has stopped, and every task that the channel accepted has run, once.
pub open spec fn has_stopped(s: System) -> bool {
    &&& inv(s)
    &&& s.server.phase is Stopped
    &&& s.executed.no_duplicates()
    &&& forall|i: int|
        0 <= i < s.calls.len() && (#[trigger] s.calls[i]).kind is Enqueue
            && s.calls[i].phase is Accepted ==> s.executed.contains(i)
}

proof fn lemma_stops(s: System)
    requires
        inv(s),
        is_draining(s),
        has_spare_index(s),
    ensures
        0 <= steps_to_stop(s),
        exists|n: nat| n <= steps_to_stop(s) && has_stopped(#[trigger] server_run(s, n)),
    decreases steps_to_stop(s),
{
    if s.server.phase is Stopped {
        assert(server_run(s, 0) == s);
        lemma_drained(s);
    } else {
        let t = server_steps(s);
        lemma_nearer_to_stop(s);
        lemma_stops(t);
        let n = choose|n: nat| n <= steps_to_stop(t) && has_stopped(#[trigger] server_run(t, n));
        assert(server_run(s, n + 1) == server_run(t, n));
    }
}

/// What is in no slot, and was written, has run.
proof fn lemma_drained(s: System)
    requires
        inv(s),
        s.server.phase is Stopped,
        is_settled(s) || s.channel.active == 0,
    ensures
        has_stopped(s),
{
    if s.channel.active == 0 {
        lemma_settled(s);
    }
    lemma_enqueued(s);
    let q = s.channel.queue;
    assert forall|i: int|
        0 <= i < s.calls.len() && (#[trigger] s.calls[i]).kind is Enqueue
            && s.calls[i].phase is Accepted implies s.executed.contains(i) by {
        assert(has_written(s.calls[i]));
        assert(s.ledger.place.contains_key(i));
        if let Place::Slot { buffer, index } = s.ledger.place[i] {
            if buffer == q {
                assert(s.channel.slots[q][index] is None);
            } else {
                assert(s.channel.slots[1 - q][index] is None);
            }
        }
    }
}

/// A call that begins once the channel was asked to close is refused, and keeps its task; one that
/// had asked before, but was not let in, is refused too.
pub proof fn law_late_calls_are_refused(s: System, i: int)
    requires
        inv(s),
        !(s.closer is Open),
        0 <= i < s.calls.len(),
    ensures
        ({
            let t = call_steps(s, i);
            &&& s.calls[i].phase is Check ==> t.calls[i].phase is Rejected
            &&& s.calls[i].phase is Recheck ==> t.calls[i].phase is Withdraw
            &&& s.calls[i].phase is Withdraw ==> t.calls[i].phase is Rejected
            &&& s.calls[i].phase is Check || s.calls[i].phase is Recheck
                || s.calls[i].phase is Withdraw ==> t.calls[i].task == s.calls[i].task
        }),
{
}

/// Once the server has stopped, every task that the channel accepted has run, once.
pub proof fn law_stopped_is_drained(s: System)
    requires
        inv(s),
        s.server.phase is Stopped,
    ensures
        has_stopped(s),
{
    assert forall|i: int, k: int| 0 <= i < s.calls.len() implies !(#[trigger] call_holds(
        s.calls[i].phase,
        k,
    )) by {
        assert(!is_working(s.calls[i].phase));
    }
    lemma_drained(s);
}

/// When the server tells its thread to leave the loop, every task that the channel accepted has
/// run, once, and it hands out no task any more: what the thread does after the loop it does after
/// all of them.
pub proof fn law_stop_comes_last(s: System)
    requires
        inv(s),
        server_action(s.channel, s.server) is Stop,
    ensures
        has_stopped(server_steps(s)),
        server_steps(s).executed == s.executed,
        server_action(server_steps(s).channel, server_steps(s).server) is Stop,
{
    law_inv_server(s);
    law_stopped_is_drained(server_steps(s));
}

/// The task of a call has run, or the server is sure to find it: it is in the server buffer, or in
/// a client buffer of which no slot is left.
pub open spec fn is_flushed(s: System, i: int) -> bool {
    &&& 0 <= i < s.calls.len()
    &&& has_written(s.calls[i])
    &&& match s.ledger.place[i] {
        Place::Executed => true,
        Place::Slot { buffer, index } => buffer != s.channel.queue || s.channel.available
            >= CHANNEL_MAX_TASK,
    }
}

/// A flush makes the server find every task that was written before.
pub proof fn law_flush_reaches_tasks(s: System, flush: int, i: int)
    requires
        inv(s),
        0 <= flush < s.calls.len(),
        s.calls[flush].phase is Claim,
        call_fits(s, flush),
        0 <= i < s.calls.len(),
        has_written(s.calls[i]),
    ensures
        is_flushed(call_steps(s, flush), i),
{
    assert(s.ledger.place.contains_key(i));
}

/// A task that the server is sure to find stays so, until it has run.
pub proof fn law_flushed_stays(s: System, t: System, i: int)
    requires
        inv(s),
        inv(t),
        next(s, t),
        is_flushed(s, i),
    ensures
        is_flushed(t, i),
{
    assert(s.ledger.place.contains_key(i));
    assert(t.calls.len() == s.calls.len());
    let q = s.channel.queue;
    if t == server_steps(s) && server_fits(s) {
        assert(t.ledger.place.contains_key(i));
        match s.ledger.place[i] {
            Place::Slot { buffer, index } => {
                assert(s.channel.slots[buffer][index] == Some(i));
                if s.server.phase is Swap && buffer != q {
                    assert(buffer == 1 - q);
                    assert(s.channel.slots[1 - q][index] is None);
                }
                if s.server.phase is ResetIndex && buffer == q {
                    assert(s.channel.slots[q][index] is None);
                }
            },
            Place::Executed => {},
        }
    } else if t == closer_steps(s) {
    } else {
        let c = choose|c: int|
            0 <= c < s.calls.len() && call_fits(s, c) && t == #[trigger] call_steps(s, c);
        if s.calls[c].phase is Write {
            assert(c != i);
        }
        assert(t.ledger.place[i] == s.ledger.place[i]);
    }
}

/// How many steps the server still takes until it runs a task that it is sure to find.
spec fn steps_to_run(s: System, i: int) -> int {
    match s.ledger.place[i] {
        Place::Executed => 0,
        Place::Slot { buffer, index: slot } => if buffer != s.channel.queue {
            match s.server.phase {
                ServerPhase::Execute { index } => slot - index + 1,
                ServerPhase::Top => slot + 2,
                ServerPhase::ResetIndex => slot + 3,
                _ => slot + 4,
            }
        } else {
            match s.server.phase {
                ServerPhase::Swap => slot + 5,
                ServerPhase::LoadCount => slot + 6,
                ServerPhase::Execute { index } => slot + 6 + CHANNEL_MAX_TASK - index,
                ServerPhase::Top => if s.server.ready_to_execute {
                    slot + 7 + CHANNEL_MAX_TASK
                } else {
                    slot + 7
                },
                ServerPhase::Fill { start, index } => slot + 8 + CHANNEL_MAX_TASK - index,
                ServerPhase::CheckDrained => slot + 9,
                ServerPhase::CheckActive => slot + 10,
                ServerPhase::CheckClose => slot + 11,
                _ => slot + 8,
            }
        },
    }
}

proof fn lemma_nearer_to_run(s: System, i: int)
    requires
        inv(s),
        is_settled(s),
        has_spare_index(s),
        is_flushed(s, i),
        !s.executed.contains(i),
    ensures
        server_fits(s),
        inv(server_steps(s)),
        is_settled(server_steps(s)),
        has_spare_index(server_steps(s)),
        is_flushed(server_steps(s), i),
        0 <= steps_to_run(server_steps(s), i) < steps_to_run(s, i),
{
    let t = server_steps(s);
    let q = s.channel.queue;
    lemma_enqueued(s);
    law_inv_server(s);
    assert(next(s, t));
    law_flushed_stays(s, t, i);
    assert(s.ledger.place.contains_key(i));
    assert(t.ledger.place.contains_key(i));
    let buffer = s.ledger.place[i]->Slot_buffer;
    let slot = s.ledger.place[i]->Slot_index;
    assert(s.channel.slots[buffer][slot] == Some(i));
    if buffer != q {
        assert(buffer == 1 - q);
        assert(s.channel.slots[1 - q][slot] is Some);
        assert(s.server.ready_to_execute);
        if s.server.phase is Execute {
            assert(slot >= s.server.phase->Execute_index);
        }
    } else {
        if s.server.phase is ResetCount || s.server.phase is ResetIndex {
            assert(s.channel.slots[q][slot] is None);
        }
    }
}

/// A task that was flushed is run: while no call has taken a slot that it has not counted yet, the
/// server takes at most as many steps as four buffers have slots until it has run the task, once.
pub proof fn law_flushed_task_runs(s: System, i: int)
    requires
        inv(s),
        is_settled(s),
        has_spare_index(s),
        is_flushed(s, i),
    ensures
        exists|n: nat|
            n <= 4 * CHANNEL_MAX_TASK && has_run(#[trigger] server_run(s, n), i),
{
    assert(s.ledger.place.contains_key(i));
    lemma_runs(s, i);
}

/// A task has run, once.
pub open spec fn has_run(s: System, i: int) -> bool {
    inv(s) && s.executed.contains(i) && s.executed.no_duplicates()
}

proof fn lemma_runs(s: System, i: int)
    requires
        inv(s),
        is_settled(s),
        has_spare_index(s),
        is_flushed(s, i),
    ensures
        0 <= steps_to_run(s, i) <= 4 * CHANNEL_MAX_TASK,
        exists|n: nat| n <= steps_to_run(s, i) && has_run(#[trigger] server_run(s, n), i),
    decreases steps_to_run(s, i),
{
    assert(s.ledger.place.contains_key(i));
    if s.executed.contains(i) {
        assert(has_run(server_run(s, 0), i));
    } else {
        let t = server_steps(s);
        lemma_nearer_to_run(s, i);
        lemma_runs(t, i);
        let n = choose|n: nat| n <= steps_to_run(t, i) && has_run(#[trigger] server_run(t, n), i);
        assert(server_run(s, n + 1) == server_run(t, n));
    }
}

/// Each system comes from the one before by one step of one thread.
pub open spec fn is_path(path: Seq<System>) -> bool {
    &&& path.len() > 0
    &&& forall|n: int| 0 <= n < path.len() - 1 ==> next(#[trigger] path[n], path[n + 1])
}

/// Some steps of the threads lead from one system to another.
pub open spec fn reaches(s: System, t: System) -> bool {
    exists|path: Seq<System>| #[trigger] is_path(path) && path[0] == s && path.last() == t
}

proof fn lemma_reaches_itself(s: System)
    ensures
        reaches(s, s),
{
    assert(is_path(seq![s]));
}

proof fn lemma_reaches_after(s: System, m: System, t: System)
    requires
        next(s, m),
        reaches(m, t),
    ensures
        reaches(s, t),
{
    assert(is_path(seq![s, m])) by {
        assert(seq![s, m][0] == s);
        assert(seq![s, m][1] == m);
    }
    assert(seq![s, m].last() == m);
    lemma_reaches_trans(s, m, t);
}

proof fn lemma_reaches_trans(s: System, m: System, t: System)
    requires
        reaches(s, m),
        reaches(m, t),
    ensures
        reaches(s, t),
{
    let a = choose|path: Seq<System>| #[trigger] is_path(path) && path[0] == s && path.last() == m;
    let b = choose|path: Seq<System>| #[trigger] is_path(path) && path[0] == m && path.last() == t;
    let path = a + b.skip(1);
    assert forall|n: int| 0 <= n < path.len() - 1 implies next(#[trigger] path[n], path[n + 1]) by {
        if n < a.len() - 1 {
            assert(path[n] == a[n]);
            assert(path[n + 1] == a[n + 1]);
        } else {
            let k = n - (a.len() - 1);
            assert(path[n] == b[k]);
            assert(path[n + 1] == b[k + 1]);
        }
    }
    assert(is_path(path));
    assert(path[0] == s);
    assert(path.last() == b[b.len() - 1]);
}

/// The call is over.
pub open spec fn is_over(phase: CallPhase) -> bool {
    phase is Accepted || phase is Rejected
}

/// The calls that are not over.
pub open spec fn unfinished(s: System) -> Set<int> {
    vstd::set_lib::set_int_range(0, s.calls.len() as int).filter(
        |i: int| !is_over(s.calls[i].phase),
    )
}

/// The words that the threads share do not wrap around, even if every call that is not over takes
/// every slot that is left.
pub open spec fn has_room(s: System) -> bool {
    &&& s.calls.len() <= u32::MAX
    &&& s.channel.available + CHANNEL_MAX_TASK * (unfinished(s).len() + 1) <= u32::MAX
}

/// How many steps a call still takes, once the channel accepts no work and a slot is left.
spec fn steps_to_end(phase: CallPhase) -> int {
    match phase {
        CallPhase::Accepted => 0,
        CallPhase::Rejected => 0,
        CallPhase::Check => 1,
        CallPhase::Announce => 3,
        CallPhase::Recheck => 2,
        CallPhase::Withdraw => 1,
        CallPhase::Reserve => 4,
        CallPhase::Write { index } => 3,
        CallPhase::Publish { index } => 2,
        CallPhase::Claim => 3 + CHANNEL_MAX_TASK,
        CallPhase::Fill { start, index } => 2 + CHANNEL_MAX_TASK - index,
        CallPhase::Count { start } => 2,
        CallPhase::Retire => 1,
    }
}

/// Another system in which one call is over, and the others are where they were.
spec fn ends_call(s: System, t: System, i: int) -> bool {
    &&& inv(t)
    &&& t.closer is Requested
    &&& t.calls.len() == s.calls.len()
    &&& is_over(t.calls[i].phase)
    &&& forall|j: int| 0 <= j < s.calls.len() && j != i ==> #[trigger] t.calls[j] == s.calls[j]
    &&& t.channel.available <= s.channel.available + (if s.calls[i].phase is Claim
        || s.calls[i].phase is Reserve {
        CHANNEL_MAX_TASK as int
    } else {
        0
    })
}

proof fn lemma_call_ends(s: System, i: int)
    requires
        inv(s),
        s.closer is Requested,
        0 <= i < s.calls.len() <= u32::MAX,
        s.channel.available + CHANNEL_MAX_TASK <= u32::MAX,
        s.calls[i].phase is Reserve ==> s.channel.available < CHANNEL_MAX_TASK,
    ensures
        exists|t: System| reaches(s, t) && #[trigger] ends_call(s, t, i),
    decreases steps_to_end(s.calls[i].phase),
{
    assert(s.calls[i].wf());
    if is_over(s.calls[i].phase) {
        lemma_reaches_itself(s);
        assert(ends_call(s, s, i));
    } else {
        let m = call_steps(s, i);
        if s.calls[i].phase is Announce {
            let all = vstd::set_lib::set_int_range(0, s.calls.len() as int);
            vstd::set_lib::lemma_int_range(0, s.calls.len() as int);
            assert(!s.ledger.active.contains(i));
            assert(s.ledger.active.subset_of(all.remove(i))) by {
                assert forall|j: int| s.ledger.active.contains(j) implies all.remove(i).contains(
                    j,
                ) by {}
            }
            vstd::set_lib::lemma_len_subset(s.ledger.active, all.remove(i));
        }
        assert(call_fits(s, i));
        law_inv_call(s, i);
        assert(next(s, m));
        assert(!(m.calls[i].phase is Reserve));
        assert(!(m.calls[i].phase is Claim));
        if s.calls[i].phase is Claim || s.calls[i].phase is Reserve {
            lemma_holding_call_ends(m, i);
        } else {
            lemma_call_ends(m, i);
        }
        let t = choose|t: System| reaches(m, t) && #[trigger] ends_call(m, t, i);
        lemma_reaches_after(s, m, t);
        assert(ends_call(s, t, i));
    }
}

/// As above, of a call that takes no more slots.
proof fn lemma_holding_call_ends(s: System, i: int)
    requires
        inv(s),
        s.closer is Requested,
        0 <= i < s.calls.len(),
        ({
            let phase = s.calls[i].phase;
            phase is Write || phase is Publish || phase is Fill || phase is Count || phase is Retire
                || is_over(phase)
        }),
    ensures
        exists|t: System| reaches(s, t) && #[trigger] ends_call(s, t, i),
    decreases steps_to_end(s.calls[i].phase),
{
    assert(s.calls[i].wf());
    if is_over(s.calls[i].phase) {
        lemma_reaches_itself(s);
        assert(ends_call(s, s, i));
    } else {
        let m = call_steps(s, i);
        law_inv_call(s, i);
        assert(next(s, m));
        lemma_holding_call_ends(m, i);
        let t = choose|t: System| reaches(m, t) && #[trigger] ends_call(m, t, i);
        lemma_reaches_after(s, m, t);
        assert(ends_call(s, t, i));
    }
}

/// How many steps the server still takes until clients find slots again.
spec fn steps_to_reset(s: System) -> int {
    match s.server.phase {
        ServerPhase::ResetIndex => 1,
        ServerPhase::ResetCount => 2,
        ServerPhase::Swap => 3,
        ServerPhase::LoadCount => 4,
        ServerPhase::Execute { index } => 4 + CHANNEL_MAX_TASK - index,
        ServerPhase::Top => if s.server.ready_to_execute {
            5 + CHANNEL_MAX_TASK
        } else {
            5
        },
        ServerPhase::Fill { start, index } => 6 + CHANNEL_MAX_TASK - index,
        ServerPhase::CheckDrained => 7,
        ServerPhase::CheckActive => 8,
        ServerPhase::CheckClose => 9,
        _ => 6,
    }
}

/// Another system with the same calls, in which clients find slots again.
spec fn resets_index(s: System, t: System) -> bool {
    inv(t) && t.closer == s.closer && t.calls == s.calls && t.channel.available == 0
}

proof fn lemma_index_is_reset(s: System)
    requires
        inv(s),
        is_settled(s),
        has_spare_index(s),
        s.channel.available >= CHANNEL_MAX_TASK,
    ensures
        exists|t: System| reaches(s, t) && #[trigger] resets_index(s, t),
    decreases steps_to_reset(s),
{
    let m = server_steps(s);
    lemma_enqueued(s);
    law_inv_server(s);
    assert(next(s, m));
    if s.server.phase is ResetIndex {
        lemma_reaches_itself(m);
        lemma_reaches_after(s, m, m);
        assert(resets_index(s, m));
    } else {
        assert(is_settled(m));
        lemma_index_is_reset(m);
        let t = choose|t: System| reaches(m, t) && #[trigger] resets_index(m, t);
        lemma_reaches_after(s, m, t);
        assert(resets_index(s, t));
    }
}

proof fn lemma_stop_is_reached(s: System)
    requires
        inv(s),
        is_draining(s),
        has_spare_index(s),
    ensures
        exists|t: System| reaches(s, t) && #[trigger] has_stopped(t),
    decreases steps_to_stop(s),
{
    if s.server.phase is Stopped {
        lemma_reaches_itself(s);
        lemma_drained(s);
    } else {
        let m = server_steps(s);
        lemma_nearer_to_stop(s);
        lemma_stops(m);
        assert(next(s, m));
        lemma_stop_is_reached(m);
        let t = choose|t: System| reaches(m, t) && #[trigger] has_stopped(t);
        lemma_reaches_after(s, m, t);
    }
}

/// A channel that was asked to close never gets stuck, whatever calls are under way: from every
/// system that its threads can be in, they can take steps to one in which the server has stopped
/// and every task that was accepted has run, once.
pub proof fn law_close_never_gets_stuck(s: System)
    requires
        inv(s),
        s.closer is Requested,
        has_room(s),
    ensures
        exists|t: System| reaches(s, t) && #[trigger] has_stopped(t),
    decreases unfinished(s).len(), 1int,
{
    vstd::set_lib::lemma_int_range(0, s.calls.len() as int);
    assert(unfinished(s).finite());
    if exists|i: int| unfinished(s).contains(i) && !(s.calls[i].phase is Reserve) {
        let i = choose|i: int| unfinished(s).contains(i) && !(s.calls[i].phase is Reserve);
        lemma_stop_after_call(s, i);
    } else if exists|i: int| unfinished(s).contains(i) {
        let i = choose|i: int| unfinished(s).contains(i);
        if s.channel.available < CHANNEL_MAX_TASK {
            lemma_stop_after_call(s, i);
        } else {
            assert forall|j: int, k: int| 0 <= j < s.calls.len() implies !(#[trigger] call_holds(
                s.calls[j].phase,
                k,
            )) by {
                assert(!unfinished(s).contains(j) || s.calls[j].phase is Reserve);
            }
            lemma_index_is_reset(s);
            let m = choose|m: System| reaches(s, m) && #[trigger] resets_index(s, m);
            assert(unfinished(m) =~= unfinished(s));
            lemma_stop_after_call(m, i);
            let t = choose|t: System| reaches(m, t) && #[trigger] has_stopped(t);
            lemma_reaches_trans(s, m, t);
        }
    } else {
        assert forall|j: int| !s.ledger.active.contains(j) by {
            if s.ledger.active.contains(j) {
                assert(unfinished(s).contains(j));
            }
        }
        assert(s.ledger.active =~= Set::<int>::empty());
        lemma_stops(s);
        lemma_stop_is_reached(s);
    }
}

proof fn lemma_stop_after_call(s: System, i: int)
    requires
        inv(s),
        s.closer is Requested,
        has_room(s),
        unfinished(s).contains(i),
        s.calls[i].phase is Reserve ==> s.channel.available < CHANNEL_MAX_TASK,
    ensures
        exists|t: System| reaches(s, t) && #[trigger] has_stopped(t),
    decreases unfinished(s).len(), 0int,
{
    vstd::set_lib::lemma_int_range(0, s.calls.len() as int);
    lemma_call_ends(s, i);
    let m = choose|m: System| reaches(s, m) && #[trigger] ends_call(s, m, i);
    assert(unfinished(m) =~= unfinished(s).remove(i));
    law_close_never_gets_stuck(m);
    let t = choose|t: System| reaches(m, t) && #[trigger] has_stopped(t);
    lemma_reaches_trans(s, m, t);
}

} // verus!
