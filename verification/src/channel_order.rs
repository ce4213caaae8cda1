//! In which order the tasks of a channel run, however its threads interleave.

use crate::channel::{CallPhase, ServerPhase, CHANNEL_MAX_TASK};
use crate::channel_laws::{
    call_fits, call_holds, call_steps, closer_steps, has_written, inv, is_run, law_inv_run, next,
    server_fits, server_steps, taken, Place, System,
};
use vstd::prelude::*;

verus! {

/// The call has taken a slot for its task; the task may have run since.
pub open spec fn is_placed(s: System, i: int) -> bool {
    0 <= i < s.calls.len() && (s.calls[i].phase is Write || has_written(s.calls[i]))
}

/// The place in line of the task of a call: those that have run come first, in the order in which
/// they did, then those of the server buffer, then those of the client buffer.
pub open spec fn rank(s: System, i: int) -> int {
    let ran = s.executed.len() as int;
    match s.calls[i].phase {
        CallPhase::Write { index } => ran + CHANNEL_MAX_TASK + index,
        _ => match s.ledger.place[i] {
            Place::Executed => s.executed.index_of(i),
            Place::Slot { buffer, index } => if buffer == s.channel.queue {
                ran + CHANNEL_MAX_TASK + index
            } else {
                ran + index
            },
        },
    }
}

/// The task of one call comes before that of another.
pub open spec fn is_ahead(s: System, i: int, j: int) -> bool {
    is_placed(s, i) && is_placed(s, j) && rank(s, i) < rank(s, j)
}

/// A task that has run has one place in the order.
proof fn lemma_index_of(executed: Seq<int>, i: int)
    requires
        executed.no_duplicates(),
        executed.contains(i),
    ensures
        0 <= executed.index_of(i) < executed.len(),
        executed[executed.index_of(i)] == i,
        forall|n: int| 0 <= n < executed.len() && #[trigger] executed[n] == i ==> n
            == executed.index_of(i),
{
}

/// Where the tasks of a system can stand in line.
proof fn lemma_rank_bounds(s: System, i: int)
    requires
        inv(s),
        is_placed(s, i),
    ensures
        s.calls[i].phase is Write ==> (s.calls[i].phase->Write_index) < taken(s.channel),
        has_written(s.calls[i]) ==> match s.ledger.place[i] {
            Place::Executed => 0 <= rank(s, i) < s.executed.len(),
            Place::Slot { buffer, index } => {
                &&& buffer == s.channel.queue || buffer == 1 - s.channel.queue
                &&& 0 <= index < CHANNEL_MAX_TASK
                &&& s.channel.slots[buffer][index] == Some(i)
                &&& buffer == s.channel.queue ==> index < taken(s.channel)
            },
        },
{
    if s.calls[i].phase is Write {
        let index = s.calls[i].phase->Write_index as int;
        assert(call_holds(s.calls[i].phase, index));
        assert(s.ledger.owner.contains_key(index));
    } else {
        assert(s.ledger.place.contains_key(i));
        match s.ledger.place[i] {
            Place::Executed => {
                lemma_index_of(s.executed, i);
            },
            Place::Slot { buffer, index } => {
                if buffer == s.channel.queue && index >= taken(s.channel) {
                    assert(s.channel.slots[s.channel.queue][index] is None);
                }
            },
        }
    }
}

/// A step of a call leaves the order of the tasks that are in line, and puts a new one at the end.
proof fn lemma_call_keeps_order(s: System, c: int, i: int, j: int)
    requires
        inv(s),
        0 <= c < s.calls.len(),
        call_fits(s, c),
        is_placed(s, i),
        is_ahead(s, i, j) || !is_placed(s, j),
        is_placed(call_steps(s, c), j),
    ensures
        is_ahead(call_steps(s, c), i, j),
{
    let t = call_steps(s, c);
    lemma_rank_bounds(s, i);
    assert(is_placed(t, i));
    if is_placed(s, j) {
        lemma_rank_bounds(s, j);
        assert(rank(t, i) == rank(s, i));
        assert(rank(t, j) == rank(s, j));
    } else {
        assert(c == j);
        assert(s.calls[c].phase is Reserve);
        assert(rank(t, i) == rank(s, i));
    }
}

/// Running a task leaves the order of the tasks.
proof fn lemma_execute_keeps_order(s: System, i: int, j: int)
    requires
        inv(s),
        inv(server_steps(s)),
        s.server.phase is Execute,
        is_ahead(s, i, j),
    ensures
        is_ahead(server_steps(s), i, j),
{
    let t = server_steps(s);
    let q = s.channel.queue;
    let k = s.server.phase->Execute_index as int;
    lemma_rank_bounds(s, i);
    lemma_rank_bounds(s, j);
    match s.channel.slots[1 - q][k] {
        None => {
            assert(t.executed == s.executed);
            assert(t.ledger.place == s.ledger.place);
        },
        Some(task) => {
            assert(s.ledger.place.contains_key(task));
            assert(s.ledger.place[task] == (Place::Slot { buffer: 1 - q, index: k }));
            assert(t.executed == s.executed.push(task));
            lemma_execute_rank(s, i);
            lemma_execute_rank(s, j);
        },
    }
}

/// Where a task stands after another one, or it, was run.
proof fn lemma_execute_rank(s: System, i: int)
    requires
        inv(s),
        inv(server_steps(s)),
        s.server.phase is Execute,
        s.channel.slots[1 - s.channel.queue][s.server.phase->Execute_index as int] is Some,
        is_placed(s, i),
    ensures
        ({
            let k = s.server.phase->Execute_index as int;
            let ran = s.executed.len() as int;
            let task = s.channel.slots[1 - s.channel.queue][k]->0;
            let t = server_steps(s);
            &&& is_placed(t, i)
            &&& i == task ==> rank(s, i) == ran + k && rank(t, i) == ran
            &&& i != task && rank(s, i) < ran ==> rank(t, i) == rank(s, i)
            &&& i != task && rank(s, i) >= ran ==> rank(t, i) == rank(s, i) + 1
            &&& i != task && rank(s, i) >= ran ==> rank(s, i) > ran + k
        }),
{
    let t = server_steps(s);
    let q = s.channel.queue;
    let k = s.server.phase->Execute_index as int;
    let task = s.channel.slots[1 - q][k]->0;
    lemma_rank_bounds(s, i);
    lemma_rank_bounds(t, i);
    assert(s.ledger.place.contains_key(task));
    assert(s.ledger.place[task] == (Place::Slot { buffer: 1 - q, index: k }));
    assert(t.executed == s.executed.push(task));
    assert(t.executed[s.executed.len() as int] == task);
    assert(t.executed.contains(task));
    lemma_index_of(t.executed, task);
    if has_written(s.calls[i]) && i != task {
        assert(s.ledger.place.contains_key(i));
        match s.ledger.place[i] {
            Place::Executed => {
                lemma_index_of(s.executed, i);
                let n = s.executed.index_of(i);
                assert(t.executed[n] == i);
                assert(t.executed.contains(i));
                lemma_index_of(t.executed, i);
            },
            Place::Slot { buffer, index } => {
                if buffer != q {
                    assert(s.channel.slots[1 - q][index] == Some(i));
                    assert(index != k);
                    if index < k {
                        assert(s.channel.slots[1 - q][index] is None);
                    }
                }
            },
        }
    }
    if i == task {
        assert(has_written(s.calls[i]));
    }
}

/// Swapping the buffers leaves the order of the tasks: no task is left in the server buffer, and no
/// call is about to write.
proof fn lemma_swap_keeps_order(s: System, i: int, j: int)
    requires
        inv(s),
        s.server.phase is Swap,
        is_ahead(s, i, j),
    ensures
        is_ahead(server_steps(s), i, j),
{
    lemma_swap_rank(s, i);
    lemma_swap_rank(s, j);
}

/// Where a task stands after the buffers were swapped.
proof fn lemma_swap_rank(s: System, i: int)
    requires
        inv(s),
        s.server.phase is Swap,
        is_placed(s, i),
    ensures
        ({
            let ran = s.executed.len() as int;
            let t = server_steps(s);
            &&& is_placed(t, i)
            &&& rank(s, i) < ran ==> rank(t, i) == rank(s, i)
            &&& rank(s, i) >= ran ==> rank(s, i) >= ran + CHANNEL_MAX_TASK && rank(t, i) == rank(
                s,
                i,
            ) - CHANNEL_MAX_TASK
        }),
{
    let q = s.channel.queue;
    lemma_rank_bounds(s, i);
    if s.calls[i].phase is Write {
        let index = s.calls[i].phase->Write_index as int;
        assert(call_holds(s.calls[i].phase, index));
        assert(s.ledger.owner.contains_key(index));
    } else {
        match s.ledger.place[i] {
            Place::Slot { buffer, index } => {
                if buffer != q {
                    assert(s.channel.slots[1 - q][index] is None);
                }
            },
            Place::Executed => {},
        }
    }
}

/// A step of the server leaves the order of the tasks.
proof fn lemma_server_keeps_order(s: System, i: int, j: int)
    requires
        inv(s),
        inv(server_steps(s)),
        is_ahead(s, i, j),
    ensures
        is_ahead(server_steps(s), i, j),
{
    match s.server.phase {
        ServerPhase::Execute { index } => lemma_execute_keeps_order(s, i, j),
        ServerPhase::Swap => lemma_swap_keeps_order(s, i, j),
        _ => {
            lemma_rank_bounds(s, i);
            lemma_rank_bounds(s, j);
        },
    }
}

/// No step takes a task out of line or lets one pass another, and a task that gets in line gets in
/// behind those that are in it.
pub proof fn law_order_is_kept(s: System, t: System, first: int, second: int)
    requires
        inv(s),
        inv(t),
        next(s, t),
        is_placed(s, first),
        is_ahead(s, first, second) || !is_placed(s, second),
    ensures
        is_placed(t, first),
        is_placed(t, second) ==> is_ahead(t, first, second),
{
    if t == server_steps(s) && server_fits(s) {
        if is_placed(s, second) {
            lemma_server_keeps_order(s, first, second);
        }
    } else if t == closer_steps(s) {
    } else {
        let c = choose|c: int|
            0 <= c < s.calls.len() && call_fits(s, c) && t == #[trigger] call_steps(s, c);
        if is_placed(t, second) {
            lemma_call_keeps_order(s, c, first, second);
        }
    }
}

proof fn lemma_stays_ahead(run: Seq<System>, n: int, m: int, first: int, second: int)
    requires
        is_run(run),
        0 <= n <= m < run.len(),
        is_placed(run[n], first),
        !is_placed(run[n], second),
    ensures
        is_placed(run[m], first),
        is_placed(run[m], second) ==> is_ahead(run[m], first, second),
    decreases m - n,
{
    if n < m {
        lemma_stays_ahead(run, n, m - 1, first, second);
        law_inv_run(run, m - 1);
        law_inv_run(run, m);
        let s = run[m - 1];
        let t = run[m - 1 + 1];
        assert(next(s, t));
        law_order_is_kept(s, t, first, second);
    }
}

/// Tasks run in the order in which they were queued: when a call took its slot, or was over, before
/// another call took one, the task of the other runs only once that of the first has.
pub proof fn law_tasks_run_in_order(
    run: Seq<System>,
    n: int,
    m: int,
    first: int,
    second: int,
)
    requires
        is_run(run),
        0 <= n <= m < run.len(),
        is_placed(run[n], first),
        !is_placed(run[n], second),
        run[m].executed.contains(second),
    ensures
        run[m].executed.contains(first),
        run[m].executed.index_of(first) < run[m].executed.index_of(second),
{
    lemma_stays_ahead(run, n, m, first, second);
    law_inv_run(run, m);
    let s = run[m];
    assert(s.ledger.place.contains_key(second));
    assert(has_written(s.calls[second]));
    lemma_index_of(s.executed, second);
    lemma_rank_bounds(s, first);
    lemma_rank_bounds(s, second);
    if has_written(s.calls[first]) {
        assert(s.ledger.place.contains_key(first));
    }
}

/// A buffer that was filled, or flushed, is run: once every slot of it is taken and no call is at
/// work on one, the server finds it full and takes it.
pub proof fn law_full_buffer_is_taken(s: System)
    requires
        inv(s),
        s.channel.available >= CHANNEL_MAX_TASK,
        s.server.phase is LoadCount,
        forall|i: int, k: int|
            0 <= i < s.calls.len() ==> !(#[trigger] call_holds(s.calls[i].phase, k)),
    ensures
        s.channel.enqueued == CHANNEL_MAX_TASK,
        server_steps(s).server.phase is Swap,
{
    let all = vstd::set_lib::set_int_range(0, CHANNEL_MAX_TASK as int);
    vstd::set_lib::lemma_int_range(0, CHANNEL_MAX_TASK as int);
    assert forall|k: int| #[trigger] all.contains(k) implies s.ledger.published.contains(k) by {
        if s.ledger.owner.contains_key(k) {
            let who = s.ledger.owner[k];
            assert(call_holds(s.calls[who].phase, k));
        }
    }
    assert(s.ledger.published =~= all);
}

} // verus!
