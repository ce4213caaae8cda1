//! What a caller that waits for its task can rely on, from the queue of the runner to the service
//! that the task acts on.

use crate::channel_laws::{
    call_fits, call_steps, closer_steps, inv, is_run, law_inv_run, law_runs_at_most_once, next,
    server_fits, server_steps, System,
};
use crate::device_handle::call_outcome;
use crate::errors::CallError;
use crate::ids::StreamId;
use crate::service_states::StatesView;
use crate::service_task::{
    casts_of, has_returned, history, law_cast_is_applied_once, untouched, TaskContext, TaskEvent,
};
use vstd::prelude::*;

verus! {

/// What a caller that queued a task and waits for it has got, if anything: a refusal of the
/// channel, or what came of running the task. `result` is what the task returned, unless it
/// panicked.
pub open spec fn reply<R>(s: System, i: int, result: Option<R>) -> Option<Result<R, CallError>> {
    if s.calls[i].phase is Rejected {
        Some(call_outcome(false, result))
    } else if s.executed.contains(i) {
        Some(call_outcome(true, result))
    } else {
        None
    }
}

/// What a task that was run step by step came to.
pub open spec fn result_of<R>(
    context: TaskContext,
    states: StatesView,
    stream: StreamId,
    events: Seq<TaskEvent>,
    value: R,
) -> Option<R> {
    if has_returned(untouched(context, states, stream), events) {
        Some(value)
    } else {
        None
    }
}

/// A blocking call: the caller gets a value if and only if the server ran its task, once, and the
/// task, called once, returned that value. Otherwise it gets an error: the channel refused the
/// task, which then never runs and is still with the call, or the task, or its cast, panicked, or
/// the service could not be borrowed. Either way the services and the stream of the thread are as
/// they were, so a later call finds the service.
///
/// The states, stream and events are those of the thread when the server handed the task to it.
pub proof fn law_blocking_call<R>(
    run: Seq<System>,
    n: int,
    i: int,
    context: TaskContext,
    states: StatesView,
    stream: StreamId,
    events: Seq<TaskEvent>,
    value: R,
)
    requires
        is_run(run),
        0 <= n < run.len(),
        0 <= i < run[n].calls.len(),
        run[n].calls[i].kind is Enqueue,
        states.acting < usize::MAX,
        history(untouched(context, states, stream), events).now.run.phase is Over,
    ensures
        ({
            let s = run[n];
            let start = untouched(context, states, stream);
            let h = history(start, events);
            let got = reply(s, i, result_of(context, states, stream, events, value));
            &&& s.executed.no_duplicates()
            &&& got == Some(Ok::<R, CallError>(value)) <==> s.executed.contains(i) && has_returned(
                start,
                events,
            )
            &&& got matches Some(Ok(v)) ==> v == value && h.calls == 1 && h.casts == casts_of(
                context,
            )
            &&& got is None <==> !(s.calls[i].phase is Rejected) && !s.executed.contains(i)
            &&& s.calls[i].phase is Rejected ==> !s.executed.contains(i) && s.calls[i].task == Some(
                i,
            )
            &&& h.calls <= 1
            &&& h.now.states == states
            &&& h.now.stream == stream
        }),
{
    law_runs_at_most_once(run, n);
    law_cast_is_applied_once(context, states, stream, events);
}

proof fn lemma_reply_stays<R>(s: System, t: System, i: int, result: Option<R>)
    requires
        inv(s),
        inv(t),
        next(s, t),
        0 <= i < s.calls.len(),
        s.calls[i].kind is Enqueue,
        reply(s, i, result) is Some,
    ensures
        t.calls.len() == s.calls.len(),
        t.calls[i].kind is Enqueue,
        reply(t, i, result) == reply(s, i, result),
{
    if t == server_steps(s) && server_fits(s) {
        if s.executed.contains(i) {
            let k = choose|k: int| 0 <= k < s.executed.len() && s.executed[k] == i;
            assert(t.executed[k] == i);
        }
    } else if t == closer_steps(s) {
    } else {
        let c = choose|c: int|
            0 <= c < s.calls.len() && call_fits(s, c) && t == #[trigger] call_steps(s, c);
        if !(s.calls[i].phase is Rejected) {
            assert(t.ledger.place.contains_key(i));
        }
    }
}

/// What a caller has got does not change any more.
pub proof fn law_reply_stays<R>(run: Seq<System>, n: int, m: int, i: int, result: Option<R>)
    requires
        is_run(run),
        0 <= n <= m < run.len(),
        0 <= i < run[n].calls.len(),
        run[n].calls[i].kind is Enqueue,
        reply(run[n], i, result) is Some,
    ensures
        i < run[m].calls.len(),
        run[m].calls[i].kind is Enqueue,
        reply(run[m], i, result) == reply(run[n], i, result),
    decreases m - n,
{
    if n < m {
        law_reply_stays(run, n, m - 1, i, result);
        law_inv_run(run, m - 1);
        law_inv_run(run, m);
        assert(next(run[m - 1], run[m - 1 + 1]));
        lemma_reply_stays(run[m - 1], run[m], i, result);
    }
}

} // verus!
