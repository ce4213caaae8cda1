//! What the threads around a channel do while they wait, and when they are done.

use crate::channel::{Backoff, CallPhase, ClientAction, ServerAction, ServerPhase};
use vstd::prelude::*;

verus! {

use crate::channel::{
    client_action, client_step, one_more, server_action, server_step, CallView, ChannelView,
    ServerView,
};

/// How much of its processor a thread gives away.
pub open spec fn patience(backoff: Backoff) -> int {
    match backoff {
        Backoff::Spin => 0,
        Backoff::Yield => 1,
        Backoff::Sleep => 2,
    }
}

/// A thread spins as long as its budget of spins lasts, then yields as long as its budget of yields
/// lasts, and sleeps from then on; so it never gives away less than before.
pub proof fn law_backoff_grows(earlier: u32, later: u32, spins: int, yields: int)
    requires
        earlier <= later,
        0 <= spins,
        0 <= yields,
    ensures
        Backoff::after_spec(earlier, spins, yields) is Spin <==> earlier < spins,
        Backoff::after_spec(earlier, spins, yields) is Yield <==> spins <= earlier < spins
            + yields,
        Backoff::after_spec(earlier, spins, yields) is Sleep <==> spins + yields <= earlier,
        patience(Backoff::after_spec(earlier, spins, yields)) <= patience(
            Backoff::after_spec(later, spins, yields),
        ),
        one_more(earlier) <= one_more(later),
        earlier < u32::MAX ==> one_more(earlier) == earlier + 1,
        one_more(u32::MAX) == u32::MAX,
{
}

/// A client call waits exactly when it finds the buffer full, and then counts one more try. Its
/// first half million tries spin. It is done exactly when its phase says so, and accepted exactly
/// if it did its work.
pub proof fn law_client_waits_for_a_slot<F>(channel: ChannelView<F>, call: CallView<F>)
    ensures
        ({
            let action = client_action(channel, call);
            let next = client_step(channel, call).1;
            let full = call.phase is Reserve && channel.available >= 32;
            &&& action is Wait <==> full
            &&& full ==> next.idle_count == one_more(call.idle_count) && next.phase is Reserve
                && next.task == call.task
            &&& !full ==> next.idle_count == call.idle_count
            &&& full ==> (action == ClientAction::Wait(Backoff::Spin) <==> call.idle_count
                < 524288)
            &&& full ==> (action == ClientAction::Wait(Backoff::Sleep) <==> call.idle_count
                >= 528384)
            &&& action == ClientAction::Done(true) <==> call.phase is Retire || call.phase
                is Accepted
            &&& action == ClientAction::Done(false) <==> (call.phase is Check
                && !channel.accepting) || call.phase is Withdraw || call.phase is Rejected
            &&& next.kind == call.kind
        }),
{
}

/// A task is written to the slot that its call took and to no other, and leaves the call with that;
/// a flush writes no task. The index that a call takes is the next one.
pub proof fn law_call_writes_its_slot<F>(
    channel: ChannelView<F>,
    call: CallView<F>,
    buffer: int,
    slot: int,
)
    requires
        channel.wf(),
        call.wf(),
        0 <= buffer < 2,
        0 <= slot < 32,
    ensures
        ({
            let (after, next) = client_step(channel, call);
            let written = after.slots[buffer][slot];
            let own = buffer == channel.queue && (call.phase matches CallPhase::Write { index }
                && index == slot);
            let filled = buffer == channel.queue && (call.phase matches CallPhase::Fill {
                start,
                index,
            } && index == slot);
            &&& own ==> written == call.task && next.task is None
            &&& filled ==> written is None
            &&& !own && !filled ==> written == channel.slots[buffer][slot]
            &&& !(call.phase is Write) ==> next.task == call.task
            &&& call.phase is Reserve && channel.available < 32 ==> next.phase == (
            CallPhase::Write { index: channel.available as usize }) && after.available
                == channel.available + 1
            &&& call.phase is Recheck && channel.accepting ==> (call.kind is Enqueue
                <==> next.phase is Reserve) && (call.kind is Flush <==> next.phase is Claim)
            &&& after.queue == channel.queue
            &&& after.accepting == channel.accepting
            &&& after.close_requested == channel.close_requested
        }),
{
}

/// The server runs exactly the tasks in the slots that it comes by: of the buffer that clients do
/// not write to, in the order of the slots. A slot is empty once it was run, and no other changes.
pub proof fn law_server_runs_its_buffer<F>(
    channel: ChannelView<F>,
    server: ServerView,
    buffer: int,
    slot: int,
)
    requires
        channel.wf(),
        server.wf(),
        0 <= buffer < 2,
        0 <= slot < 32,
    ensures
        ({
            let action = server_action(channel, server);
            let (after, next) = server_step(channel, server);
            &&& action is Run ==> server.phase is Execute
            &&& server.phase matches ServerPhase::Execute { index } ==> {
                let task = channel.slots[1 - server.client_buf][index as int];
                &&& action is Run <==> task is Some
                &&& task is Some ==> action == ServerAction::Run(task->0)
                &&& after.slots[1 - server.client_buf][index as int] is None
                &&& (buffer != 1 - server.client_buf || slot != index)
                    ==> after.slots[buffer][slot] == channel.slots[buffer][slot]
                &&& index < 31 ==> next.phase == (ServerPhase::Execute {
                    index: (index + 1) as usize,
                })
                &&& index == 31 ==> next.phase is LoadCount && !next.ready_to_execute
            }
            &&& action is Stop <==> server.phase is Stopped || (server.phase is CheckDrained
                && channel.enqueued == 0)
            &&& action is Wait <==> server.phase is Idle
            &&& server.phase is Idle ==> next.idle_count == one_more(server.idle_count)
            &&& server.phase is Idle ==> (action == ServerAction::<F>::Wait(Backoff::Spin)
                <==> server.idle_count < 8192)
            &&& server.phase is Idle ==> (action == ServerAction::<F>::Wait(Backoff::Sleep)
                <==> server.idle_count >= 8256)
        }),
{
}

/// The server swaps the buffers exactly when all slots of the one that clients write to are
/// written. It stops only when it was asked to, no call is under way, and nothing waits; whatever
/// waits while it is to stop, it takes as if the buffer were full.
pub proof fn law_server_decides<F>(channel: ChannelView<F>, server: ServerView)
    ensures
        ({
            let next = server_step(channel, server).1;
            &&& next.phase is Swap && !(server.phase is Swap) <==> server.phase is LoadCount
                && channel.enqueued >= 32
            &&& server.phase is Swap ==> server_step(channel, server).0.queue == 1
                - server.client_buf && next.client_buf == 1 - server.client_buf
                && next.ready_to_execute
            &&& server.phase is CheckClose ==> (next.phase is CheckActive
                <==> channel.close_requested) && (next.phase is Idle <==> !channel.close_requested)
            &&& server.phase is CheckActive ==> (next.phase is CheckDrained <==> channel.active
                == 0) && (next.phase is Idle <==> channel.active != 0)
            &&& server.phase is CheckDrained ==> (next.phase is Stopped <==> channel.enqueued == 0)
                && (next.phase is Claim <==> channel.enqueued != 0)
        }),
{
}

} // verus!
