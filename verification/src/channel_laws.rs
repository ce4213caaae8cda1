//! What holds of a channel however the steps of its clients, its server and the thread that
//! closes it interleave.

use crate::channel::{
    client_step, empty_buffer, server_action, server_step, CallKind, CallPhase, CallView,
    ChannelView, ServerAction, ServerPhase, ServerView, CHANNEL_MAX_TASK,
};
use vstd::prelude::*;

verus! {

/// What the thread that closes the channel does next.
pub enum CloserPhase {
    /// Nothing yet; next, refuse new work.
    Open,
    /// New work is refused; next, ask the server to stop.
    Refusing,
    /// The server was asked to stop.
    Requested,
}

/// Where a written task is.
pub enum Place {
    /// In a slot of a buffer.
    Slot {
        /// The buffer.
        buffer: int,
        /// The slot.
        index: int,
    },
    /// It has been run.
    Executed,
}

/// A record of who did what, which the steps keep but never read.
#[verifier::ext_equal]
pub struct Ledger {
    /// The calls that are counted as under way.
    pub active: Set<int>,
    /// The slots of the client buffer that are written and counted.
    pub published: Set<int>,
    /// The slots of the client buffer that a call, or the server, took and has not counted yet.
    pub owner: Map<int, int>,
    /// Where the task of each call is, once it is written.
    pub place: Map<int, Place>,
}

/// A channel, its server, all the calls that are ever made to it, and the thread that closes it.
///
/// The task of a call is named by the number of the call.
#[verifier::ext_equal]
pub struct System {
    /// The words and slots that the threads share.
    pub channel: ChannelView<int>,
    /// The server thread.
    pub server: ServerView,
    /// The client calls, those not started yet included.
    pub calls: Seq<CallView<int>>,
    /// The thread that closes the channel.
    pub closer: CloserPhase,
    /// The tasks that the server ran, in the order in which it ran them.
    pub executed: Seq<int>,
    /// Who did what.
    pub ledger: Ledger,
}

/// The number by which the ledger knows the server.
pub open spec fn server_owner() -> int {
    -1
}

/// The number of slots of the client buffer that are taken.
pub open spec fn taken(channel: ChannelView<int>) -> int {
    if channel.available < CHANNEL_MAX_TASK {
        channel.available as int
    } else {
        CHANNEL_MAX_TASK as int
    }
}

/// The call is counted as under way.
pub open spec fn is_active(phase: CallPhase) -> bool {
    match phase {
        CallPhase::Check => false,
        CallPhase::Announce => false,
        CallPhase::Accepted => false,
        CallPhase::Rejected => false,
        _ => true,
    }
}

/// The call was let in, and is not over.
pub open spec fn is_working(phase: CallPhase) -> bool {
    is_active(phase) && !(phase is Recheck) && !(phase is Withdraw)
}

/// The call has written its task.
pub open spec fn has_written(call: CallView<int>) -> bool {
    &&& call.kind is Enqueue
    &&& (call.phase is Publish || call.phase is Retire || call.phase is Accepted)
}

/// The call took slot `k` and has not counted it yet.
pub open spec fn call_holds(phase: CallPhase, k: int) -> bool {
    match phase {
        CallPhase::Write { index } => index == k,
        CallPhase::Publish { index } => index == k,
        CallPhase::Fill { start, index } => start <= k < CHANNEL_MAX_TASK,
        CallPhase::Count { start } => start <= k < CHANNEL_MAX_TASK,
        _ => false,
    }
}

/// The server took slot `k` and has not counted it yet.
pub open spec fn server_holds(phase: ServerPhase, k: int) -> bool {
    match phase {
        ServerPhase::Fill { start, index } => start <= k < CHANNEL_MAX_TASK,
        ServerPhase::Count { start } => start <= k < CHANNEL_MAX_TASK,
        _ => false,
    }
}

/// The phases of a call fit what it is for.
pub open spec fn fits_kind(call: CallView<int>) -> bool {
    match call.phase {
        CallPhase::Reserve => call.kind is Enqueue,
        CallPhase::Write { index } => call.kind is Enqueue,
        CallPhase::Publish { index } => call.kind is Enqueue,
        CallPhase::Claim => call.kind is Flush,
        CallPhase::Fill { start, index } => call.kind is Flush,
        CallPhase::Count { start } => call.kind is Flush,
        _ => true,
    }
}

/// The slots from `start` to the end of a buffer.
pub open spec fn slots_from(start: int) -> Set<int> {
    vstd::set_lib::set_int_range(start, CHANNEL_MAX_TASK as int)
}

/// The ledger after call `i` took a step from `before`.
pub open spec fn ledger_after_call(s: System, i: int) -> Ledger {
    let l = s.ledger;
    match s.calls[i].phase {
        CallPhase::Announce => Ledger { active: l.active.insert(i), ..l },
        CallPhase::Withdraw => Ledger { active: l.active.remove(i), ..l },
        CallPhase::Retire => Ledger { active: l.active.remove(i), ..l },
        CallPhase::Reserve => if s.channel.available < CHANNEL_MAX_TASK {
            Ledger { owner: l.owner.insert(s.channel.available as int, i), ..l }
        } else {
            l
        },
        CallPhase::Write { index } => Ledger {
            place: l.place.insert(
                i,
                Place::Slot { buffer: s.channel.queue, index: index as int },
            ),
            ..l
        },
        CallPhase::Publish { index } => Ledger {
            owner: l.owner.remove(index as int),
            published: l.published.insert(index as int),
            ..l
        },
        CallPhase::Claim => Ledger { owner: claimed(l.owner, s.channel, i), ..l },
        CallPhase::Count { start } => counted(l, start as int),
        _ => l,
    }
}

/// The owners once `who` took every slot that was left.
pub open spec fn claimed(owner: Map<int, int>, channel: ChannelView<int>, who: int) -> Map<
    int,
    int,
> {
    Map::new(
        |k: int|
            owner.contains_key(k) || channel.available <= k < CHANNEL_MAX_TASK,
        |k: int|
            if owner.contains_key(k) {
                owner[k]
            } else {
                who
            },
    )
}

/// The ledger once the slots from `start` on were counted.
pub open spec fn counted(l: Ledger, start: int) -> Ledger {
    Ledger {
        owner: Map::new(|k: int| l.owner.contains_key(k) && k < start, |k: int| l.owner[k]),
        published: l.published.union(slots_from(start)),
        ..l
    }
}

/// The system after call `i` took a step.
pub open spec fn call_steps(s: System, i: int) -> System {
    let (channel, call) = client_step(s.channel, s.calls[i]);
    System {
        channel,
        calls: s.calls.update(i, call),
        ledger: ledger_after_call(s, i),
        ..s
    }
}

/// The tasks that have run after the server took a step.
pub open spec fn executed_after_server(s: System) -> Seq<int> {
    match server_action(s.channel, s.server) {
        ServerAction::Run(task) => s.executed.push(task),
        _ => s.executed,
    }
}

/// The ledger after the server took a step.
pub open spec fn ledger_after_server(s: System) -> Ledger {
    let l = s.ledger;
    match s.server.phase {
        ServerPhase::Execute { index } => match server_action(s.channel, s.server) {
            ServerAction::Run(task) => Ledger { place: l.place.insert(task, Place::Executed), ..l },
            _ => l,
        },
        ServerPhase::ResetCount => Ledger { published: Set::empty(), ..l },
        ServerPhase::Claim => Ledger { owner: claimed(l.owner, s.channel, server_owner()), ..l },
        ServerPhase::Count { start } => counted(l, start as int),
        _ => l,
    }
}

/// The system after the server took a step.
pub open spec fn server_steps(s: System) -> System {
    let (channel, server) = server_step(s.channel, s.server);
    System {
        channel,
        server,
        executed: executed_after_server(s),
        ledger: ledger_after_server(s),
        ..s
    }
}

/// The system after the closing thread took a step.
pub open spec fn closer_steps(s: System) -> System {
    match s.closer {
        CloserPhase::Open => System {
            channel: ChannelView { accepting: false, ..s.channel },
            closer: CloserPhase::Refusing,
            ..s
        },
        CloserPhase::Refusing => System {
            channel: ChannelView { close_requested: true, ..s.channel },
            closer: CloserPhase::Requested,
            ..s
        },
        CloserPhase::Requested => s,
    }
}

/// The words that a step of a call adds to do not wrap around.
///
/// That of the next index does when clients retry more than four billion times on one full buffer,
/// and that of the calls under way when there are as many of them at once.
pub open spec fn call_fits(s: System, i: int) -> bool {
    match s.calls[i].phase {
        CallPhase::Announce => s.channel.active < u32::MAX,
        CallPhase::Reserve => s.channel.available < u32::MAX,
        CallPhase::Claim => s.channel.available + CHANNEL_MAX_TASK <= u32::MAX,
        _ => true,
    }
}

/// The word that a step of the server adds to does not wrap around.
pub open spec fn server_fits(s: System) -> bool {
    s.server.phase is Claim ==> s.channel.available + CHANNEL_MAX_TASK <= u32::MAX
}

/// One thread took one step, and no word wrapped around.
pub open spec fn next(s: System, t: System) -> bool {
    ||| t == server_steps(s) && server_fits(s)
    ||| t == closer_steps(s)
    ||| exists|i: int|
        0 <= i < s.calls.len() && call_fits(s, i) && t == #[trigger] call_steps(s, i)
}

/// A fresh channel and server, and calls that have not begun.
pub open spec fn init(s: System) -> bool {
    &&& s.channel == ChannelView::<int>::init()
    &&& s.server == ServerView::init()
    &&& s.closer is Open
    &&& forall|i: int|
        0 <= i < s.calls.len() ==> {
            &&& (#[trigger] s.calls[i]).phase is Check
            &&& s.calls[i].kind is Enqueue ==> s.calls[i].task == Some(i)
        }
    &&& s.executed == Seq::<int>::empty()
    &&& s.ledger == (Ledger {
        active: Set::empty(),
        published: Set::empty(),
        owner: Map::empty(),
        place: Map::empty(),
    })
}

/// A run of the system from its start.
pub open spec fn is_run(run: Seq<System>) -> bool {
    &&& run.len() > 0
    &&& init(run[0])
    &&& forall|n: int| 0 <= n < run.len() - 1 ==> next(#[trigger] run[n], run[n + 1])
}

/// The server is between seeing a full buffer and opening the next one.
pub open spec fn is_fetching(phase: ServerPhase) -> bool {
    phase is Swap || phase is ResetCount || phase is ResetIndex
}

/// Calls are counted as under way exactly while they are.
pub open spec fn inv_active(s: System) -> bool {
    &&& s.ledger.active.finite()
    &&& s.ledger.active.len() == s.channel.active
    &&& forall|i: int| #[trigger]
        s.ledger.active.contains(i) <==> 0 <= i < s.calls.len() && is_active(s.calls[i].phase)
}

/// Every taken slot is counted, or held by one call or by the server.
pub open spec fn inv_slots(s: System) -> bool {
    &&& s.ledger.published.finite()
    &&& s.ledger.published.len() == s.channel.enqueued
    &&& forall|k: int| #[trigger]
        s.ledger.owner.contains_key(k) ==> 0 <= k < taken(s.channel)
            && !s.ledger.published.contains(k)
    &&& forall|k: int| #[trigger] s.ledger.published.contains(k) ==> 0 <= k < taken(s.channel)
    &&& if s.server.phase is ResetIndex {
        s.ledger.published =~= Set::<int>::empty() && s.channel.available >= CHANNEL_MAX_TASK
    } else {
        forall|k: int|
            0 <= k < taken(s.channel) ==> #[trigger] s.ledger.published.contains(k)
                || s.ledger.owner.contains_key(k)
    }
    &&& is_fetching(s.server.phase) ==> s.ledger.owner =~= Map::<int, int>::empty()
    &&& (s.server.phase is Swap || s.server.phase is ResetCount) ==> s.channel.available
        >= CHANNEL_MAX_TASK
}

/// The ledger names as the holder of a slot the one call, or the server, that holds it.
pub open spec fn inv_owner(s: System) -> bool {
    &&& forall|k: int| #[trigger]
        s.ledger.owner.contains_key(k) ==> {
            let who = s.ledger.owner[k];
            if who == server_owner() {
                server_holds(s.server.phase, k)
            } else {
                0 <= who < s.calls.len() && call_holds(s.calls[who].phase, k)
            }
        }
    &&& forall|i: int, k: int|
        0 <= i < s.calls.len() && #[trigger] call_holds(s.calls[i].phase, k)
            ==> s.ledger.owner.contains_key(k) && s.ledger.owner[k] == i
    &&& forall|k: int| #[trigger]
        server_holds(s.server.phase, k) ==> s.ledger.owner.contains_key(k) && s.ledger.owner[k]
            == server_owner()
}

/// A written task is in one slot, or has run once; nothing else is in a slot or has run.
pub open spec fn inv_place(s: System) -> bool {
    &&& forall|i: int| #[trigger]
        s.ledger.place.contains_key(i) <==> 0 <= i < s.calls.len() && has_written(s.calls[i])
    &&& forall|b: int, k: int|
        0 <= b < 2 && 0 <= k < CHANNEL_MAX_TASK && (#[trigger] s.channel.slots[b][k]) is Some
            ==> {
            let i = s.channel.slots[b][k]->0;
            &&& s.ledger.place.contains_key(i)
            &&& s.ledger.place[i] == (Place::Slot { buffer: b, index: k })
        }
    &&& forall|i: int| #[trigger]
        s.ledger.place.contains_key(i) ==> match s.ledger.place[i] {
            Place::Slot { buffer, index } => {
                &&& 0 <= buffer < 2
                &&& 0 <= index < CHANNEL_MAX_TASK
                &&& s.channel.slots[buffer][index] == Some(i)
                &&& !s.executed.contains(i)
            },
            Place::Executed => s.executed.contains(i),
        }
    &&& forall|i: int| #[trigger]
        s.executed.contains(i) ==> s.ledger.place.contains_key(i) && s.ledger.place[i]
            == Place::Executed
    &&& s.executed.no_duplicates()
    &&& forall|i: int|
        0 <= i < s.calls.len() ==> {
            &&& (#[trigger] s.calls[i]).wf()
            &&& fits_kind(s.calls[i])
            &&& s.calls[i].kind is Enqueue && !has_written(s.calls[i]) ==> s.calls[i].task
                == Some(i)
        }
    &&& forall|i: int|
        0 <= i < s.calls.len() && #[trigger] s.calls[i].phase is Publish ==> s.ledger.place[i]
            == (Place::Slot {
            buffer: s.channel.queue,
            index: s.calls[i].phase->Publish_index as int,
        })
}

/// Slots that are not taken, or are held and not yet written, are empty; so is the server buffer,
/// but for the tasks that the server is about to run.
pub open spec fn inv_buffers(s: System) -> bool {
    let q = s.channel.queue;
    &&& s.channel.wf()
    &&& s.server.wf()
    &&& s.server.client_buf == q
    &&& !s.server.ready_to_execute ==> forall|k: int|
        0 <= k < CHANNEL_MAX_TASK ==> (#[trigger] s.channel.slots[1 - q][k]) is None
    &&& s.server.phase is Execute ==> s.server.ready_to_execute && forall|k: int|
        0 <= k < s.server.phase->Execute_index ==> (#[trigger] s.channel.slots[1 - q][k]) is None
    &&& (s.server.phase is ResetCount || s.server.phase is ResetIndex)
        ==> s.server.ready_to_execute && forall|k: int|
        0 <= k < CHANNEL_MAX_TASK ==> (#[trigger] s.channel.slots[q][k]) is None
    &&& (s.server.phase is LoadCount || s.server.phase is Swap || s.server.phase is CheckClose
        || s.server.phase is CheckActive || s.server.phase is CheckDrained
        || s.server.phase is Claim || s.server.phase is Fill || s.server.phase is Count
        || s.server.phase is Idle || s.server.phase is Stopped) ==> !s.server.ready_to_execute
    &&& forall|k: int|
        taken(s.channel) <= k < CHANNEL_MAX_TASK ==> (#[trigger] s.channel.slots[q][k]) is None
    &&& forall|i: int|
        0 <= i < s.calls.len() && #[trigger] s.calls[i].phase is Write
            ==> s.channel.slots[q][s.calls[i].phase->Write_index as int] is None
    &&& forall|i: int, k: int|
        0 <= i < s.calls.len() && (s.calls[i].phase is Fill || s.calls[i].phase is Count)
            && #[trigger] call_holds(s.calls[i].phase, k) ==> s.channel.slots[q][k] is None
    &&& forall|k: int| #[trigger]
        server_holds(s.server.phase, k) ==> s.channel.slots[q][k] is None
}

/// Once the server was asked to stop and saw no call under way, no call is let in.
pub open spec fn inv_closing(s: System) -> bool {
    &&& s.channel.accepting <==> s.closer is Open
    &&& s.channel.close_requested <==> s.closer is Requested
    &&& (s.server.phase is CheckActive || s.server.phase is CheckDrained
        || s.server.phase is Stopped) ==> s.channel.close_requested
    &&& (s.server.phase is CheckDrained || s.server.phase is Stopped) ==> forall|i: int|
        0 <= i < s.calls.len() ==> !is_working((#[trigger] s.calls[i]).phase)
    &&& s.server.phase is Stopped ==> s.channel.enqueued == 0
}

/// What holds in every state of every run.
pub open spec fn inv(s: System) -> bool {
    &&& inv_active(s)
    &&& inv_slots(s)
    &&& inv_owner(s)
    &&& inv_place(s)
    &&& inv_buffers(s)
    &&& inv_closing(s)
}

/// The invariant holds at the start.
pub proof fn law_inv_init(s: System)
    requires
        init(s),
    ensures
        inv(s),
{
    assert(s.channel.slots[0] =~= empty_buffer::<int>());
    assert(s.channel.slots[1] =~= empty_buffer::<int>());
}

/// A step of the closing thread keeps the invariant.
pub proof fn law_inv_closer(s: System)
    requires
        inv(s),
    ensures
        inv(closer_steps(s)),
{
}

/// Steps that only look at the channel, or only count the call, keep the invariant.
proof fn lemma_call_counts(s: System, i: int)
    requires
        inv(s),
        0 <= i < s.calls.len(),
        ({
            let phase = s.calls[i].phase;
            phase is Check || phase is Announce || phase is Recheck || phase is Withdraw
                || phase is Retire || phase is Accepted || phase is Rejected
        }),
        call_fits(s, i),
    ensures
        inv(call_steps(s, i)),
{
    let t = call_steps(s, i);
    let call = s.calls[i];
    assert(s.ledger.active.contains(i) <==> is_active(call.phase));
    assert forall|j: int| #[trigger] t.ledger.active.contains(j) <==> 0 <= j < t.calls.len()
        && is_active(t.calls[j].phase) by {
        assert(s.ledger.active.contains(j) <==> 0 <= j < s.calls.len() && is_active(
            s.calls[j].phase,
        ));
    }
    lemma_active_bound(s);
    assert(t.ledger.active.len() == t.channel.active);
    assert(inv_active(t));
    assert(inv_slots(t));
    assert(inv_owner(t)) by {
        assert forall|k: int| #[trigger] t.ledger.owner.contains_key(k) implies ({
            let who = t.ledger.owner[k];
            if who == server_owner() {
                server_holds(t.server.phase, k)
            } else {
                0 <= who < t.calls.len() && call_holds(t.calls[who].phase, k)
            }
        }) by {
            assert(s.ledger.owner.contains_key(k));
        }
        assert forall|j: int, k: int|
            0 <= j < t.calls.len() && #[trigger] call_holds(t.calls[j].phase, k) implies
            t.ledger.owner.contains_key(k) && t.ledger.owner[k] == j by {
            assert(j != i);
            assert(call_holds(s.calls[j].phase, k));
        }
    }
    assert(inv_place(t));
    assert(inv_buffers(t));
    assert(inv_closing(t));
}

/// Where a call is under way, some are counted.
proof fn lemma_active_bound(s: System)
    requires
        inv_active(s),
    ensures
        forall|i: int| #[trigger] s.ledger.active.contains(i) ==> s.channel.active > 0,
{
    assert forall|i: int| #[trigger] s.ledger.active.contains(i) implies s.channel.active > 0 by {
        if s.channel.active == 0 {
            assert(s.ledger.active =~= Set::<int>::empty());
        }
    }
}

/// Taking an index keeps the invariant.
proof fn lemma_call_reserves(s: System, i: int)
    requires
        inv(s),
        0 <= i < s.calls.len(),
        s.calls[i].phase is Reserve,
        s.channel.available < u32::MAX,
    ensures
        inv(call_steps(s, i)),
{
    let t = call_steps(s, i);
    let a = s.channel.available as int;
    assert(!call_holds(s.calls[i].phase, a));
    assert(inv_active(t));
    if s.channel.available < CHANNEL_MAX_TASK {
        assert(!s.ledger.published.contains(a));
        assert(!s.ledger.owner.contains_key(a));
        assert(inv_slots(t));
        assert forall|j: int, k: int|
            0 <= j < t.calls.len() && #[trigger] call_holds(t.calls[j].phase, k) implies
            t.ledger.owner.contains_key(k) && t.ledger.owner[k] == j by {
            if j != i {
                assert(call_holds(s.calls[j].phase, k));
            }
        }
        assert forall|k: int| #[trigger] t.ledger.owner.contains_key(k) implies ({
            let who = t.ledger.owner[k];
            if who == server_owner() {
                server_holds(t.server.phase, k)
            } else {
                0 <= who < t.calls.len() && call_holds(t.calls[who].phase, k)
            }
        }) by {
            if k != a {
                assert(s.ledger.owner.contains_key(k));
            }
        }
        assert(inv_owner(t));
    } else {
        assert(t.calls[i].phase == s.calls[i].phase);
        assert(inv_slots(t));
        assert(inv_owner(t));
    }
    assert(inv_place(t));
    assert(inv_buffers(t));
    assert(inv_closing(t));
}

/// Writing a task to the slot that the call holds keeps the invariant.
proof fn lemma_call_writes(s: System, i: int)
    requires
        inv(s),
        0 <= i < s.calls.len(),
        s.calls[i].phase is Write,
    ensures
        inv(call_steps(s, i)),
{
    let t = call_steps(s, i);
    let x = s.calls[i].phase->Write_index as int;
    let q = s.channel.queue;
    assert(call_holds(s.calls[i].phase, x));
    assert(s.ledger.owner.contains_key(x) && s.ledger.owner[x] == i);
    assert(s.calls[i].task == Some(i));
    assert(!s.ledger.place.contains_key(i));
    assert(s.channel.slots[q][x] is None);
    assert forall|b: int, k: int| 0 <= b < 2 && 0 <= k < CHANNEL_MAX_TASK implies (
    #[trigger] t.channel.slots[b][k]) == (if b == q && k == x {
        Some(i)
    } else {
        s.channel.slots[b][k]
    }) by {}
    assert(inv_active(t));
    assert(inv_slots(t));
    assert(inv_owner(t)) by {
        assert forall|k: int| #[trigger] t.ledger.owner.contains_key(k) implies ({
            let who = t.ledger.owner[k];
            if who == server_owner() {
                server_holds(t.server.phase, k)
            } else {
                0 <= who < t.calls.len() && call_holds(t.calls[who].phase, k)
            }
        }) by {
            assert(s.ledger.owner.contains_key(k));
        }
        assert forall|j: int, k: int|
            0 <= j < t.calls.len() && #[trigger] call_holds(t.calls[j].phase, k) implies
            t.ledger.owner.contains_key(k) && t.ledger.owner[k] == j by {
            assert(call_holds(s.calls[j].phase, k));
        }
    }
    assert(inv_place(t));
    assert(inv_buffers(t)) by {
        assert forall|j: int| 0 <= j < t.calls.len() && #[trigger] t.calls[j].phase is Write implies
            t.channel.slots[q][t.calls[j].phase->Write_index as int] is None by {
            let y = t.calls[j].phase->Write_index as int;
            assert(s.calls[j].phase is Write);
            assert(call_holds(s.calls[j].phase, y));
            assert(y != x);
            assert(s.calls[j].wf());
        }
        assert forall|j: int, k: int|
            0 <= j < t.calls.len() && (t.calls[j].phase is Fill || t.calls[j].phase is Count)
                && #[trigger] call_holds(t.calls[j].phase, k) implies t.channel.slots[q][k] is None by {
            assert(s.calls[j].wf());
            assert(call_holds(s.calls[j].phase, k));
            assert(k != x);
        }
        assert forall|k: int| #[trigger] server_holds(t.server.phase, k) implies
            t.channel.slots[q][k] is None by {
            assert(server_holds(s.server.phase, k));
            assert(k != x);
        }
    }
    assert(inv_closing(t));
}

/// Counting the slot that the call wrote keeps the invariant.
proof fn lemma_call_publishes(s: System, i: int)
    requires
        inv(s),
        0 <= i < s.calls.len(),
        s.calls[i].phase is Publish,
    ensures
        inv(call_steps(s, i)),
{
    let t = call_steps(s, i);
    let x = s.calls[i].phase->Publish_index as int;
    assert(call_holds(s.calls[i].phase, x));
    assert(s.ledger.owner.contains_key(x) && s.ledger.owner[x] == i);
    lemma_published_bound(s);
    lemma_published_bound_without(s, x);
    assert(inv_active(t));
    assert(inv_slots(t)) by {
        assert forall|k: int| 0 <= k < taken(t.channel) implies #[trigger] t.ledger.published.contains(k)
                || t.ledger.owner.contains_key(k) by {
            assert(s.ledger.published.contains(k) || s.ledger.owner.contains_key(k));
        }
    }
    assert(inv_owner(t)) by {
        assert forall|k: int| #[trigger] t.ledger.owner.contains_key(k) implies ({
            let who = t.ledger.owner[k];
            if who == server_owner() {
                server_holds(t.server.phase, k)
            } else {
                0 <= who < t.calls.len() && call_holds(t.calls[who].phase, k)
            }
        }) by {
            assert(s.ledger.owner.contains_key(k));
        }
        assert forall|j: int, k: int|
            0 <= j < t.calls.len() && #[trigger] call_holds(t.calls[j].phase, k) implies
            t.ledger.owner.contains_key(k) && t.ledger.owner[k] == j by {
            assert(call_holds(s.calls[j].phase, k));
        }
    }
    assert(inv_place(t));
    assert(inv_buffers(t));
    assert(inv_closing(t));
}

/// No more slots are counted than a buffer has.
proof fn lemma_published_bound(s: System)
    requires
        inv_slots(s),
    ensures
        s.channel.enqueued <= taken(s.channel) <= CHANNEL_MAX_TASK,
        s.channel.enqueued == taken(s.channel) ==> forall|k: int|
            0 <= k < taken(s.channel) ==> #[trigger] s.ledger.published.contains(k),
{
    let all = vstd::set_lib::set_int_range(0, taken(s.channel));
    vstd::set_lib::lemma_int_range(0, taken(s.channel));
    assert(s.ledger.published.subset_of(all));
    vstd::set_lib::lemma_len_subset(s.ledger.published, all);
    if s.channel.enqueued == taken(s.channel) {
        vstd::set_lib::lemma_len_subset(s.ledger.published, all);
        vstd::set_lib::lemma_subset_equality(s.ledger.published, all);
    }
}

/// A taken slot that is not counted leaves room in the count.
proof fn lemma_published_bound_without(s: System, x: int)
    requires
        inv_slots(s),
        s.ledger.owner.contains_key(x),
    ensures
        s.channel.enqueued < CHANNEL_MAX_TASK,
{
    lemma_published_bound(s);
    if s.channel.enqueued >= CHANNEL_MAX_TASK {
        assert(s.ledger.published.contains(x));
    }
}

/// Taking every index that is left keeps the invariant.
proof fn lemma_call_claims(s: System, i: int)
    requires
        inv(s),
        0 <= i < s.calls.len(),
        s.calls[i].phase is Claim,
        s.channel.available + CHANNEL_MAX_TASK <= u32::MAX,
    ensures
        inv(call_steps(s, i)),
{
    let t = call_steps(s, i);
    assert(inv_active(t));
    assert(inv_slots(t)) by {
        assert forall|k: int| 0 <= k < taken(t.channel) && !(t.server.phase is ResetIndex) implies
            #[trigger] t.ledger.published.contains(k) || t.ledger.owner.contains_key(k) by {
            if k < taken(s.channel) {
                assert(s.ledger.published.contains(k) || s.ledger.owner.contains_key(k));
            }
        }
    }
    assert(inv_owner(t)) by {
        assert forall|k: int| #[trigger] t.ledger.owner.contains_key(k) implies ({
            let who = t.ledger.owner[k];
            if who == server_owner() {
                server_holds(t.server.phase, k)
            } else {
                0 <= who < t.calls.len() && call_holds(t.calls[who].phase, k)
            }
        }) by {
            if s.ledger.owner.contains_key(k) {
                let who = s.ledger.owner[k];
                if who != server_owner() {
                    assert(call_holds(s.calls[who].phase, k));
                    assert(who != i);
                }
            }
        }
        assert forall|j: int, k: int|
            0 <= j < t.calls.len() && #[trigger] call_holds(t.calls[j].phase, k) implies
            t.ledger.owner.contains_key(k) && t.ledger.owner[k] == j by {
            if j != i {
                assert(call_holds(s.calls[j].phase, k));
            } else {
                assert(!s.ledger.owner.contains_key(k));
            }
        }
    }
    assert(inv_place(t));
    assert(inv_buffers(t));
    assert(inv_closing(t));
}

/// Writing a task that does nothing to a slot that the call holds keeps the invariant.
proof fn lemma_call_fills(s: System, i: int)
    requires
        inv(s),
        0 <= i < s.calls.len(),
        s.calls[i].phase is Fill,
    ensures
        inv(call_steps(s, i)),
{
    let t = call_steps(s, i);
    let x = s.calls[i].phase->Fill_index as int;
    let q = s.channel.queue;
    assert(s.calls[i].wf());
    assert(call_holds(s.calls[i].phase, x));
    assert(s.channel.slots[q][x] is None);
    lemma_same_slots(s.channel, x);
    assert(t.channel.slots =~= s.channel.slots);
    assert(inv_active(t));
    assert(inv_slots(t));
    assert forall|k: int| #[trigger] call_holds(t.calls[i].phase, k) == call_holds(
        s.calls[i].phase,
        k,
    ) by {}
    assert(inv_owner(t)) by {
        assert forall|k: int| #[trigger] t.ledger.owner.contains_key(k) implies ({
            let who = t.ledger.owner[k];
            if who == server_owner() {
                server_holds(t.server.phase, k)
            } else {
                0 <= who < t.calls.len() && call_holds(t.calls[who].phase, k)
            }
        }) by {
            assert(s.ledger.owner.contains_key(k));
        }
        assert forall|j: int, k: int|
            0 <= j < t.calls.len() && #[trigger] call_holds(t.calls[j].phase, k) implies
            t.ledger.owner.contains_key(k) && t.ledger.owner[k] == j by {
            assert(call_holds(s.calls[j].phase, k));
        }
    }
    assert(inv_place(t));
    assert(inv_buffers(t)) by {
        assert forall|j: int, k: int|
            0 <= j < t.calls.len() && (t.calls[j].phase is Fill || t.calls[j].phase is Count)
                && #[trigger] call_holds(t.calls[j].phase, k) implies t.channel.slots[q][k] is None by {
            assert(call_holds(s.calls[j].phase, k));
        }
    }
    assert(inv_closing(t));
}

/// Emptying an empty slot of the client buffer changes nothing.
proof fn lemma_same_slots(channel: ChannelView<int>, x: int)
    requires
        channel.wf(),
        0 <= x < CHANNEL_MAX_TASK,
        channel.slots[channel.queue][x] is None,
    ensures
        channel.with_slot(channel.queue, x, None).slots =~= channel.slots,
{
    assert(channel.slots[channel.queue].update(x, None) =~= channel.slots[channel.queue]);
}

/// The count after the slots from `start` on were counted.
proof fn lemma_counted(s: System, start: int)
    requires
        inv_slots(s),
        0 <= start < CHANNEL_MAX_TASK,
        forall|k: int|
            start <= k < CHANNEL_MAX_TASK ==> #[trigger] s.ledger.owner.contains_key(k),
    ensures
        counted(s.ledger, start).published.finite(),
        counted(s.ledger, start).published.len() == s.channel.enqueued + CHANNEL_MAX_TASK - start,
        s.channel.enqueued + CHANNEL_MAX_TASK - start <= CHANNEL_MAX_TASK,
        forall|k: int| #[trigger]
            s.ledger.published.contains(k) ==> k < start,
{
    vstd::set_lib::lemma_int_range(start, CHANNEL_MAX_TASK as int);
    let more = slots_from(start);
    assert forall|k: int| #[trigger] s.ledger.published.contains(k) implies k < start by {
        if k >= start {
            assert(s.ledger.owner.contains_key(k));
        }
    }
    assert(s.ledger.published.disjoint(more));
    vstd::set_lib::lemma_set_disjoint_lens(s.ledger.published, more);
    let all = vstd::set_lib::set_int_range(0, CHANNEL_MAX_TASK as int);
    vstd::set_lib::lemma_int_range(0, CHANNEL_MAX_TASK as int);
    assert(s.ledger.published.union(more).subset_of(all));
    vstd::set_lib::lemma_len_subset(s.ledger.published.union(more), all);
}

/// Counting the slots that the call filled keeps the invariant.
proof fn lemma_call_counts_filled(s: System, i: int)
    requires
        inv(s),
        0 <= i < s.calls.len(),
        s.calls[i].phase is Count,
    ensures
        inv(call_steps(s, i)),
{
    let t = call_steps(s, i);
    let start = s.calls[i].phase->Count_start as int;
    assert(s.calls[i].wf());
    assert forall|k: int| start <= k < CHANNEL_MAX_TASK implies #[trigger] s.ledger.owner.contains_key(k)
        && s.ledger.owner[k] == i by {
        assert(call_holds(s.calls[i].phase, k));
    }
    lemma_counted(s, start);
    assert(s.ledger.owner.contains_key(start));
    assert(inv_active(t));
    assert(inv_slots(t)) by {
        assert(taken(s.channel) == CHANNEL_MAX_TASK) by {
            assert(s.ledger.owner.contains_key(CHANNEL_MAX_TASK - 1));
        }
        assert forall|k: int| 0 <= k < taken(t.channel) implies #[trigger] t.ledger.published.contains(k)
                || t.ledger.owner.contains_key(k) by {
            assert(s.ledger.published.contains(k) || s.ledger.owner.contains_key(k));
        }
    }
    assert(inv_owner(t)) by {
        assert forall|k: int| #[trigger] t.ledger.owner.contains_key(k) implies ({
            let who = t.ledger.owner[k];
            if who == server_owner() {
                server_holds(t.server.phase, k)
            } else {
                0 <= who < t.calls.len() && call_holds(t.calls[who].phase, k)
            }
        }) by {
            assert(s.ledger.owner.contains_key(k));
        }
        assert forall|j: int, k: int|
            0 <= j < t.calls.len() && #[trigger] call_holds(t.calls[j].phase, k) implies
            t.ledger.owner.contains_key(k) && t.ledger.owner[k] == j by {
            assert(call_holds(s.calls[j].phase, k));
        }
        assert forall|k: int| #[trigger] server_holds(t.server.phase, k) implies
            t.ledger.owner.contains_key(k) && t.ledger.owner[k] == server_owner() by {
            assert(server_holds(s.server.phase, k));
        }
    }
    assert(inv_place(t));
    assert(inv_buffers(t));
    assert(inv_closing(t));
}

/// A step of a client call keeps the invariant.
pub proof fn law_inv_call(s: System, i: int)
    requires
        inv(s),
        0 <= i < s.calls.len(),
        call_fits(s, i),
    ensures
        inv(call_steps(s, i)),
{
    match s.calls[i].phase {
        CallPhase::Reserve => lemma_call_reserves(s, i),
        CallPhase::Write { index } => lemma_call_writes(s, i),
        CallPhase::Publish { index } => lemma_call_publishes(s, i),
        CallPhase::Claim => lemma_call_claims(s, i),
        CallPhase::Fill { start, index } => lemma_call_fills(s, i),
        CallPhase::Count { start } => lemma_call_counts_filled(s, i),
        _ => lemma_call_counts(s, i),
    }
}

/// Steps of the server that change nothing but what it does next keep the invariant.
proof fn lemma_server_looks(s: System)
    requires
        inv(s),
        ({
            let phase = s.server.phase;
            phase is Top || phase is LoadCount || phase is CheckClose || phase is CheckActive
                || phase is CheckDrained || phase is Idle || phase is Stopped
        }),
    ensures
        inv(server_steps(s)),
{
    let t = server_steps(s);
    assert(inv_active(t));
    if s.server.phase is LoadCount {
        lemma_full(s);
    }
    assert(inv_slots(t));
    assert(inv_owner(t)) by {
        assert forall|k: int| !(#[trigger] server_holds(s.server.phase, k)) by {}
        assert forall|k: int| !(#[trigger] server_holds(t.server.phase, k)) by {}
    }
    assert(inv_place(t));
    assert(inv_buffers(t));
    if s.server.phase is CheckActive && s.channel.active == 0 {
        assert forall|i: int| 0 <= i < s.calls.len() implies !is_working(
            (#[trigger] s.calls[i]).phase,
        ) by {
            if s.ledger.active.contains(i) {
                lemma_active_bound(s);
            }
        }
    }
    assert(inv_closing(t));
}

/// A buffer whose slots are all counted is full, and nobody holds a slot of it.
proof fn lemma_full(s: System)
    requires
        inv(s),
        s.server.phase is LoadCount,
    ensures
        s.channel.enqueued >= CHANNEL_MAX_TASK ==> s.channel.available >= CHANNEL_MAX_TASK
            && s.ledger.owner =~= Map::<int, int>::empty(),
{
    if s.channel.enqueued >= CHANNEL_MAX_TASK {
        let all = vstd::set_lib::set_int_range(0, CHANNEL_MAX_TASK as int);
        vstd::set_lib::lemma_int_range(0, CHANNEL_MAX_TASK as int);
        assert(s.ledger.published.subset_of(all));
        vstd::set_lib::lemma_len_subset(s.ledger.published, all);
        vstd::set_lib::lemma_subset_equality(s.ledger.published, all);
        assert(s.ledger.published.contains(CHANNEL_MAX_TASK - 1));
        assert forall|k: int| !(#[trigger] s.ledger.owner.contains_key(k)) by {
            if s.ledger.owner.contains_key(k) {
                assert(all.contains(k));
            }
        }
    }
}

/// Running the task of a slot keeps the invariant.
proof fn lemma_server_executes(s: System)
    requires
        inv(s),
        s.server.phase is Execute,
    ensures
        inv(server_steps(s)),
{
    let t = server_steps(s);
    let x = s.server.phase->Execute_index as int;
    let q = s.channel.queue;
    let b0 = 1 - q;
    assert forall|b: int, k: int| 0 <= b < 2 && 0 <= k < CHANNEL_MAX_TASK implies (
    #[trigger] t.channel.slots[b][k]) == (if b == b0 && k == x {
        None
    } else {
        s.channel.slots[b][k]
    }) by {}
    assert(inv_active(t));
    assert(inv_slots(t));
    assert(inv_owner(t)) by {
        assert forall|k: int| !(#[trigger] server_holds(s.server.phase, k)) by {}
        assert forall|k: int| !(#[trigger] server_holds(t.server.phase, k)) by {}
    }
    assert(inv_place(t)) by {
        if s.channel.slots[b0][x] is Some {
            let task = s.channel.slots[b0][x]->0;
            assert(s.ledger.place[task] == (Place::Slot { buffer: b0, index: x }));
            assert(!s.executed.contains(task));
            assert forall|i: int| #[trigger] t.executed.contains(i) <==> s.executed.contains(i)
                || i == task by {
                if s.executed.contains(i) {
                    let n = choose|n: int| 0 <= n < s.executed.len() && s.executed[n] == i;
                    assert(t.executed[n] == i);
                }
                if i == task {
                    assert(t.executed[s.executed.len() as int] == task);
                }
            }
            assert forall|b: int, k: int|
                0 <= b < 2 && 0 <= k < CHANNEL_MAX_TASK && (#[trigger] t.channel.slots[b][k]) is Some
                implies ({
                let i = t.channel.slots[b][k]->0;
                &&& t.ledger.place.contains_key(i)
                &&& t.ledger.place[i] == (Place::Slot { buffer: b, index: k })
            }) by {
                assert(s.channel.slots[b][k] is Some);
            }
            assert forall|i: int| 0 <= i < t.calls.len() && #[trigger] t.calls[i].phase is Publish
                implies t.ledger.place[i] == (Place::Slot {
                buffer: t.channel.queue,
                index: t.calls[i].phase->Publish_index as int,
            }) by {
                assert(s.calls[i].phase is Publish);
            }
        } else {
            assert forall|i: int| #[trigger] t.ledger.place.contains_key(i) implies match t.ledger.place[i] {
                Place::Slot { buffer, index } => {
                    &&& 0 <= buffer < 2
                    &&& 0 <= index < CHANNEL_MAX_TASK
                    &&& t.channel.slots[buffer][index] == Some(i)
                    &&& !t.executed.contains(i)
                },
                Place::Executed => t.executed.contains(i),
            } by {
                assert(s.ledger.place.contains_key(i));
            }
        }
    }
    assert(inv_buffers(t));
    assert(inv_closing(t));
}

/// Swapping the buffers keeps the invariant.
proof fn lemma_server_swaps(s: System)
    requires
        inv(s),
        s.server.phase is Swap,
    ensures
        inv(server_steps(s)),
{
    let t = server_steps(s);
    assert(inv_active(t));
    assert(inv_slots(t));
    assert forall|i: int, k: int| 0 <= i < s.calls.len() implies !(#[trigger] call_holds(
        s.calls[i].phase,
        k,
    )) by {
        if call_holds(s.calls[i].phase, k) {
            assert(s.ledger.owner.contains_key(k));
        }
    }
    assert forall|i: int| 0 <= i < s.calls.len() implies !((#[trigger] s.calls[i]).phase is Publish)
        && !(s.calls[i].phase is Write) by {
        if s.calls[i].phase is Publish {
            assert(call_holds(s.calls[i].phase, s.calls[i].phase->Publish_index as int));
        }
        if s.calls[i].phase is Write {
            assert(call_holds(s.calls[i].phase, s.calls[i].phase->Write_index as int));
        }
    }
    assert(inv_owner(t));
    assert(inv_place(t));
    assert(inv_buffers(t));
    assert(inv_closing(t));
}

/// Opening the new client buffer keeps the invariant.
proof fn lemma_server_resets(s: System)
    requires
        inv(s),
        s.server.phase is ResetCount || s.server.phase is ResetIndex,
    ensures
        inv(server_steps(s)),
{
    let t = server_steps(s);
    assert(inv_active(t));
    assert(inv_slots(t));
    assert(inv_owner(t)) by {
        assert forall|k: int| !(#[trigger] server_holds(s.server.phase, k)) by {}
        assert forall|k: int| !(#[trigger] server_holds(t.server.phase, k)) by {}
    }
    assert(inv_place(t));
    assert(inv_buffers(t));
    assert(inv_closing(t));
}

/// Taking every index that is left, by the server, keeps the invariant.
proof fn lemma_server_claims(s: System)
    requires
        inv(s),
        s.server.phase is Claim,
        s.channel.available + CHANNEL_MAX_TASK <= u32::MAX,
    ensures
        inv(server_steps(s)),
{
    let t = server_steps(s);
    assert(inv_active(t));
    assert(inv_slots(t)) by {
        assert forall|k: int| 0 <= k < taken(t.channel) implies
            #[trigger] t.ledger.published.contains(k) || t.ledger.owner.contains_key(k) by {
            if k < taken(s.channel) {
                assert(s.ledger.published.contains(k) || s.ledger.owner.contains_key(k));
            }
        }
    }
    assert(inv_owner(t)) by {
        assert forall|k: int| !(#[trigger] server_holds(s.server.phase, k)) by {}
        assert forall|k: int| #[trigger] t.ledger.owner.contains_key(k) implies ({
            let who = t.ledger.owner[k];
            if who == server_owner() {
                server_holds(t.server.phase, k)
            } else {
                0 <= who < t.calls.len() && call_holds(t.calls[who].phase, k)
            }
        }) by {
            if s.ledger.owner.contains_key(k) {
                assert(s.ledger.owner[k] != server_owner());
            }
        }
        assert forall|k: int| #[trigger] server_holds(t.server.phase, k) implies
            t.ledger.owner.contains_key(k) && t.ledger.owner[k] == server_owner() by {
            assert(!s.ledger.owner.contains_key(k));
        }
        assert forall|j: int, k: int|
            0 <= j < t.calls.len() && #[trigger] call_holds(t.calls[j].phase, k) implies
            t.ledger.owner.contains_key(k) && t.ledger.owner[k] == j by {
            assert(call_holds(s.calls[j].phase, k));
        }
    }
    assert(inv_place(t));
    assert(inv_buffers(t));
    assert(inv_closing(t));
}

/// Writing a task that does nothing to a slot that the server holds keeps the invariant.
proof fn lemma_server_fills(s: System)
    requires
        inv(s),
        s.server.phase is Fill,
    ensures
        inv(server_steps(s)),
{
    let t = server_steps(s);
    let x = s.server.phase->Fill_index as int;
    assert(server_holds(s.server.phase, x));
    lemma_same_slots(s.channel, x);
    assert(t.channel.slots =~= s.channel.slots);
    assert forall|k: int| #[trigger] server_holds(t.server.phase, k) == server_holds(
        s.server.phase,
        k,
    ) by {}
    assert(inv_active(t));
    assert(inv_slots(t));
    assert(inv_owner(t)) by {
        assert forall|k: int| #[trigger] t.ledger.owner.contains_key(k) implies ({
            let who = t.ledger.owner[k];
            if who == server_owner() {
                server_holds(t.server.phase, k)
            } else {
                0 <= who < t.calls.len() && call_holds(t.calls[who].phase, k)
            }
        }) by {
            assert(s.ledger.owner.contains_key(k));
        }
    }
    assert(inv_place(t));
    assert(inv_buffers(t));
    assert(inv_closing(t));
}

/// Counting the slots that the server filled keeps the invariant.
proof fn lemma_server_counts(s: System)
    requires
        inv(s),
        s.server.phase is Count,
    ensures
        inv(server_steps(s)),
{
    let t = server_steps(s);
    let start = s.server.phase->Count_start as int;
    assert forall|k: int| start <= k < CHANNEL_MAX_TASK implies #[trigger] s.ledger.owner.contains_key(k)
        && s.ledger.owner[k] == server_owner() by {
        assert(server_holds(s.server.phase, k));
    }
    lemma_counted(s, start);
    assert(s.ledger.owner.contains_key(start));
    assert(inv_active(t));
    assert(inv_slots(t)) by {
        assert(taken(s.channel) == CHANNEL_MAX_TASK) by {
            assert(s.ledger.owner.contains_key(CHANNEL_MAX_TASK - 1));
        }
        assert forall|k: int| 0 <= k < taken(t.channel) implies #[trigger] t.ledger.published.contains(k)
                || t.ledger.owner.contains_key(k) by {
            assert(s.ledger.published.contains(k) || s.ledger.owner.contains_key(k));
        }
    }
    assert(inv_owner(t)) by {
        assert forall|k: int| !(#[trigger] server_holds(t.server.phase, k)) by {}
        assert forall|k: int| #[trigger] t.ledger.owner.contains_key(k) implies ({
            let who = t.ledger.owner[k];
            if who == server_owner() {
                server_holds(t.server.phase, k)
            } else {
                0 <= who < t.calls.len() && call_holds(t.calls[who].phase, k)
            }
        }) by {
            assert(s.ledger.owner.contains_key(k));
            assert(!server_holds(s.server.phase, k));
        }
        assert forall|j: int, k: int|
            0 <= j < t.calls.len() && #[trigger] call_holds(t.calls[j].phase, k) implies
            t.ledger.owner.contains_key(k) && t.ledger.owner[k] == j by {
            assert(call_holds(s.calls[j].phase, k));
            assert(k < CHANNEL_MAX_TASK);
        }
    }
    assert(inv_place(t));
    assert(inv_buffers(t)) by {
        assert forall|k: int| !(#[trigger] server_holds(t.server.phase, k)) by {}
    }
    assert(inv_closing(t));
}

/// A step of the server keeps the invariant.
pub proof fn law_inv_server(s: System)
    requires
        inv(s),
        server_fits(s),
    ensures
        inv(server_steps(s)),
{
    match s.server.phase {
        ServerPhase::Execute { index } => lemma_server_executes(s),
        ServerPhase::Swap => lemma_server_swaps(s),
        ServerPhase::ResetCount => lemma_server_resets(s),
        ServerPhase::ResetIndex => lemma_server_resets(s),
        ServerPhase::Claim => lemma_server_claims(s),
        ServerPhase::Fill { start, index } => lemma_server_fills(s),
        ServerPhase::Count { start } => lemma_server_counts(s),
        _ => lemma_server_looks(s),
    }
}

/// The invariant holds in every state of a run, however the threads interleave.
pub proof fn law_inv_run(run: Seq<System>, n: int)
    requires
        is_run(run),
        0 <= n < run.len(),
    ensures
        inv(run[n]),
    decreases n,
{
    if n == 0 {
        law_inv_init(run[0]);
    } else {
        law_inv_run(run, n - 1);
        let s = run[n - 1];
        let t = run[n - 1 + 1];
        assert(next(s, t));
        if t == server_steps(s) && server_fits(s) {
            law_inv_server(s);
        } else if t == closer_steps(s) {
            law_inv_closer(s);
        } else {
            let i = choose|i: int|
                0 <= i < s.calls.len() && call_fits(s, i) && t == #[trigger] call_steps(s, i);
            law_inv_call(s, i);
        }
    }
}

/// No task runs twice, only a task that some call wrote runs, and the task of a call that the
/// channel refused never runs: the call still holds it.
pub proof fn law_runs_at_most_once(run: Seq<System>, n: int)
    requires
        is_run(run),
        0 <= n < run.len(),
    ensures
        run[n].executed.no_duplicates(),
        forall|i: int| #[trigger]
            run[n].executed.contains(i) ==> 0 <= i < run[n].calls.len() && has_written(
                run[n].calls[i],
            ),
        forall|i: int|
            0 <= i < run[n].calls.len() && (#[trigger] run[n].calls[i]).kind is Enqueue
                && run[n].calls[i].phase is Rejected ==> !run[n].executed.contains(i)
                && run[n].calls[i].task == Some(i),
{
    law_inv_run(run, n);
    let s = run[n];
    assert forall|i: int| #[trigger] s.executed.contains(i) implies 0 <= i < s.calls.len()
        && has_written(s.calls[i]) by {
        assert(s.ledger.place.contains_key(i));
    }
}

/// When the server stops, every task that the channel accepted has run, and exactly once; no call
/// is at work on the queue, and nothing is left in it.
pub proof fn law_drained_when_stopped(run: Seq<System>, n: int)
    requires
        is_run(run),
        0 <= n < run.len(),
        run[n].server.phase is Stopped,
    ensures
        forall|i: int|
            0 <= i < run[n].calls.len() && (#[trigger] run[n].calls[i]).kind is Enqueue
                && run[n].calls[i].phase is Accepted ==> run[n].executed.contains(i),
        run[n].executed.no_duplicates(),
        forall|i: int| 0 <= i < run[n].calls.len() ==> !is_working((#[trigger] run[n].calls[i]).phase),
        forall|b: int, k: int|
            0 <= b < 2 && 0 <= k < CHANNEL_MAX_TASK ==> (#[trigger] run[n].channel.slots[b][k]) is None,
{
    law_inv_run(run, n);
    let s = run[n];
    assert(s.ledger.published =~= Set::<int>::empty());
    assert forall|k: int| !(#[trigger] s.ledger.owner.contains_key(k)) by {
        if s.ledger.owner.contains_key(k) {
            let who = s.ledger.owner[k];
            assert(!server_holds(s.server.phase, k));
            assert(!is_working(s.calls[who].phase));
        }
    }
    assert(taken(s.channel) == 0) by {
        if taken(s.channel) > 0 {
            assert(s.ledger.published.contains(0) || s.ledger.owner.contains_key(0));
        }
    }
    let q = s.channel.queue;
    assert forall|b: int, k: int| 0 <= b < 2 && 0 <= k < CHANNEL_MAX_TASK implies (
    #[trigger] s.channel.slots[b][k]) is None by {
        if b == q {
            assert(s.channel.slots[q][k] is None);
        } else {
            assert(b == 1 - q);
            assert(s.channel.slots[1 - q][k] is None);
        }
    }
    assert forall|i: int|
        0 <= i < s.calls.len() && (#[trigger] s.calls[i]).kind is Enqueue
            && s.calls[i].phase is Accepted implies s.executed.contains(i) by {
        assert(has_written(s.calls[i]));
        assert(s.ledger.place.contains_key(i));
    }
}

/// Once the server stopped, no later step lets a call in: every call that is not over yet is
/// refused.
pub proof fn law_nothing_accepted_after_stop(s: System, t: System)
    requires
        inv(s),
        next(s, t),
        s.server.phase is Stopped,
    ensures
        t.server.phase is Stopped,
        t.executed == s.executed,
        forall|i: int|
            0 <= i < t.calls.len() && (#[trigger] t.calls[i]).phase is Accepted
                ==> s.calls[i].phase is Accepted,
{
    if t != server_steps(s) && t != closer_steps(s) {
        let i = choose|i: int| 0 <= i < s.calls.len() && t == #[trigger] call_steps(s, i);
        assert(!is_working(s.calls[i].phase));
    }
}

} // verus!
