//! What holds of a generation whatever its owners, its runner and its closers do, in any order.

use crate::generation::{
    joiner_thread_name, BeginClose, Close, GenerationCounters, GenerationStatus, JoinRunner, RuntimeGeneration,
};
use crate::ids::{DeviceGenerationId, DeviceServiceStage, RunnerId};
use vstd::prelude::*;

verus! {

use crate::decimal::{decimal_digits, lemma_cut_number};
use crate::generation::{release_spec, released, runner_name};

/// Something that happens to a generation.
pub enum GenerationOp {
    /// A lease is taken by an owner that already has one.
    Lease,
    /// A lease is asked for by somebody who found the generation in a registry.
    Upgrade,
    /// A lease is given up.
    Release {
        /// Whether this happens on the runner thread.
        on_runner: bool,
    },
    /// The runner or a task takes a reference.
    Reference,
    /// The runner or a task drops its reference.
    Dereference,
    /// The runner thread was started.
    Started,
    /// The runner thread enters its loop.
    Running,
    /// Somebody closes the generation by force.
    CloseForced {
        /// Whether this happens on the runner thread.
        on_runner: bool,
    },
    /// Somebody waits for the runner to be joined.
    Join,
    /// The thread that joins the runner has joined it.
    Joined {
        /// Whether the runner panicked.
        panicked: bool,
    },
    /// The thread that was to join the runner could not be started.
    DelegationFailed,
}

/// The generation after something happened.
pub open spec fn apply(g: RuntimeGeneration, op: GenerationOp) -> RuntimeGeneration {
    match op {
        GenerationOp::Lease => g.leased(),
        GenerationOp::Upgrade => if g.upgrade_spec() is Ready {
            g.leased()
        } else {
            g
        },
        GenerationOp::Release { on_runner } => released(g, on_runner),
        GenerationOp::Reference => RuntimeGeneration {
            internal_count: g.internal_count.wrapping_add(1),
            ..g
        },
        GenerationOp::Dereference => RuntimeGeneration {
            internal_count: g.internal_count.wrapping_sub(1),
            ..g
        },
        GenerationOp::Started => RuntimeGeneration { joinable: true, ..g },
        GenerationOp::Running => if g.status is Starting {
            RuntimeGeneration { status: GenerationStatus::Running, ..g }
        } else {
            g
        },
        GenerationOp::CloseForced { on_runner } => g.after_close_call(false, on_runner),
        GenerationOp::Join => RuntimeGeneration { joinable: false, ..g },
        GenerationOp::Joined { panicked } => g.after_close(panicked),
        GenerationOp::DelegationFailed => RuntimeGeneration { join_delegated: false, ..g },
    }
}

/// The generation after a sequence of things happened.
pub open spec fn apply_all(g: RuntimeGeneration, ops: Seq<GenerationOp>) -> RuntimeGeneration
    decreases ops.len(),
{
    if ops.len() == 0 {
        g
    } else {
        apply(apply_all(g, ops.drop_last()), ops.last())
    }
}

/// By how much the closed generations grow while something happens.
pub open spec fn closes(g: RuntimeGeneration, op: GenerationOp) -> int {
    match op {
        GenerationOp::Joined { panicked } => if g.status is Closed {
            0
        } else {
            1
        },
        _ => 0,
    }
}

/// By how much the closed generations grow while a sequence of things happens.
pub open spec fn closes_all(g: RuntimeGeneration, ops: Seq<GenerationOp>) -> int
    decreases ops.len(),
{
    if ops.len() == 0 {
        0
    } else {
        closes_all(g, ops.drop_last()) + closes(apply_all(g, ops.drop_last()), ops.last())
    }
}

/// A thread is told to join the runner.
pub open spec fn joins(g: RuntimeGeneration, op: GenerationOp) -> bool {
    match op {
        GenerationOp::Release { on_runner } => g.external_count == 1 && g.unleased().close_spec(
            true,
            on_runner,
        ) == Close::Join(JoinRunner::Join),
        GenerationOp::CloseForced { on_runner } => g.close_spec(false, on_runner) == Close::Join(
            JoinRunner::Join,
        ),
        GenerationOp::Join => g.join_runner_spec() is Join,
        _ => false,
    }
}

/// A generation keeps its number and its runner, and its life only goes forward: once it closes it
/// never takes work again.
pub proof fn law_life_goes_forward(g: RuntimeGeneration, ops: Seq<GenerationOp>)
    ensures
        apply_all(g, ops).id == g.id,
        apply_all(g, ops).runner_id == g.runner_id,
        apply_all(g, ops).status.rank() >= g.status.rank(),
        !g.status.is_open() ==> !apply_all(g, ops).status.is_open(),
    decreases ops.len(),
{
    if ops.len() > 0 {
        law_life_goes_forward(g, ops.drop_last());
    }
}

/// However many closers there are, a generation is counted as closed at most once, and exactly
/// when it becomes closed.
pub proof fn law_counted_once(g: RuntimeGeneration, ops: Seq<GenerationOp>)
    ensures
        0 <= closes_all(g, ops) <= 1,
        closes_all(g, ops) == 1 <==> !(g.status is Closed) && apply_all(g, ops).status is Closed,
    decreases ops.len(),
{
    if ops.len() > 0 {
        law_counted_once(g, ops.drop_last());
        law_life_goes_forward(g, ops.drop_last());
    }
}

/// While a lease is left, nothing but a forced close closes an open generation.
pub proof fn law_lease_keeps_open(g: RuntimeGeneration, op: GenerationOp)
    requires
        g.status.is_open(),
        apply(g, op).external_count != 0,
        !(op is CloseForced),
        !(op is Joined),
    ensures
        apply(g, op).status.is_open(),
{
}

/// The last lease closes an open generation; the thread that gives it up waits for the runner,
/// unless it is the runner.
pub proof fn law_last_lease_closes(g: RuntimeGeneration, on_runner: bool)
    requires
        g.status.is_open(),
        g.external_count == 1,
    ensures
        released(g, on_runner).status is Closing,
        released(g, on_runner).external_count == 0,
        g.unleased().close_spec(true, on_runner) is Delegate <==> on_runner,
        g.unleased().close_spec(true, on_runner) is Join <==> !on_runner,
{
}

/// A runner never waits for itself.
pub proof fn law_runner_never_joins_itself(g: RuntimeGeneration, only_if_unowned: bool)
    ensures
        !(g.close_spec(only_if_unowned, true) is Join),
{
}

/// Taking a lease and giving it up leaves the owners as they were; leases and the references of
/// the runner are counted independently.
pub proof fn law_counts_are_independent(g: RuntimeGeneration, on_runner: bool)
    requires
        g.external_count > 0,
    ensures
        g.leased().unleased() == g,
        g.leased().internal_count == g.internal_count,
        g.external_count < usize::MAX ==> released(g.leased(), on_runner) == g,
        apply(g, GenerationOp::Reference).external_count == g.external_count,
        apply(apply(g, GenerationOp::Reference), GenerationOp::Dereference) == g,
{
}

/// Closing by force a second time changes nothing, and finds the generation closing already.
pub proof fn law_forced_close_idempotent(g: RuntimeGeneration, first: bool, second: bool)
    ensures
        ({
            let once = g.after_close_call(false, first);
            &&& once.begin_close_spec(false) is AlreadyClosing
            &&& once.after_close_call(false, second).status == once.status
            &&& once.after_close_call(false, first) == once
        }),
{
}

/// The runner thread is joined by one thread only, as long as it is started once.
pub proof fn law_joined_by_one(g: RuntimeGeneration, ops: Seq<GenerationOp>, i: int, j: int)
    requires
        0 <= i < j < ops.len(),
        forall|n: int| 0 <= n < ops.len() ==> !((#[trigger] ops[n]) is Started),
        joins(apply_all(g, ops.take(i)), ops[i]),
    ensures
        !joins(apply_all(g, ops.take(j)), ops[j]),
{
    let s = apply_all(g, ops.take(i));
    assert(ops.take(i + 1).drop_last() =~= ops.take(i));
    assert(apply_all(g, ops.take(i + 1)) == apply(s, ops[i]));
    assert(!apply(s, ops[i]).joinable);
    lemma_stays_unjoinable(g, ops, i + 1, j);
}

proof fn lemma_stays_unjoinable(g: RuntimeGeneration, ops: Seq<GenerationOp>, i: int, j: int)
    requires
        0 <= i <= j <= ops.len(),
        forall|n: int| 0 <= n < ops.len() ==> !((#[trigger] ops[n]) is Started),
        !apply_all(g, ops.take(i)).joinable,
    ensures
        !apply_all(g, ops.take(j)).joinable,
    decreases j - i,
{
    if i < j {
        lemma_stays_unjoinable(g, ops, i, j - 1);
        assert(ops.take(j).drop_last() =~= ops.take(j - 1));
        assert(ops.take(j).last() == ops[j - 1]);
    }
}

/// A panic of the runner is never forgotten: everybody who waits for the closed generation learns
/// of it.
pub proof fn law_panic_is_reported(g: RuntimeGeneration, ops: Seq<GenerationOp>)
    requires
        g.runner_panicked,
        g.status is Closed,
    ensures
        apply_all(g, ops).runner_panicked,
        !apply_all(g, ops).joinable ==> apply_all(g, ops).join_runner_spec() is Panicked,
    decreases ops.len(),
{
    law_life_goes_forward(g, ops);
    if ops.len() > 0 {
        law_panic_is_reported(g, ops.drop_last());
    }
}

/// A new generation has its own number and no owner, waits for its runner to start, and is the one
/// more that was created.
pub proof fn law_new_generation(counters: GenerationCounters, runner_id: RunnerId)
    ensures
        ({
            let g = RuntimeGeneration::fresh(counters.next_id, runner_id);
            let after = counters.after_create();
            &&& g.id.0 == counters.next_id
            &&& g.runner_id == runner_id
            &&& g.status is Starting
            &&& g.external_count == 0
            &&& g.internal_count == 0
            &&& !g.runner_panicked
            &&& !g.joinable
            &&& !g.join_delegated
            &&& after.next_id != counters.next_id
            &&& counters.next_id < u64::MAX ==> after.next_id == counters.next_id + 1
            &&& counters.created < u64::MAX ==> after.created == counters.created + 1
            &&& after.closed == counters.closed
        }),
{
}

/// A lease is to be had exactly while the generation takes work; while it closes there is something
/// to wait for, and once it is closed there is nothing. A lease that is taken counts as one owner
/// more, and changes nothing else.
pub proof fn law_lease_is_to_be_had_while_open(g: RuntimeGeneration)
    ensures
        g.upgrade_spec() is Ready <==> g.status is Starting || g.status is Running,
        g.upgrade_spec() is Closing <==> g.status is Closing,
        g.upgrade_spec() is Gone <==> g.status is Closed,
        g.external_count < usize::MAX ==> g.leased().external_count == g.external_count + 1,
        g.external_count > 0 ==> g.unleased().external_count == g.external_count - 1,
        g.leased().status == g.status && g.unleased().status == g.status,
        g.leased().internal_count == g.internal_count && g.unleased().internal_count
            == g.internal_count,
        g.leased().joinable == g.joinable && g.unleased().joinable == g.joinable,
        g.leased().runner_panicked == g.runner_panicked,
        !(apply(g, GenerationOp::Upgrade) == g) ==> g.status.is_open(),
{
}

/// Closing starts exactly if the generation takes work and, where that is asked for, nobody has a
/// lease; it changes where the generation is in its life, and nothing else.
pub proof fn law_closing_starts_once(g: RuntimeGeneration, only_if_unowned: bool)
    ensures
        ({
            let open = g.status is Starting || g.status is Running;
            let after = g.after_begin_close(only_if_unowned);
            &&& g.begin_close_spec(only_if_unowned) == (if !open {
                BeginClose::AlreadyClosing
            } else if only_if_unowned && g.external_count > 0 {
                BeginClose::Shared
            } else {
                BeginClose::Started
            })
            &&& after.status is Closing <==> g.status is Closing || g.begin_close_spec(
                only_if_unowned,
            ) is Started
            &&& !(after.status is Closing) ==> after == g
            &&& after.external_count == g.external_count
            &&& after.internal_count == g.internal_count
            &&& after.joinable == g.joinable
            &&& after.runner_panicked == g.runner_panicked
            &&& after.begin_close_spec(only_if_unowned) !is Started
        }),
{
}

/// Whoever waits for the runner joins it if nobody began to, waits while somebody else does, and
/// learns how it ended once the generation is closed.
pub proof fn law_waiting_for_the_runner(g: RuntimeGeneration, panicked: bool)
    ensures
        g.join_runner_spec() is Join <==> g.joinable,
        g.join_runner_spec() is Wait <==> !g.joinable && !(g.status is Closed),
        g.join_runner_spec() is Panicked <==> !g.joinable && g.status is Closed
            && g.runner_panicked,
        g.join_runner_spec() is Joined <==> !g.joinable && g.status is Closed
            && !g.runner_panicked,
        ({
            let over = apply(apply(g, GenerationOp::Join), GenerationOp::Joined { panicked });
            &&& over.status is Closed
            &&& over.join_runner_spec() is Panicked <==> g.runner_panicked || panicked
            &&& over.join_runner_spec() is Joined <==> !g.runner_panicked && !panicked
            &&& over.external_count == g.external_count
            &&& over.internal_count == g.internal_count
        }),
{
}

/// The runner starts a thread to join it if it is still to be joined and no thread was started for
/// that; it starts one only once, unless starting failed.
pub proof fn law_one_thread_joins_for_the_runner(g: RuntimeGeneration)
    ensures
        g.finish_close_spec(true) == Close::Delegate(g.joinable && !g.join_delegated),
        g.after_finish_close(true).finish_close_spec(true) == Close::Delegate(false),
        g.joinable ==> apply(
            g.after_finish_close(true),
            GenerationOp::DelegationFailed,
        ).finish_close_spec(true) == Close::Delegate(true),
        g.after_finish_close(true).joinable == g.joinable,
        g.after_finish_close(true).status == g.status,
        g.after_finish_close(false).status == g.status,
        !g.after_finish_close(false).joinable,
{
}

/// Giving up a lease keeps the generation for its other owners; the last one closes it and waits
/// for the runner, or leaves that to another thread. Only a generation that takes work starts to
/// close.
pub proof fn law_release_by_owners(g: RuntimeGeneration, on_runner: bool)
    ensures
        g.external_count > 1 ==> release_spec(g, on_runner) is Shared && released(
            g,
            on_runner,
        ).status == g.status && released(g, on_runner).external_count == g.external_count - 1
            && released(g, on_runner).joinable == g.joinable,
        g.external_count == 1 ==> !(release_spec(g, on_runner) is Shared),
        g.external_count == 1 && g.status.is_open() && !on_runner ==> (release_spec(g, on_runner)
            == Close::Join(JoinRunner::Join) <==> g.joinable),
        g.external_count == 1 && g.status is Closed && !g.joinable && !on_runner ==> release_spec(
            g,
            on_runner,
        ) == Close::Join(
            if g.runner_panicked {
                JoinRunner::Panicked
            } else {
                JoinRunner::Joined
            },
        ),
{
}

/// A generation that anybody refers to is not forgotten; one that nobody refers to is, once it is
/// closed, and also while its runner is still to be joined and nobody was started to do so.
pub proof fn law_referred_to_is_not_forgotten(g: RuntimeGeneration)
    ensures
        g.external_count > 0 || g.internal_count > 0 ==> !g.is_forgotten_spec(),
        g.external_count == 0 && g.internal_count == 0 && g.status is Closed
            ==> g.is_forgotten_spec(),
        g.external_count == 0 && g.internal_count == 0 && !(g.status is Closed) ==> (
        g.is_forgotten_spec() <==> g.joinable && !g.join_delegated),
{
}

/// Closing counts exactly where the generation was not closed yet.
pub proof fn law_close_is_counted(g: RuntimeGeneration, panicked: bool, closed: u64)
    requires
        closed < u64::MAX,
    ensures
        g.count_close(closed) == closed + 1 <==> !(g.status is Closed),
        g.count_close(closed) == closed <==> g.status is Closed,
        g.after_close(panicked).count_close(closed) == closed,
{
}

/// The name of a runner thread tells its stage, its device and its generation: no two runners, and
/// no two generations of one, have the same.
pub proof fn law_runner_names_are_distinct(
    a: RunnerId,
    b: RunnerId,
    x: DeviceGenerationId,
    y: DeviceGenerationId,
)
    requires
        runner_name(a, x) == runner_name(b, y),
    ensures
        a == b,
        x == y,
{
    reveal_strlit("DS");
    reveal_strlit("U");
    reveal_strlit("D");
    reveal_strlit("-");
    reveal_strlit("-g");
    let (s, t) = (lemma_stage(a), lemma_stage(b));
    let (s1, t1) = (
        s + "-"@ + decimal_digits(a.device.type_id as nat),
        t + "-"@ + decimal_digits(b.device.type_id as nat),
    );
    let (s2, t2) = (
        s1 + "-"@ + decimal_digits(a.device.index_id as nat),
        t1 + "-"@ + decimal_digits(b.device.index_id as nat),
    );
    lemma_cut_number(s2, t2, "-g"@, x.0 as nat, y.0 as nat);
    lemma_cut_number(s1, t1, "-"@, a.device.index_id as nat, b.device.index_id as nat);
    lemma_cut_number(s, t, "-"@, a.device.type_id as nat, b.device.type_id as nat);
    assert(s[2] == t[2]);
}

proof fn lemma_stage(runner: RunnerId) -> (stage: Seq<char>)
    ensures
        stage == "DS"@ + (match runner.stage {
            DeviceServiceStage::Upstream => "U"@,
            DeviceServiceStage::Downstream => "D"@,
        }),
        stage.len() == 3,
        stage[2] == (if runner.stage is Upstream {
            'U'
        } else {
            'D'
        }),
{
    reveal_strlit("DS");
    reveal_strlit("U");
    reveal_strlit("D");
    "DS"@ + (match runner.stage {
        DeviceServiceStage::Upstream => "U"@,
        DeviceServiceStage::Downstream => "D"@,
    })
}

/// The name of the thread that joins a runner tells the device, and is never that of a runner.
pub proof fn law_joiner_names(
    a: RunnerId,
    b: RunnerId,
    id: DeviceGenerationId,
    first: String,
    second: String,
)
    requires
        call_ensures(joiner_thread_name, (a,), first),
        call_ensures(joiner_thread_name, (b,), second),
    ensures
        first@ == second@ <==> a.device == b.device,
        first@ != runner_name(b, id),
{
    reveal_strlit("DS-J-");
    reveal_strlit("-");
    let (x, y) = (
        "DS-J-"@ + decimal_digits(a.device.type_id as nat),
        "DS-J-"@ + decimal_digits(b.device.type_id as nat),
    );
    if first@ == second@ {
        lemma_cut_number(x, y, "-"@, a.device.index_id as nat, b.device.index_id as nat);
        let none = Seq::<char>::empty();
        assert(x =~= none + "DS-J-"@ + decimal_digits(a.device.type_id as nat));
        assert(y =~= none + "DS-J-"@ + decimal_digits(b.device.type_id as nat));
        lemma_cut_number(
            none,
            none,
            "DS-J-"@,
            a.device.type_id as nat,
            b.device.type_id as nat,
        );
    }
    let stage = lemma_stage(b);
    assert(first@[2] == '-');
    assert(runner_name(b, id)[2] == stage[2]);
}

} // verus!
