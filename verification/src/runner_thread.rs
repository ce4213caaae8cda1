//! What the thread of a runner does, from when it is started to its end.

use vstd::prelude::*;

verus! {

use crate::channel_laws::{
    call_fits, call_steps, closer_steps, init, inv, law_inv_call, law_inv_closer, law_inv_init,
    law_inv_server, server_fits, server_steps, System,
};
use crate::channel_progress::{has_stopped, law_stopped_is_drained};

/// What the thread of a runner is at.
#[derive(Clone, Copy, Debug, PartialEq, Eq, Structural)]
pub enum RunnerPhase {
    /// It runs what was given to begin with.
    Init,
    /// It reports that the runner runs.
    Mark,
    /// It serves the channel, until the server stops.
    Serve,
    /// It runs what was given to end with.
    Shutdown,
    /// It gives up its reference to the generation.
    Release {
        /// Whether something panicked.
        panicked: bool,
    },
    /// It ends.
    Over {
        /// Whether something panicked, and so the thread does.
        panicked: bool,
    },
}

/// What came of what the thread was at.
#[derive(Clone, Copy, Debug, PartialEq, Eq, Structural)]
pub enum RunnerEvent {
    /// It returned.
    Returned,
    /// It panicked.
    Panicked,
}

/// What the thread of a runner is at next: what was given to end with comes once the server has
/// stopped, and whatever panics, the reference to the generation is given up before the end.
pub open spec fn runner_step(phase: RunnerPhase, event: RunnerEvent) -> RunnerPhase {
    match phase {
        RunnerPhase::Release { panicked } => RunnerPhase::Over { panicked },
        RunnerPhase::Over { panicked } => RunnerPhase::Over { panicked },
        _ => match event {
            RunnerEvent::Panicked => RunnerPhase::Release { panicked: true },
            RunnerEvent::Returned => match phase {
                RunnerPhase::Init => RunnerPhase::Mark,
                RunnerPhase::Mark => RunnerPhase::Serve,
                RunnerPhase::Serve => RunnerPhase::Shutdown,
                _ => RunnerPhase::Release { panicked: false },
            },
        },
    }
}

/// The thread of a runner.
#[derive(Clone, Copy, Debug, PartialEq, Eq, Structural)]
pub struct RunnerThread {
    /// What it is at.
    pub phase: RunnerPhase,
}

impl RunnerThread {
    /// A thread that was just started.
    pub fn start() -> (thread: Self)
        ensures
            thread.phase is Init,
    {
        RunnerThread { phase: RunnerPhase::Init }
    }

    /// Goes on after what the thread was at.
    pub fn step(&mut self, event: RunnerEvent)
        ensures
            final(self).phase == runner_step(old(self).phase, event),
    {
        self.phase = match self.phase {
            RunnerPhase::Release { panicked } => RunnerPhase::Over { panicked },
            RunnerPhase::Over { panicked } => RunnerPhase::Over { panicked },
            phase => match event {
                RunnerEvent::Panicked => RunnerPhase::Release { panicked: true },
                RunnerEvent::Returned => match phase {
                    RunnerPhase::Init => RunnerPhase::Mark,
                    RunnerPhase::Mark => RunnerPhase::Serve,
                    RunnerPhase::Serve => RunnerPhase::Shutdown,
                    _ => RunnerPhase::Release { panicked: false },
                },
            },
        };
    }
}

/// A channel with the threads around it, and the thread of its runner.
#[verifier::ext_equal]
pub struct RunnerSystem {
    /// The channel, its server, its clients and the thread that closes it.
    pub system: System,
    /// What the thread of the runner is at.
    pub phase: RunnerPhase,
    /// How often what was given to end with was begun.
    pub shutdowns: nat,
}

/// The thread of the runner goes on. Serving returns once the server has stopped, and does not
/// panic: what a task does is caught.
pub open spec fn thread_steps(s: RunnerSystem, event: RunnerEvent) -> RunnerSystem {
    let phase = runner_step(s.phase, event);
    RunnerSystem {
        phase,
        shutdowns: if phase is Shutdown && !(s.phase is Shutdown) {
            s.shutdowns + 1
        } else {
            s.shutdowns
        },
        ..s
    }
}

/// One thread took one step, and no word wrapped around. The server takes its steps while the
/// thread of the runner serves.
pub open spec fn runner_next(s: RunnerSystem, t: RunnerSystem) -> bool {
    ||| {
        &&& s.phase is Serve
        &&& server_fits(s.system)
        &&& t == (RunnerSystem { system: server_steps(s.system), ..s })
    }
    ||| t == (RunnerSystem { system: closer_steps(s.system), ..s })
    ||| exists|i: int|
        0 <= i < s.system.calls.len() && call_fits(s.system, i) && t == (RunnerSystem {
            system: #[trigger] call_steps(s.system, i),
            ..s
        })
    ||| exists|event: RunnerEvent|
        {
            &&& t == #[trigger] thread_steps(s, event)
            &&& s.phase is Serve ==> event is Returned && s.system.server.phase is Stopped
        }
}

/// A run of a runner from its start.
pub open spec fn is_runner_run(run: Seq<RunnerSystem>) -> bool {
    &&& run.len() > 0
    &&& init(run[0].system)
    &&& run[0].phase is Init
    &&& run[0].shutdowns == 0
    &&& forall|n: int| 0 <= n < run.len() - 1 ==> runner_next(#[trigger] run[n], run[n + 1])
}

spec fn runner_inv(s: RunnerSystem) -> bool {
    &&& inv(s.system)
    &&& s.shutdowns <= 1
    &&& s.shutdowns == 1 ==> s.system.server.phase is Stopped
    &&& match s.phase {
        RunnerPhase::Init => s.shutdowns == 0,
        RunnerPhase::Mark => s.shutdowns == 0,
        RunnerPhase::Serve => s.shutdowns == 0,
        RunnerPhase::Shutdown => s.shutdowns == 1,
        RunnerPhase::Release { panicked } => !panicked ==> s.shutdowns == 1,
        RunnerPhase::Over { panicked } => !panicked ==> s.shutdowns == 1,
    }
}

proof fn lemma_runner_inv(s: RunnerSystem, t: RunnerSystem)
    requires
        runner_inv(s),
        runner_next(s, t),
    ensures
        runner_inv(t),
{
    if s.phase is Serve && server_fits(s.system) && t == (RunnerSystem {
        system: server_steps(s.system),
        ..s
    }) {
        law_inv_server(s.system);
    } else if t == (RunnerSystem { system: closer_steps(s.system), ..s }) {
        law_inv_closer(s.system);
    } else if exists|i: int|
        0 <= i < s.system.calls.len() && call_fits(s.system, i) && t == (RunnerSystem {
            system: #[trigger] call_steps(s.system, i),
            ..s
        }) {
        let i = choose|i: int|
            0 <= i < s.system.calls.len() && call_fits(s.system, i) && t == (RunnerSystem {
                system: #[trigger] call_steps(s.system, i),
                ..s
            });
        law_inv_call(s.system, i);
    }
}

proof fn lemma_runner_run(run: Seq<RunnerSystem>, n: int)
    requires
        is_runner_run(run),
        0 <= n < run.len(),
    ensures
        runner_inv(run[n]),
    decreases n,
{
    if n == 0 {
        law_inv_init(run[0].system);
    } else {
        lemma_runner_run(run, n - 1);
        assert(runner_next(run[n - 1], run[n - 1 + 1]));
        lemma_runner_inv(run[n - 1], run[n - 1 + 1]);
    }
}

/// What was given to end with runs at most once, and only when every task that the channel accepted
/// has run, once. A thread that ended without a panic has run it; so who joined the thread knows
/// that all of that is over, and no call is accepted any more.
pub proof fn law_shutdown_runs_once(run: Seq<RunnerSystem>, n: int)
    requires
        is_runner_run(run),
        0 <= n < run.len(),
    ensures
        run[n].shutdowns <= 1,
        run[n].shutdowns == 1 ==> has_stopped(run[n].system),
        run[n].phase == (RunnerPhase::Over { panicked: false }) ==> {
            &&& run[n].shutdowns == 1
            &&& has_stopped(run[n].system)
            &&& !run[n].system.channel.accepting
        },
{
    lemma_runner_run(run, n);
    if run[n].shutdowns == 1 {
        law_stopped_is_drained(run[n].system);
    }
}

/// What the thread of a runner is at after a number of events.
pub open spec fn runner_after(events: Seq<RunnerEvent>) -> RunnerPhase
    decreases events.len(),
{
    if events.len() == 0 {
        RunnerPhase::Init
    } else {
        runner_step(runner_after(events.drop_last()), events.last())
    }
}

/// A thread in which nothing panics goes through all that it has to do, each once and in order, and
/// ends without a panic.
pub proof fn law_thread_ends_well(events: Seq<RunnerEvent>)
    requires
        forall|n: int| 0 <= n < events.len() ==> (#[trigger] events[n]) is Returned,
    ensures
        runner_after(events) == (if events.len() == 0 {
            RunnerPhase::Init
        } else if events.len() == 1 {
            RunnerPhase::Mark
        } else if events.len() == 2 {
            RunnerPhase::Serve
        } else if events.len() == 3 {
            RunnerPhase::Shutdown
        } else if events.len() == 4 {
            RunnerPhase::Release { panicked: false }
        } else {
            RunnerPhase::Over { panicked: false }
        }),
    decreases events.len(),
{
    if events.len() > 0 {
        let rest = events.drop_last();
        assert forall|n: int| 0 <= n < rest.len() implies (#[trigger] rest[n]) is Returned by {
            assert(rest[n] == events[n]);
        }
        law_thread_ends_well(rest);
        assert(events[events.len() - 1] is Returned);
    }
}

/// Whatever panics before the thread gives up its reference to the generation, it gives it up next
/// and then ends with a panic; what it was given to end with is begun exactly after it has served.
pub proof fn law_panic_is_passed_on(phase: RunnerPhase, event: RunnerEvent)
    ensures
        ({
            let next = runner_step(phase, event);
            let ending = phase is Release || phase is Over;
            &&& !ending && event is Panicked ==> next == (RunnerPhase::Release { panicked: true })
            &&& next == (RunnerPhase::Release { panicked: false }) <==> phase is Shutdown
                && event is Returned
            &&& next is Shutdown <==> phase is Serve && event is Returned
            &&& next is Serve <==> phase is Mark && event is Returned
            &&& next is Mark <==> phase is Init && event is Returned
            &&& phase matches RunnerPhase::Release { panicked } ==> next == (RunnerPhase::Over {
                panicked,
            })
            &&& phase is Over ==> next == phase
        }),
{
}

} // verus!
