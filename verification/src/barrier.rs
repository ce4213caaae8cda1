//! The barrier between threads that initialize services and a thread that shuts all of them down.

use crate::ids::DeviceServiceStage;
use vstd::prelude::*;

verus! {

/// How many services are being initialized, and whether all services are being shut down.
#[derive(Clone, Copy, Debug, PartialEq, Eq, Structural)]
pub struct LifecycleState {
    /// Number of threads that initialize a service.
    pub active_initializers: usize,
    /// Whether a thread shuts all services down.
    pub shutting_down: bool,
}

/// What the barrier answers a thread that wants to initialize a service.
#[derive(Clone, Copy, Debug, PartialEq, Eq, Structural)]
pub enum Admission {
    /// Go ahead; leave the barrier when done.
    Granted,
    /// Wait until the shutdown is over, then ask again.
    Wait,
    /// A device runner may not initialize a service of that stage while it is shut down.
    Refused,
}

impl Default for LifecycleState {
    fn default() -> (state: Self)
        ensures
            state == LifecycleState::idle(),
    {
        LifecycleState { active_initializers: 0, shutting_down: false }
    }
}

impl LifecycleState {
    /// Nothing is initialized and nothing is shut down.
    pub open spec fn idle() -> Self {
        LifecycleState { active_initializers: 0, shutting_down: false }
    }

    /// What the barrier answers.
    ///
    /// During a shutdown a runner may initialize a service of a later stage than its own, since
    /// those are shut down after it; a thread that is no runner waits.
    pub open spec fn admission(
        self,
        caller: Option<DeviceServiceStage>,
        target: DeviceServiceStage,
    ) -> Admission {
        if !self.shutting_down {
            Admission::Granted
        } else {
            match caller {
                Some(stage) => if stage.rank_spec() < target.rank_spec() {
                    Admission::Granted
                } else {
                    Admission::Refused
                },
                None => Admission::Wait,
            }
        }
    }

    /// The barrier after it answered.
    pub open spec fn after_admission(self, admission: Admission) -> Self {
        if admission is Granted {
            LifecycleState {
                active_initializers: (self.active_initializers + 1) as usize,
                ..self
            }
        } else {
            self
        }
    }

    /// Asks for leave to initialize a service; `caller` is the stage of the runner that asks.
    pub fn enter(&mut self, caller: Option<DeviceServiceStage>, target: DeviceServiceStage) -> (
    admission: Admission)
        requires
            old(self).active_initializers < usize::MAX,
        ensures
            admission == old(self).admission(caller, target),
            *final(self) == old(self).after_admission(admission),
    {
        if self.shutting_down {
            match caller {
                Some(stage) => {
                    if stage.rank() >= target.rank() {
                        return Admission::Refused;
                    }
                },
                None => {
                    return Admission::Wait;
                },
            }
        }
        self.active_initializers = self.active_initializers + 1;
        Admission::Granted
    }

    /// Gives the leave to initialize a service back.
    pub fn leave(&mut self)
        requires
            old(self).active_initializers > 0,
        ensures
            *final(self) == (LifecycleState {
                active_initializers: (old(self).active_initializers - 1) as usize,
                ..*old(self)
            }),
    {
        self.active_initializers = self.active_initializers - 1;
    }

    /// Closes the barrier for a shutdown, unless one is under way; returns whether it did.
    pub fn begin_shutdown(&mut self) -> (begun: bool)
        ensures
            begun == !old(self).shutting_down,
            *final(self) == (LifecycleState { shutting_down: true, ..*old(self) }),
    {
        if self.shutting_down {
            return false;
        }
        self.shutting_down = true;
        true
    }

    /// Returns whether nothing is being initialized.
    pub fn is_quiet(&self) -> (quiet: bool)
        ensures
            quiet == (self.active_initializers == 0),
    {
        self.active_initializers == 0
    }

    /// Opens the barrier after a shutdown.
    pub fn end_shutdown(&mut self)
        ensures
            *final(self) == (LifecycleState { shutting_down: false, ..*old(self) }),
    {
        self.shutting_down = false;
    }
}

/// Outside a shutdown everybody is let in; during one, only a runner that initializes a service of
/// a later stage than its own is, and a thread that is no runner is never refused.
pub proof fn law_barrier_admits(
    state: LifecycleState,
    caller: Option<DeviceServiceStage>,
    target: DeviceServiceStage,
)
    ensures
        !state.shutting_down ==> state.admission(caller, target) is Granted,
        state.shutting_down ==> (state.admission(caller, target) is Granted <==> caller == Some(
            DeviceServiceStage::Upstream,
        ) && target is Downstream),
        caller is None ==> !(state.admission(caller, target) is Refused),
        state.admission(caller, target) is Wait <==> state.shutting_down && caller is None,
        state.admission(caller, target) is Refused <==> state.shutting_down && caller is Some && !(
        caller == Some(DeviceServiceStage::Upstream) && target is Downstream),
        state.active_initializers < usize::MAX && state.admission(caller, target) is Granted
            ==> state.after_admission(state.admission(caller, target)) == (LifecycleState {
            active_initializers: (state.active_initializers + 1) as usize,
            shutting_down: state.shutting_down,
        }),
        !(state.admission(caller, target) is Granted) ==> state.after_admission(
            state.admission(caller, target),
        ) == state,
{
}

/// A shutdown that waits for the barrier to be quiet is not held up by the threads that it parks.
pub proof fn law_parked_thread_is_not_counted(state: LifecycleState, target: DeviceServiceStage)
    requires
        state.shutting_down,
    ensures
        state.after_admission(state.admission(None, target)).active_initializers
            == state.active_initializers,
{
}

} // verus!
