//! Workers that run a future and are joined once.

use vstd::prelude::*;
use vstd::string::StringExecFns;

verus! {

/// Error returned when a future worker panics while being joined.
#[derive(Clone, Copy, Debug, PartialEq, Eq, Structural)]
pub struct FutureWorkerError;

impl FutureWorkerError {
    /// Describes the error.
    pub fn message(&self) -> (text: String)
        ensures
            text@ == "future worker panicked"@,
    {
        String::from_str("future worker panicked")
    }
}

/// Owns a worker that runs a future, and has it joined once, at the latest when it is let go of.
#[derive(Debug, PartialEq, Eq, Structural)]
pub struct JoinOnDrop {
    running: bool,
}

impl JoinOnDrop {
    /// The worker was not joined yet.
    pub closed spec fn is_joinable(&self) -> bool {
        self.running
    }

    /// Owns a worker that was started.
    pub fn started() -> (worker: Self)
        ensures
            worker.is_joinable(),
    {
        JoinOnDrop { running: true }
    }

    /// Owns nothing to be joined.
    pub fn detached() -> (worker: Self)
        ensures
            !worker.is_joinable(),
    {
        JoinOnDrop { running: false }
    }

    /// Begins to join the worker; returns whether its thread is to be joined now, which is then
    /// reported to [`JoinOnDrop::joined`]. There is nothing to join a second time.
    pub fn join(&mut self) -> (join: bool)
        ensures
            join == old(self).is_joinable(),
            !final(self).is_joinable(),
    {
        let join = self.running;
        self.running = false;
        join
    }

    /// What joining comes to: an error if the worker panicked.
    pub fn joined(panicked: bool) -> (result: Result<(), FutureWorkerError>)
        ensures
            result == (if panicked {
                Err::<(), FutureWorkerError>(FutureWorkerError)
            } else {
                Ok(())
            }),
    {
        if panicked {
            Err(FutureWorkerError)
        } else {
            Ok(())
        }
    }
}

} // verus!
