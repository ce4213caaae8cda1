//! When a thread polls a device for others, and when it stops.

use vstd::prelude::*;

verus! {

/// What the polling thread does next.
#[derive(Clone, Copy, Debug, PartialEq, Eq, Structural)]
pub enum PollAction {
    /// Wait for the most recent submission, then yield and look again.
    Poll,
    /// Sleep until it is woken, then yield and look again.
    Park,
    /// Leave the loop.
    Stop,
}

/// A thread that polls a device while somebody needs it to.
#[derive(Debug, PartialEq, Eq, Structural)]
pub struct WgpuPoll {
    holders: usize,
    cancelled: bool,
    running: bool,
}

/// What a polling thread is driven by.
pub struct PollView {
    /// Number of holders of the handle: the owner of the thread, the thread, and those who need
    /// polling.
    pub holders: usize,
    /// Whether the thread was asked to stop.
    pub cancelled: bool,
    /// Whether the thread was started and not joined.
    pub running: bool,
}

impl View for WgpuPoll {
    type V = PollView;

    closed spec fn view(&self) -> PollView {
        PollView { holders: self.holders, cancelled: self.cancelled, running: self.running }
    }
}

impl PollView {
    /// What the polling thread does next: it never stops while somebody needs polling.
    pub open spec fn action(self) -> PollAction {
        if self.holders > 2 {
            PollAction::Poll
        } else if self.cancelled {
            PollAction::Stop
        } else {
            PollAction::Park
        }
    }
}

impl WgpuPoll {
    /// A polling thread that was just started; it and its owner hold the handle.
    pub fn new() -> (poll: Self)
        ensures
            poll@ == (PollView { holders: 2, cancelled: false, running: true }),
    {
        WgpuPoll { holders: 2, cancelled: false, running: true }
    }

    /// Tells the polling thread what to do next; a request to stop is used up by stopping.
    pub fn step(&mut self) -> (action: PollAction)
        ensures
            action == old(self)@.action(),
            final(self)@ == (PollView {
                cancelled: old(self)@.cancelled && !(action is Stop),
                ..old(self)@
            }),
            final(self)@.holders == old(self)@.holders,
            action is Stop ==> final(self)@.action() is Park,
            !(action is Stop) ==> final(self)@.action() == action,
    {
        if self.holders > 2 {
            PollAction::Poll
        } else if self.cancelled {
            self.cancelled = false;
            PollAction::Stop
        } else {
            PollAction::Park
        }
    }

    /// Takes a handle: as long as it is held the polling is active. Returns whether the thread is
    /// to be woken.
    pub fn start_polling(&mut self) -> (wake: bool)
        requires
            old(self)@.holders < usize::MAX,
        ensures
            wake == old(self)@.running,
            final(self)@ == (PollView {
                holders: (old(self)@.holders + 1) as usize,
                ..old(self)@
            }),
            old(self)@.holders >= 2 ==> final(self)@.action() is Poll,
    {
        self.holders = self.holders + 1;
        self.running
    }

    /// Gives a handle back.
    pub fn stop_polling(&mut self)
        requires
            old(self)@.holders > 0,
        ensures
            final(self)@ == (PollView {
                holders: (old(self)@.holders - 1) as usize,
                ..old(self)@
            }),
            final(self)@.action() is Poll <==> old(self)@.holders > 3,
    {
        self.holders = self.holders - 1;
    }

    /// Asks the polling thread to stop; returns whether it is to be woken and joined, which
    /// happens once.
    pub fn shutdown(&mut self) -> (join: bool)
        ensures
            join == old(self)@.running,
            final(self)@ == (PollView {
                cancelled: old(self)@.cancelled || old(self)@.running,
                running: false,
                ..old(self)@
            }),
            join && old(self)@.holders <= 2 ==> final(self)@.action() is Stop,
            old(self)@.holders > 2 ==> final(self)@.action() is Poll,
    {
        if !self.running {
            return false;
        }
        self.running = false;
        self.cancelled = true;
        true
    }
}

/// A polling thread goes on as long as somebody holds a handle, even once it was asked to stop; and
/// once nobody does, a thread that was asked to stop does so.
pub proof fn law_poll_serves_holders(view: PollView)
    ensures
        view.holders > 2 ==> view.action() is Poll,
        view.holders <= 2 && view.cancelled ==> view.action() is Stop,
        view.action() is Stop ==> view.cancelled,
        view.action() is Poll <==> view.holders > 2,
        view.action() is Park <==> view.holders <= 2 && !view.cancelled,
{
}

} // verus!
