//! A double-buffered task queue between many clients and one server thread.
//!
//! Clients fill one buffer of [`CHANNEL_MAX_TASK`] slots while the server runs the tasks of the
//! other. A full buffer is swapped; a partial one is first filled up with tasks that do nothing.
//!
//! Several threads share one [`Channel`]. What a thread does is cut into steps, and each step
//! accesses one word that the threads share, so any interleaving of the steps of all threads is
//! a run of the queue. A step that cannot go on asks its thread to back off.

use crate::task::TaskBuffer;
use vstd::prelude::*;

verus! {

/// Maximum number of tasks that can be queued in one buffer.
pub const CHANNEL_MAX_TASK: usize = 32;

/// Number of spins before the server starts yielding.
pub const SPIN_BUDGET_SERVER: u32 = 8192;

/// Number of yields after the spins are used up, before the server starts sleeping.
pub const YIELD_BUDGET_SERVER: u32 = 64;

/// Number of spins before a client starts yielding when the queue is full: the server budget, once
/// for each slot of the two buffers.
pub const SPIN_BUDGET_CLIENT: u32 = 524288;

/// Number of yields after the spins are used up, before a client starts sleeping.
pub const YIELD_BUDGET_CLIENT: u32 = 4096;

/// Microseconds that the server sleeps once both its budgets are used up.
pub const SLEEP_STEP_SERVER_MICROS: u64 = 150;

/// Microseconds that a client sleeps once both its budgets are used up.
pub const SLEEP_STEP_CLIENT_MICROS: u64 = 75;

/// What a thread does before it tries again.
#[derive(Clone, Copy, Debug, PartialEq, Eq, Structural)]
pub enum Backoff {
    /// Spin once.
    Spin,
    /// Let another thread run.
    Yield,
    /// Sleep for one step.
    Sleep,
}

impl Backoff {
    /// The backoff after `idle_count` tries: spins, then yields, then sleeps.
    pub open spec fn after_spec(idle_count: u32, spin_budget: int, yield_budget: int) -> Backoff {
        if idle_count < spin_budget {
            Backoff::Spin
        } else if idle_count < spin_budget + yield_budget {
            Backoff::Yield
        } else {
            Backoff::Sleep
        }
    }

    fn after_client(idle_count: u32) -> (backoff: Backoff)
        ensures
            backoff == Backoff::after_spec(
                idle_count,
                SPIN_BUDGET_CLIENT as int,
                YIELD_BUDGET_CLIENT as int,
            ),
    {
        if idle_count < SPIN_BUDGET_CLIENT {
            Backoff::Spin
        } else if idle_count < SPIN_BUDGET_CLIENT + YIELD_BUDGET_CLIENT {
            Backoff::Yield
        } else {
            Backoff::Sleep
        }
    }

    fn after_server(idle_count: u32) -> (backoff: Backoff)
        ensures
            backoff == Backoff::after_spec(
                idle_count,
                SPIN_BUDGET_SERVER as int,
                YIELD_BUDGET_SERVER as int,
            ),
    {
        if idle_count < SPIN_BUDGET_SERVER {
            Backoff::Spin
        } else if idle_count < SPIN_BUDGET_SERVER + YIELD_BUDGET_SERVER {
            Backoff::Yield
        } else {
            Backoff::Sleep
        }
    }
}

/// One more try, as far as the counter goes.
pub open spec fn one_more(idle_count: u32) -> u32 {
    if idle_count < u32::MAX {
        (idle_count + 1) as u32
    } else {
        u32::MAX
    }
}

/// The words that the threads share, and what waits in the slots of the two buffers.
#[verifier::ext_equal]
pub struct ChannelView<F> {
    /// The buffer that clients write to.
    pub queue: int,
    /// Next index for writing; at or past the end of the buffer once it is full.
    pub available: u32,
    /// Number of slots that are written and counted.
    pub enqueued: u32,
    /// Whether clients may enqueue new work.
    pub accepting: bool,
    /// Number of client calls that are under way.
    pub active: u32,
    /// Whether the server should stop after draining every accepted task.
    pub close_requested: bool,
    /// What waits in each slot of each buffer.
    pub slots: Seq<Seq<Option<F>>>,
}

impl<F> ChannelView<F> {
    /// Two buffers of the full size, one of which clients write to.
    pub open spec fn wf(self) -> bool {
        &&& self.slots.len() == 2
        &&& self.slots[0].len() == CHANNEL_MAX_TASK
        &&& self.slots[1].len() == CHANNEL_MAX_TASK
        &&& 0 <= self.queue < 2
    }

    /// A channel in which nothing waits.
    pub open spec fn init() -> Self {
        ChannelView {
            queue: 0,
            available: 0,
            enqueued: 0,
            accepting: true,
            active: 0,
            close_requested: false,
            slots: seq![empty_buffer::<F>(), empty_buffer::<F>()],
        }
    }

    /// The channel with one slot of one buffer changed.
    pub open spec fn with_slot(self, buffer: int, index: int, task: Option<F>) -> Self {
        ChannelView {
            slots: self.slots.update(buffer, self.slots[buffer].update(index, task)),
            ..self
        }
    }
}

/// A buffer in which nothing waits.
pub open spec fn empty_buffer<F>() -> Seq<Option<F>> {
    Seq::new(CHANNEL_MAX_TASK as nat, |i: int| None::<F>)
}

/// What a client call is for.
#[derive(Clone, Copy, Debug, PartialEq, Eq, Structural)]
pub enum CallKind {
    /// Queue a task.
    Enqueue,
    /// Make the server run what waits in a buffer that is not full.
    Flush,
}

/// What a client call does next.
#[derive(Clone, Copy, Debug, PartialEq, Eq, Structural)]
pub enum CallPhase {
    /// Ask whether the channel accepts work.
    Check,
    /// Count the call as under way.
    Announce,
    /// Ask again, now that the server sees the call.
    Recheck,
    /// The channel closed in between: count the call out.
    Withdraw,
    /// Take the next index.
    Reserve,
    /// Write the task to the slot.
    Write {
        /// The slot.
        index: usize,
    },
    /// Count the slot as written.
    Publish {
        /// The slot.
        index: usize,
    },
    /// Take every index that is left.
    Claim,
    /// Write a task that does nothing.
    Fill {
        /// The first slot that was taken.
        start: usize,
        /// The slot.
        index: usize,
    },
    /// Count the filled slots as written.
    Count {
        /// The first slot that was taken.
        start: usize,
    },
    /// Count the call out.
    Retire,
    /// The call did its work.
    Accepted,
    /// The channel does not accept work.
    Rejected,
}

/// A client call that is under way.
#[verifier::ext_equal]
pub struct ClientCall<F> {
    task: Option<F>,
    kind: CallKind,
    phase: CallPhase,
    idle_count: u32,
}

/// What the thread of a client call does next.
#[derive(Clone, Copy, Debug, PartialEq, Eq, Structural)]
pub enum ClientAction {
    /// Take the next step.
    Continue,
    /// The queue is full: back off, then take the next step.
    Wait(Backoff),
    /// The call is over; `true` when the channel accepted it.
    Done(bool),
}

/// What a client call holds.
#[verifier::ext_equal]
pub struct CallView<F> {
    /// The task, until it is written.
    pub task: Option<F>,
    /// What the call is for.
    pub kind: CallKind,
    /// What the call does next.
    pub phase: CallPhase,
    /// Number of times the call backed off.
    pub idle_count: u32,
}

impl<F> View for ClientCall<F> {
    type V = CallView<F>;

    closed spec fn view(&self) -> CallView<F> {
        CallView {
            task: self.task,
            kind: self.kind,
            phase: self.phase,
            idle_count: self.idle_count,
        }
    }
}

impl<F> CallView<F> {
    /// A slot index that the call holds lies in the buffer.
    pub open spec fn wf(self) -> bool {
        match self.phase {
            CallPhase::Write { index } => index < CHANNEL_MAX_TASK,
            CallPhase::Publish { index } => index < CHANNEL_MAX_TASK,
            CallPhase::Fill { start, index } => start <= index < CHANNEL_MAX_TASK,
            CallPhase::Count { start } => start < CHANNEL_MAX_TASK,
            _ => true,
        }
    }

    /// The call in another phase.
    pub open spec fn at(self, phase: CallPhase) -> Self {
        CallView { phase, ..self }
    }

    /// The phase that follows once the call may work.
    pub open spec fn work(kind: CallKind) -> CallPhase {
        match kind {
            CallKind::Enqueue => CallPhase::Reserve,
            CallKind::Flush => CallPhase::Claim,
        }
    }
}

/// The phase after slot `index` was filled.
pub open spec fn after_fill(start: usize, index: usize) -> CallPhase {
    if index + 1 < CHANNEL_MAX_TASK {
        CallPhase::Fill { start, index: (index + 1) as usize }
    } else {
        CallPhase::Count { start }
    }
}

/// One step of a client call: the channel and the call after it.
pub open spec fn client_step<F>(channel: ChannelView<F>, call: CallView<F>) -> (
    ChannelView<F>,
    CallView<F>,
) {
    match call.phase {
        CallPhase::Check => (
            channel,
            call.at(
                if channel.accepting {
                    CallPhase::Announce
                } else {
                    CallPhase::Rejected
                },
            ),
        ),
        CallPhase::Announce => (
            ChannelView { active: wrapping_add(channel.active, 1), ..channel },
            call.at(CallPhase::Recheck),
        ),
        CallPhase::Recheck => (
            channel,
            call.at(
                if channel.accepting {
                    CallView::<F>::work(call.kind)
                } else {
                    CallPhase::Withdraw
                },
            ),
        ),
        CallPhase::Withdraw => (
            ChannelView { active: wrapping_sub(channel.active, 1), ..channel },
            call.at(CallPhase::Rejected),
        ),
        CallPhase::Reserve => {
            let after = ChannelView { available: wrapping_add(channel.available, 1), ..channel };
            if channel.available >= CHANNEL_MAX_TASK {
                (after, CallView { idle_count: one_more(call.idle_count), ..call })
            } else {
                (after, call.at(CallPhase::Write { index: channel.available as usize }))
            }
        },
        CallPhase::Write { index } => (
            channel.with_slot(channel.queue, index as int, call.task),
            CallView { task: None, phase: CallPhase::Publish { index }, ..call },
        ),
        CallPhase::Publish { index } => (
            ChannelView { enqueued: wrapping_add(channel.enqueued, 1), ..channel },
            call.at(CallPhase::Retire),
        ),
        CallPhase::Claim => {
            let after = ChannelView {
                available: wrapping_add(channel.available, CHANNEL_MAX_TASK as int),
                ..channel
            };
            let start = channel.available as usize;
            (
                after,
                call.at(
                    if channel.available >= CHANNEL_MAX_TASK {
                        CallPhase::Retire
                    } else {
                        CallPhase::Fill { start, index: start }
                    },
                ),
            )
        },
        CallPhase::Fill { start, index } => (
            channel.with_slot(channel.queue, index as int, None),
            call.at(after_fill(start, index)),
        ),
        CallPhase::Count { start } => (
            ChannelView {
                enqueued: wrapping_add(channel.enqueued, CHANNEL_MAX_TASK - start),
                ..channel
            },
            call.at(CallPhase::Retire),
        ),
        CallPhase::Retire => (
            ChannelView { active: wrapping_sub(channel.active, 1), ..channel },
            call.at(CallPhase::Accepted),
        ),
        CallPhase::Accepted => (channel, call),
        CallPhase::Rejected => (channel, call),
    }
}

/// What the thread of a client call does after a step.
pub open spec fn client_action<F>(channel: ChannelView<F>, call: CallView<F>) -> ClientAction {
    match client_step(channel, call).1.phase {
        CallPhase::Accepted => ClientAction::Done(true),
        CallPhase::Rejected => ClientAction::Done(false),
        CallPhase::Reserve => if call.phase is Reserve {
            ClientAction::Wait(
                Backoff::after_spec(
                    call.idle_count,
                    SPIN_BUDGET_CLIENT as int,
                    YIELD_BUDGET_CLIENT as int,
                ),
            )
        } else {
            ClientAction::Continue
        },
        _ => ClientAction::Continue,
    }
}

/// Addition of a word that threads share: it wraps around.
pub open spec fn wrapping_add(word: u32, amount: int) -> u32 {
    if word + amount > u32::MAX {
        (word + amount - u32::MAX - 1) as u32
    } else {
        (word + amount) as u32
    }
}

/// Subtraction of a word that threads share: it wraps around.
pub open spec fn wrapping_sub(word: u32, amount: int) -> u32 {
    if word < amount {
        (word - amount + u32::MAX + 1) as u32
    } else {
        (word - amount) as u32
    }
}

/// The queue that client threads and the server thread share.
pub struct Channel<F> {
    queue: usize,
    available_index: u32,
    enqueued_count: u32,
    accepting: bool,
    active_enqueues: u32,
    close_requested: bool,
    buffers: Vec<TaskBuffer<F>>,
}

impl<F> View for Channel<F> {
    type V = ChannelView<F>;

    closed spec fn view(&self) -> ChannelView<F> {
        ChannelView {
            queue: self.queue as int,
            available: self.available_index,
            enqueued: self.enqueued_count,
            accepting: self.accepting,
            active: self.active_enqueues,
            close_requested: self.close_requested,
            slots: Seq::new(self.buffers@.len(), |b: int| self.buffers@[b]@),
        }
    }
}

impl<F> Channel<F> {
    /// Two buffers of the full size, one of which clients write to.
    pub open spec fn wf(&self) -> bool {
        self@.wf()
    }

    /// Creates a channel in which nothing waits and which accepts work.
    pub fn new() -> (channel: Self)
        ensures
            channel.wf(),
            channel@ == ChannelView::<F>::init(),
    {
        let mut buffers: Vec<TaskBuffer<F>> = Vec::new();
        buffers.push(TaskBuffer::new(CHANNEL_MAX_TASK));
        buffers.push(TaskBuffer::new(CHANNEL_MAX_TASK));
        let channel = Channel {
            queue: 0,
            available_index: 0,
            enqueued_count: 0,
            accepting: true,
            active_enqueues: 0,
            close_requested: false,
            buffers,
        };
        assert(channel@.slots =~= ChannelView::<F>::init().slots);
        channel
    }

    /// Returns whether clients may enqueue new work.
    pub fn is_accepting(&self) -> (accepting: bool)
        ensures
            accepting == self@.accepting,
    {
        self.accepting
    }

    /// Refuses new work from now on.
    pub fn stop_accepting(&mut self)
        ensures
            final(self)@ == (ChannelView { accepting: false, ..old(self)@ }),
            old(self).wf() ==> final(self).wf(),
    {
        self.accepting = false;
        assert(self@.slots =~= old(self)@.slots);
    }

    /// Asks the server to stop once every accepted task has run.
    pub fn request_close(&mut self)
        ensures
            final(self)@ == (ChannelView { close_requested: true, ..old(self)@ }),
            old(self).wf() ==> final(self).wf(),
    {
        self.close_requested = true;
        assert(self@.slots =~= old(self)@.slots);
    }

    fn add_available(&mut self, amount: u32) -> (index: u32)
        ensures
            index == old(self)@.available,
            final(self)@ == (ChannelView {
                available: wrapping_add(old(self)@.available, amount as int),
                ..old(self)@
            }),
    {
        let index: u32 = self.available_index;
        self.available_index = index.wrapping_add(amount);
        assert(self@.slots =~= old(self)@.slots);
        index
    }

    fn add_enqueued(&mut self, amount: u32)
        ensures
            final(self)@ == (ChannelView {
                enqueued: wrapping_add(old(self)@.enqueued, amount as int),
                ..old(self)@
            }),
    {
        self.enqueued_count = self.enqueued_count.wrapping_add(amount);
        assert(self@.slots =~= old(self)@.slots);
    }

    fn begin_call(&mut self)
        ensures
            final(self)@ == (ChannelView {
                active: wrapping_add(old(self)@.active, 1),
                ..old(self)@
            }),
    {
        self.active_enqueues = self.active_enqueues.wrapping_add(1);
        assert(self@.slots =~= old(self)@.slots);
    }

    fn end_call(&mut self)
        ensures
            final(self)@ == (ChannelView {
                active: wrapping_sub(old(self)@.active, 1),
                ..old(self)@
            }),
    {
        self.active_enqueues = self.active_enqueues.wrapping_sub(1);
        assert(self@.slots =~= old(self)@.slots);
    }

    /// Initializes the task at `index` in the buffer that clients write to.
    fn init_task_at(&mut self, index: usize, task: Option<F>)
        requires
            old(self).wf(),
            index < CHANNEL_MAX_TASK,
        ensures
            final(self)@ == old(self)@.with_slot(old(self)@.queue, index as int, task),
            final(self).wf(),
    {
        let buffer: usize = self.queue;
        self.buffers[buffer].set(index, task);
        assert(self@.slots =~= old(self)@.with_slot(old(self)@.queue, index as int, task).slots);
    }

    /// Takes every index that is left, and tells where to start filling.
    fn claim_partial_buffer(&mut self) -> (start: Option<usize>)
        ensures
            final(self)@ == (ChannelView {
                available: wrapping_add(old(self)@.available, CHANNEL_MAX_TASK as int),
                ..old(self)@
            }),
            start == (if old(self)@.available >= CHANNEL_MAX_TASK {
                None::<usize>
            } else {
                Some(old(self)@.available as usize)
            }),
    {
        let index_start: usize = self.add_available(CHANNEL_MAX_TASK as u32) as usize;
        if index_start >= CHANNEL_MAX_TASK {
            None
        } else {
            Some(index_start)
        }
    }

    /// Takes the task at `index` out of a buffer, to be run.
    fn run_task_at(&mut self, buffer: usize, index: usize) -> (task: Option<F>)
        requires
            old(self).wf(),
            buffer < 2,
            index < CHANNEL_MAX_TASK,
        ensures
            task == old(self)@.slots[buffer as int][index as int],
            final(self)@ == old(self)@.with_slot(buffer as int, index as int, None),
            final(self).wf(),
    {
        let task = self.buffers[buffer].run(index);
        assert(self@.slots =~= old(self)@.with_slot(buffer as int, index as int, None).slots);
        task
    }
}

impl<F> ClientCall<F> {
    /// Starts a call that queues `task`.
    pub fn enqueue(task: F) -> (call: Self)
        ensures
            call@ == (CallView {
                task: Some(task),
                kind: CallKind::Enqueue,
                phase: CallPhase::Check,
                idle_count: 0,
            }),
            call@.wf(),
    {
        ClientCall {
            task: Some(task),
            kind: CallKind::Enqueue,
            phase: CallPhase::Check,
            idle_count: 0,
        }
    }

    /// Starts a call that publishes a partial buffer, filled up with tasks that do nothing.
    pub fn flush() -> (call: Self)
        ensures
            call@ == (CallView {
                task: None::<F>,
                kind: CallKind::Flush,
                phase: CallPhase::Check,
                idle_count: 0,
            }),
            call@.wf(),
    {
        ClientCall { task: None, kind: CallKind::Flush, phase: CallPhase::Check, idle_count: 0 }
    }

    /// Returns whether the call was just let in; a task that is queued takes its reference to the
    /// generation of the runner then.
    pub fn is_admitted(&self) -> (admitted: bool)
        ensures
            admitted == (self@.phase == CallView::<F>::work(self@.kind)),
    {
        match (self.kind, self.phase) {
            (CallKind::Enqueue, CallPhase::Reserve) => true,
            (CallKind::Flush, CallPhase::Claim) => true,
            _ => false,
        }
    }

    /// Takes one step.
    pub fn step(&mut self, channel: &mut Channel<F>) -> (action: ClientAction)
        requires
            old(channel).wf(),
            old(self)@.wf(),
        ensures
            final(channel)@ == client_step(old(channel)@, old(self)@).0,
            final(self)@ == client_step(old(channel)@, old(self)@).1,
            final(channel).wf(),
            final(self)@.wf(),
            action == client_action(old(channel)@, old(self)@),
    {
        match self.phase {
            CallPhase::Check => {
                if channel.is_accepting() {
                    self.phase = CallPhase::Announce;
                    ClientAction::Continue
                } else {
                    self.phase = CallPhase::Rejected;
                    ClientAction::Done(false)
                }
            },
            CallPhase::Announce => {
                channel.begin_call();
                self.phase = CallPhase::Recheck;
                ClientAction::Continue
            },
            CallPhase::Recheck => {
                if channel.is_accepting() {
                    self.phase = match self.kind {
                        CallKind::Enqueue => CallPhase::Reserve,
                        CallKind::Flush => CallPhase::Claim,
                    };
                } else {
                    self.phase = CallPhase::Withdraw;
                }
                ClientAction::Continue
            },
            CallPhase::Withdraw => {
                channel.end_call();
                self.phase = CallPhase::Rejected;
                ClientAction::Done(false)
            },
            CallPhase::Reserve => {
                let index: usize = channel.add_available(1) as usize;
                if index >= CHANNEL_MAX_TASK {
                    // The queue is full; back off until the server swaps buffers.
                    let backoff = Backoff::after_client(self.idle_count);
                    self.idle_count = self.idle_count.saturating_add(1);
                    ClientAction::Wait(backoff)
                } else {
                    self.phase = CallPhase::Write { index };
                    ClientAction::Continue
                }
            },
            CallPhase::Write { index } => {
                let task = self.task.take();
                channel.init_task_at(index, task);
                self.phase = CallPhase::Publish { index };
                ClientAction::Continue
            },
            CallPhase::Publish { index: _ } => {
                channel.add_enqueued(1);
                self.phase = CallPhase::Retire;
                ClientAction::Continue
            },
            CallPhase::Claim => {
                match channel.claim_partial_buffer() {
                    None => {
                        self.phase = CallPhase::Retire;
                    },
                    Some(start) => {
                        self.phase = CallPhase::Fill { start, index: start };
                    },
                }
                ClientAction::Continue
            },
            CallPhase::Fill { start, index } => {
                channel.init_task_at(index, None);
                if index + 1 < CHANNEL_MAX_TASK {
                    self.phase = CallPhase::Fill { start, index: index + 1 };
                } else {
                    self.phase = CallPhase::Count { start };
                }
                ClientAction::Continue
            },
            CallPhase::Count { start } => {
                channel.add_enqueued((CHANNEL_MAX_TASK - start) as u32);
                self.phase = CallPhase::Retire;
                ClientAction::Continue
            },
            CallPhase::Retire => {
                channel.end_call();
                self.phase = CallPhase::Accepted;
                ClientAction::Done(true)
            },
            CallPhase::Accepted => ClientAction::Done(true),
            CallPhase::Rejected => ClientAction::Done(false),
        }
    }
}

/// What the server does next.
#[derive(Clone, Copy, Debug, PartialEq, Eq, Structural)]
pub enum ServerPhase {
    /// Run the tasks of the server buffer, if it was just swapped in.
    Top,
    /// Run the task of a slot.
    Execute {
        /// The slot.
        index: usize,
    },
    /// Ask how many slots of the client buffer are written.
    LoadCount,
    /// The client buffer is full: swap the buffers.
    Swap,
    /// Start counting for the new client buffer.
    ResetCount,
    /// Let clients write to the new client buffer.
    ResetIndex,
    /// Ask whether the server should stop.
    CheckClose,
    /// Ask whether client calls are under way.
    CheckActive,
    /// Ask whether anything waits in the client buffer.
    CheckDrained,
    /// Take every index that is left.
    Claim,
    /// Write a task that does nothing.
    Fill {
        /// The first slot that was taken.
        start: usize,
        /// The slot.
        index: usize,
    },
    /// Count the filled slots as written.
    Count {
        /// The first slot that was taken.
        start: usize,
    },
    /// Nothing to do for now.
    Idle,
    /// Every accepted task has run.
    Stopped,
}

/// What the server thread does next.
pub enum ServerAction<F> {
    /// Take the next step.
    Continue,
    /// Run a task, then take the next step.
    Run(F),
    /// Back off, then take the next step.
    Wait(Backoff),
    /// Leave the loop.
    Stop,
}

/// The server side of a channel.
#[derive(Clone, Copy, Debug, PartialEq, Eq, Structural)]
pub struct Server {
    /// Which buffer clients are currently writing to.
    client_buf: usize,
    ready_to_execute: bool,
    phase: ServerPhase,
    idle_count: u32,
}

/// What the server remembers between steps.
#[verifier::ext_equal]
pub struct ServerView {
    /// Which buffer clients are currently writing to.
    pub client_buf: int,
    /// Whether the tasks of the other buffer are still to be run.
    pub ready_to_execute: bool,
    /// What the server does next.
    pub phase: ServerPhase,
    /// Number of times the server found nothing to do.
    pub idle_count: u32,
}

impl View for Server {
    type V = ServerView;

    closed spec fn view(&self) -> ServerView {
        ServerView {
            client_buf: self.client_buf as int,
            ready_to_execute: self.ready_to_execute,
            phase: self.phase,
            idle_count: self.idle_count,
        }
    }
}

impl ServerView {
    /// Indices lie in the buffers.
    pub open spec fn wf(self) -> bool {
        &&& 0 <= self.client_buf < 2
        &&& match self.phase {
            ServerPhase::Execute { index } => index < CHANNEL_MAX_TASK,
            ServerPhase::Fill { start, index } => start <= index < CHANNEL_MAX_TASK,
            ServerPhase::Count { start } => start < CHANNEL_MAX_TASK,
            _ => true,
        }
    }

    /// A server that has done nothing yet.
    pub open spec fn init() -> Self {
        ServerView {
            client_buf: 0,
            ready_to_execute: false,
            phase: ServerPhase::Top,
            idle_count: 0,
        }
    }

    /// The server in another phase.
    pub open spec fn at(self, phase: ServerPhase) -> Self {
        ServerView { phase, ..self }
    }
}

/// The phase after slot `index` was filled by the server.
pub open spec fn after_server_fill(start: usize, index: usize) -> ServerPhase {
    if index + 1 < CHANNEL_MAX_TASK {
        ServerPhase::Fill { start, index: (index + 1) as usize }
    } else {
        ServerPhase::Count { start }
    }
}

/// One step of the server: the channel and the server after it.
pub open spec fn server_step<F>(channel: ChannelView<F>, server: ServerView) -> (
    ChannelView<F>,
    ServerView,
) {
    match server.phase {
        ServerPhase::Top => (
            channel,
            server.at(
                if server.ready_to_execute {
                    ServerPhase::Execute { index: 0 }
                } else {
                    ServerPhase::LoadCount
                },
            ),
        ),
        ServerPhase::Execute { index } => {
            let after = channel.with_slot(1 - server.client_buf, index as int, None);
            if index + 1 < CHANNEL_MAX_TASK {
                (after, server.at(ServerPhase::Execute { index: (index + 1) as usize }))
            } else {
                (
                    after,
                    ServerView {
                        ready_to_execute: false,
                        idle_count: 0,
                        phase: ServerPhase::LoadCount,
                        ..server
                    },
                )
            }
        },
        ServerPhase::LoadCount => (
            channel,
            server.at(
                if channel.enqueued >= CHANNEL_MAX_TASK {
                    ServerPhase::Swap
                } else {
                    ServerPhase::CheckClose
                },
            ),
        ),
        ServerPhase::Swap => (
            ChannelView { queue: 1 - server.client_buf, ..channel },
            ServerView {
                client_buf: 1 - server.client_buf,
                ready_to_execute: true,
                phase: ServerPhase::ResetCount,
                ..server
            },
        ),
        ServerPhase::ResetCount => (
            ChannelView { enqueued: 0, ..channel },
            server.at(ServerPhase::ResetIndex),
        ),
        ServerPhase::ResetIndex => (
            ChannelView { available: 0, ..channel },
            ServerView { idle_count: 0, phase: ServerPhase::Top, ..server },
        ),
        ServerPhase::CheckClose => (
            channel,
            server.at(
                if channel.close_requested {
                    ServerPhase::CheckActive
                } else {
                    ServerPhase::Idle
                },
            ),
        ),
        ServerPhase::CheckActive => (
            channel,
            server.at(
                if channel.active == 0 {
                    ServerPhase::CheckDrained
                } else {
                    ServerPhase::Idle
                },
            ),
        ),
        ServerPhase::CheckDrained => (
            channel,
            server.at(
                if channel.enqueued == 0 {
                    ServerPhase::Stopped
                } else {
                    ServerPhase::Claim
                },
            ),
        ),
        ServerPhase::Claim => {
            let after = ChannelView {
                available: wrapping_add(channel.available, CHANNEL_MAX_TASK as int),
                ..channel
            };
            let start = channel.available as usize;
            (
                after,
                server.at(
                    if channel.available >= CHANNEL_MAX_TASK {
                        ServerPhase::Top
                    } else {
                        ServerPhase::Fill { start, index: start }
                    },
                ),
            )
        },
        ServerPhase::Fill { start, index } => (
            channel.with_slot(channel.queue, index as int, None),
            server.at(after_server_fill(start, index)),
        ),
        ServerPhase::Count { start } => (
            ChannelView {
                enqueued: wrapping_add(channel.enqueued, CHANNEL_MAX_TASK - start),
                ..channel
            },
            server.at(ServerPhase::Top),
        ),
        ServerPhase::Idle => (
            channel,
            ServerView {
                idle_count: one_more(server.idle_count),
                phase: ServerPhase::Top,
                ..server
            },
        ),
        ServerPhase::Stopped => (channel, server),
    }
}

/// What the server thread does after a step.
pub open spec fn server_action<F>(channel: ChannelView<F>, server: ServerView) -> ServerAction<F> {
    match server.phase {
        ServerPhase::Execute { index } => match channel.slots[1
            - server.client_buf][index as int] {
            Some(task) => ServerAction::Run(task),
            None => ServerAction::Continue,
        },
        ServerPhase::CheckDrained => if channel.enqueued == 0 {
            ServerAction::Stop
        } else {
            ServerAction::Continue
        },
        ServerPhase::Idle => ServerAction::Wait(
            Backoff::after_spec(
                server.idle_count,
                SPIN_BUDGET_SERVER as int,
                YIELD_BUDGET_SERVER as int,
            ),
        ),
        ServerPhase::Stopped => ServerAction::Stop,
        _ => ServerAction::Continue,
    }
}

impl Server {
    /// Creates a server that has done nothing yet.
    pub fn new() -> (server: Self)
        ensures
            server@ == ServerView::init(),
            server@.wf(),
    {
        Server { client_buf: 0, ready_to_execute: false, phase: ServerPhase::Top, idle_count: 0 }
    }

    /// Takes one step of the main loop of the device thread.
    pub fn step<F>(&mut self, channel: &mut Channel<F>) -> (action: ServerAction<F>)
        requires
            old(channel).wf(),
            old(self)@.wf(),
        ensures
            final(channel)@ == server_step(old(channel)@, old(self)@).0,
            final(self)@ == server_step(old(channel)@, old(self)@).1,
            final(channel).wf(),
            final(self)@.wf(),
            action == server_action(old(channel)@, old(self)@),
    {
        match self.phase {
            ServerPhase::Top => {
                if self.ready_to_execute {
                    self.phase = ServerPhase::Execute { index: 0 };
                } else {
                    self.phase = ServerPhase::LoadCount;
                }
                ServerAction::Continue
            },
            ServerPhase::Execute { index } => self.execute_task(channel, index),
            ServerPhase::LoadCount => {
                let queue_size: usize = channel.enqueued_count as usize;
                if queue_size >= CHANNEL_MAX_TASK {
                    self.phase = ServerPhase::Swap;
                } else {
                    self.phase = ServerPhase::CheckClose;
                }
                ServerAction::Continue
            },
            ServerPhase::Swap => {
                self.fetch(channel);
                ServerAction::Continue
            },
            ServerPhase::ResetCount => {
                channel.enqueued_count = 0;
                self.phase = ServerPhase::ResetIndex;
                assert(channel@.slots =~= old(channel)@.slots);
                ServerAction::Continue
            },
            ServerPhase::ResetIndex => {
                // Clients that found the queue full look at this word, so it is reset last.
                channel.available_index = 0;
                self.idle_count = 0;
                self.phase = ServerPhase::Top;
                assert(channel@.slots =~= old(channel)@.slots);
                ServerAction::Continue
            },
            ServerPhase::CheckClose => {
                if channel.close_requested {
                    self.phase = ServerPhase::CheckActive;
                } else {
                    self.phase = ServerPhase::Idle;
                }
                ServerAction::Continue
            },
            ServerPhase::CheckActive => {
                if channel.active_enqueues == 0 {
                    self.phase = ServerPhase::CheckDrained;
                } else {
                    self.phase = ServerPhase::Idle;
                }
                ServerAction::Continue
            },
            ServerPhase::CheckDrained => {
                if channel.enqueued_count == 0 {
                    self.phase = ServerPhase::Stopped;
                    ServerAction::Stop
                } else {
                    self.phase = ServerPhase::Claim;
                    ServerAction::Continue
                }
            },
            ServerPhase::Claim => {
                match channel.claim_partial_buffer() {
                    None => {
                        self.phase = ServerPhase::Top;
                    },
                    Some(start) => {
                        self.phase = ServerPhase::Fill { start, index: start };
                    },
                }
                ServerAction::Continue
            },
            ServerPhase::Fill { start, index } => {
                channel.init_task_at(index, None);
                if index + 1 < CHANNEL_MAX_TASK {
                    self.phase = ServerPhase::Fill { start, index: index + 1 };
                } else {
                    self.phase = ServerPhase::Count { start };
                }
                ServerAction::Continue
            },
            ServerPhase::Count { start } => {
                channel.add_enqueued((CHANNEL_MAX_TASK - start) as u32);
                self.phase = ServerPhase::Top;
                ServerAction::Continue
            },
            ServerPhase::Idle => {
                let backoff = Backoff::after_server(self.idle_count);
                self.idle_count = self.idle_count.saturating_add(1);
                self.phase = ServerPhase::Top;
                ServerAction::Wait(backoff)
            },
            ServerPhase::Stopped => ServerAction::Stop,
        }
    }

    /// Runs the task of one slot of the server buffer.
    fn execute_task<F>(&mut self, channel: &mut Channel<F>, index: usize) -> (action: ServerAction<
        F,
    >)
        requires
            old(channel).wf(),
            old(self)@.wf(),
            old(self)@.phase == (ServerPhase::Execute { index }),
        ensures
            final(channel)@ == server_step(old(channel)@, old(self)@).0,
            final(self)@ == server_step(old(channel)@, old(self)@).1,
            final(channel).wf(),
            final(self)@.wf(),
            action == server_action(old(channel)@, old(self)@),
    {
        let server_buf: usize = 1 - self.client_buf;
        let task = channel.run_task_at(server_buf, index);
        if index + 1 < CHANNEL_MAX_TASK {
            self.phase = ServerPhase::Execute { index: index + 1 };
        } else {
            self.ready_to_execute = false;
            self.idle_count = 0;
            self.phase = ServerPhase::LoadCount;
        }
        match task {
            Some(task) => ServerAction::Run(task),
            None => ServerAction::Continue,
        }
    }

    /// Swaps the client and server buffers, allowing clients to fill the next buffer while the
    /// server runs the tasks of the current one.
    fn fetch<F>(&mut self, channel: &mut Channel<F>)
        requires
            old(channel).wf(),
            old(self)@.wf(),
            old(self)@.phase == ServerPhase::Swap,
        ensures
            final(channel)@ == server_step(old(channel)@, old(self)@).0,
            final(self)@ == server_step(old(channel)@, old(self)@).1,
            final(channel).wf(),
            final(self)@.wf(),
    {
        self.client_buf = 1 - self.client_buf;
        channel.queue = self.client_buf;
        self.ready_to_execute = true;
        self.phase = ServerPhase::ResetCount;
        assert(channel@.slots =~= old(channel)@.slots);
    }
}

} // verus!
