//! How a task is run on the thread that it was sent to.
//!
//! The task borrows its service, runs on the stream of the thread that submitted it, and reaches
//! the service as what its handle sees it as.

use crate::ids::StreamId;
use crate::service_states::{ActOnError, ServiceStates};
use vstd::prelude::*;

verus! {

use crate::service_states::StatesView;

/// What goes with a task to the thread that runs it.
#[derive(Clone, Copy, Debug, PartialEq, Eq, Structural)]
pub struct TaskContext {
    /// The service that the task is for, unless it needs none.
    pub service: Option<u64>,
    /// The number of the cast that turns the service into what it is seen as, if any.
    pub cast: Option<u64>,
    /// The stream of the thread that submitted the task.
    pub stream: StreamId,
}

/// What is done next for a task.
#[derive(Clone, Copy, Debug, PartialEq, Eq, Structural)]
pub enum TaskPhase {
    /// Borrow the service.
    Start,
    /// The cast is applied.
    Casting,
    /// The task runs.
    Running,
    /// Nothing: the task is over, or was refused.
    Over,
}

/// What happened since the last step.
#[derive(Clone, Copy, Debug, PartialEq, Eq, Structural)]
pub enum TaskEvent {
    /// Nothing yet.
    Begin,
    /// What the last action asked for returned.
    Returned,
    /// What the last action asked for panicked.
    Panicked,
}

/// What the thread does next.
#[derive(Clone, Copy, Debug, PartialEq, Eq, Structural)]
pub enum TaskAction {
    /// Drop the task: its service cannot be borrowed. That counts as a panic.
    Refused(ActOnError),
    /// Apply the cast with a number to the service.
    Cast(u64),
    /// Call the task, on what the service is seen as.
    Call,
    /// The task is over; `returned` unless it, or the cast, panicked.
    Finished {
        /// Whether the task returned.
        returned: bool,
    },
    /// The event does not belong here.
    Unexpected,
}

/// A task on the thread that runs it.
#[derive(Clone, Copy, Debug, PartialEq, Eq, Structural)]
pub struct TaskRun {
    /// What went with the task.
    pub context: TaskContext,
    /// What is done next.
    pub phase: TaskPhase,
    /// The stream of the thread before the task.
    pub former_stream: StreamId,
}

/// A task, and what it finds on the thread that runs it.
#[verifier::ext_equal]
pub struct TaskState {
    /// The task.
    pub run: TaskRun,
    /// The services of the thread.
    pub states: StatesView,
    /// The stream of the thread.
    pub stream: StreamId,
}

impl TaskState {
    /// The state in another phase.
    pub open spec fn at(self, phase: TaskPhase) -> Self {
        TaskState { run: TaskRun { phase, ..self.run }, ..self }
    }

    /// The service cannot be borrowed.
    pub open spec fn refusal(self) -> Option<ActOnError> {
        match self.run.context.service {
            Some(service) => match self.states.act_on_spec(service) {
                Err(error) => Some(error),
                Ok(()) => None,
            },
            None => None,
        }
    }

    /// The service is borrowed, and the thread is on the stream of the task.
    pub open spec fn begun(self) -> Self {
        TaskState {
            run: TaskRun { former_stream: self.stream, ..self.run },
            states: match self.run.context.service {
                Some(service) => self.states.acted_on(service),
                None => self.states,
            },
            stream: self.run.context.stream,
        }
    }

    /// The service is given back, and the thread is on its former stream.
    pub open spec fn ended(self) -> Self {
        TaskState {
            states: match self.run.context.service {
                Some(service) => self.states.given_back(service),
                None => self.states,
            },
            stream: self.run.former_stream,
            ..self
        }
    }

    /// There is room for one more borrow, and what the task borrowed can be given back.
    pub open spec fn fits(self) -> bool {
        &&& self.states.acting < usize::MAX
        &&& (self.run.phase is Casting || self.run.phase is Running)
            && self.run.context.service is Some ==> self.states.acting > 0
    }
}

/// One step of a task.
pub open spec fn task_step(t: TaskState, event: TaskEvent) -> TaskState {
    match (t.run.phase, event) {
        (TaskPhase::Start, TaskEvent::Begin) => if t.refusal() is Some {
            t.at(TaskPhase::Over)
        } else if t.run.context.cast is Some {
            t.begun().at(TaskPhase::Casting)
        } else {
            t.begun().at(TaskPhase::Running)
        },
        (TaskPhase::Casting, TaskEvent::Returned) => t.at(TaskPhase::Running),
        (TaskPhase::Casting, TaskEvent::Panicked) => t.ended().at(TaskPhase::Over),
        (TaskPhase::Running, TaskEvent::Returned) => t.ended().at(TaskPhase::Over),
        (TaskPhase::Running, TaskEvent::Panicked) => t.ended().at(TaskPhase::Over),
        _ => t,
    }
}

/// What the thread does after a step.
pub open spec fn task_action(t: TaskState, event: TaskEvent) -> TaskAction {
    match (t.run.phase, event) {
        (TaskPhase::Start, TaskEvent::Begin) => match t.refusal() {
            Some(error) => TaskAction::Refused(error),
            None => match t.run.context.cast {
                Some(cast) => TaskAction::Cast(cast),
                None => TaskAction::Call,
            },
        },
        (TaskPhase::Casting, TaskEvent::Returned) => TaskAction::Call,
        (TaskPhase::Casting, TaskEvent::Panicked) => TaskAction::Finished { returned: false },
        (TaskPhase::Running, TaskEvent::Returned) => TaskAction::Finished { returned: true },
        (TaskPhase::Running, TaskEvent::Panicked) => TaskAction::Finished { returned: false },
        _ => TaskAction::Unexpected,
    }
}

impl TaskRun {
    /// Starts to run a task.
    pub fn start(context: TaskContext) -> (run: Self)
        ensures
            run == (TaskRun {
                context,
                phase: TaskPhase::Start,
                former_stream: context.stream,
            }),
    {
        TaskRun { context, phase: TaskPhase::Start, former_stream: context.stream }
    }

    /// Takes one step, with the services and the stream of the thread.
    pub fn step(
        &mut self,
        event: TaskEvent,
        states: &mut ServiceStates,
        stream: &mut StreamId,
    ) -> (action: TaskAction)
        requires
            (TaskState { run: *old(self), states: old(states)@, stream: *old(stream) }).fits(),
        ensures
            ({
                let before = TaskState {
                    run: *old(self),
                    states: old(states)@,
                    stream: *old(stream),
                };
                &&& task_step(before, event) == (TaskState {
                    run: *final(self),
                    states: final(states)@,
                    stream: *final(stream),
                })
                &&& action == task_action(before, event)
            }),
    {
        match (self.phase, event) {
            (TaskPhase::Start, TaskEvent::Begin) => {
                if let Some(service) = self.context.service {
                    if let Err(error) = states.act_on(service) {
                        self.phase = TaskPhase::Over;
                        return TaskAction::Refused(error);
                    }
                }
                self.former_stream = *stream;
                *stream = self.context.stream;
                match self.context.cast {
                    Some(cast) => {
                        self.phase = TaskPhase::Casting;
                        TaskAction::Cast(cast)
                    },
                    None => {
                        self.phase = TaskPhase::Running;
                        TaskAction::Call
                    },
                }
            },
            (TaskPhase::Casting, TaskEvent::Returned) => {
                self.phase = TaskPhase::Running;
                TaskAction::Call
            },
            (TaskPhase::Casting, TaskEvent::Panicked) => {
                self.end(states, stream);
                TaskAction::Finished { returned: false }
            },
            (TaskPhase::Running, TaskEvent::Returned) => {
                self.end(states, stream);
                TaskAction::Finished { returned: true }
            },
            (TaskPhase::Running, TaskEvent::Panicked) => {
                self.end(states, stream);
                TaskAction::Finished { returned: false }
            },
            _ => TaskAction::Unexpected,
        }
    }

    fn end(&mut self, states: &mut ServiceStates, stream: &mut StreamId)
        requires
            old(self).context.service is Some ==> old(states)@.acting > 0,
        ensures
            ({
                let before = TaskState {
                    run: *old(self),
                    states: old(states)@,
                    stream: *old(stream),
                };
                before.ended().at(TaskPhase::Over) == (TaskState {
                    run: *final(self),
                    states: final(states)@,
                    stream: *final(stream),
                })
            }),
    {
        if let Some(service) = self.context.service {
            states.end_act_on(service);
        }
        *stream = self.former_stream;
        self.phase = TaskPhase::Over;
    }
}

/// A task, and what the thread did for it so far.
#[verifier::ext_equal]
pub struct TaskHistory {
    /// The task, and what it finds on the thread.
    pub now: TaskState,
    /// The casts that were applied.
    pub casts: Seq<u64>,
    /// Number of times that the task was called.
    pub calls: nat,
}

/// A task for which nothing was done yet.
pub open spec fn untouched(
    context: TaskContext,
    states: StatesView,
    stream: StreamId,
) -> TaskHistory {
    TaskHistory {
        now: TaskState {
            run: TaskRun { context, phase: TaskPhase::Start, former_stream: context.stream },
            states,
            stream,
        },
        casts: Seq::empty(),
        calls: 0,
    }
}

/// A task after one more step.
pub open spec fn history_step(h: TaskHistory, event: TaskEvent) -> TaskHistory {
    TaskHistory {
        now: task_step(h.now, event),
        casts: match task_action(h.now, event) {
            TaskAction::Cast(cast) => h.casts.push(cast),
            _ => h.casts,
        },
        calls: match task_action(h.now, event) {
            TaskAction::Call => h.calls + 1,
            _ => h.calls,
        },
    }
}

/// A task after steps, one for each event.
pub open spec fn history(start: TaskHistory, events: Seq<TaskEvent>) -> TaskHistory
    decreases events.len(),
{
    if events.len() == 0 {
        start
    } else {
        history_step(history(start, events.drop_last()), events.last())
    }
}

/// The task returned in one of the steps.
pub open spec fn has_returned(start: TaskHistory, events: Seq<TaskEvent>) -> bool
    decreases events.len(),
{
    events.len() > 0 && (has_returned(start, events.drop_last()) || task_action(
        history(start, events.drop_last()).now,
        events.last(),
    ) == (TaskAction::Finished { returned: true }))
}

/// The casts that a task needs: the one that its service is seen through, or none.
pub open spec fn casts_of(context: TaskContext) -> Seq<u64> {
    match context.cast {
        Some(cast) => seq![cast],
        None => Seq::empty(),
    }
}

/// What was done for a task fits its phase.
pub open spec fn history_inv(start: TaskHistory, h: TaskHistory) -> bool {
    let context = start.now.run.context;
    let begun = start.now.begun();
    &&& h.now.run.context == context
    &&& match h.now.run.phase {
        TaskPhase::Start => h == start,
        TaskPhase::Casting => {
            &&& start.now.refusal() is None
            &&& h.now == begun.at(TaskPhase::Casting)
            &&& context.cast is Some
            &&& h.casts == casts_of(context)
            &&& h.calls == 0
        },
        TaskPhase::Running => {
            &&& start.now.refusal() is None
            &&& h.now == begun.at(TaskPhase::Running)
            &&& h.casts == casts_of(context)
            &&& h.calls == 1
        },
        TaskPhase::Over => {
            &&& h.now.states == start.now.states
            &&& h.now.stream == start.now.stream
            &&& if start.now.refusal() is Some {
                h.casts.len() == 0 && h.calls == 0
            } else {
                &&& h.casts == casts_of(context)
                &&& h.calls == 1 || (h.calls == 0 && context.cast is Some)
            }
        },
    }
}

/// A task whose service can be borrowed is called at most once, on the stream of the thread that
/// submitted it, and its cast is applied exactly once, before that; a refused one is neither cast
/// nor called. When it is over, whether it panicked or not, the thread has its services and its
/// stream as they were, so the next task finds the service there.
pub proof fn law_cast_is_applied_once(
    context: TaskContext,
    states: StatesView,
    stream: StreamId,
    events: Seq<TaskEvent>,
)
    requires
        states.acting < usize::MAX,
    ensures
        ({
            let start = untouched(context, states, stream);
            let h = history(start, events);
            let phase = h.now.run.phase;
            &&& history_inv(start, h)
            &&& h.calls <= 1
            &&& h.calls == 1 ==> h.casts == casts_of(context) && start.now.refusal() is None
            &&& phase is Running ==> h.now.stream == context.stream
            &&& phase is Over ==> h.now.states == states && h.now.stream == stream
            &&& phase is Over && start.now.refusal() is None && context.cast is None ==> h.calls
                == 1
            &&& has_returned(start, events) ==> phase is Over && h.calls == 1
        }),
    decreases events.len(),
{
    let start = untouched(context, states, stream);
    if events.len() > 0 {
        law_cast_is_applied_once(context, states, stream, events.drop_last());
        let before = history(start, events.drop_last());
        let h = history_step(before, events.last());
        assert(h.casts =~= casts_of(context) || h.casts.len() == 0);
        if context.service is Some && start.now.refusal() is None {
            let service = context.service->0;
            assert(start.now.begun().ended().states =~= states);
        }
    }
}

/// While a task runs its service is borrowed, so no task runs on it from further down the same
/// thread; the services of the thread are the ones that were there. The task returned exactly if it
/// was called and returned.
pub proof fn law_running_task_has_its_service(
    context: TaskContext,
    states: StatesView,
    stream: StreamId,
    events: Seq<TaskEvent>,
    event: TaskEvent,
)
    requires
        states.acting < usize::MAX,
    ensures
        ({
            let h = history(untouched(context, states, stream), events);
            let phase = h.now.run.phase;
            &&& phase is Running || phase is Casting ==> h.now.states.services == states.services
                && h.now.stream == context.stream && h.now.run.former_stream == stream
            &&& (phase is Running || phase is Casting) && context.service is Some
                ==> h.now.states.is_borrowed(context.service->0) && !states.is_borrowed(
                context.service->0,
            ) && states.has(context.service->0)
            &&& (phase is Running || phase is Casting) && context.service is None ==> h.now.states
                == states
            &&& task_action(h.now, event) == (TaskAction::Finished { returned: true }) <==> phase
                is Running && event is Returned
            &&& task_action(h.now, event) == (TaskAction::Finished { returned: false }) <==> (phase
                is Running || phase is Casting) && event is Panicked
            &&& task_action(h.now, event) is Cast ==> context.cast is Some && task_action(
                h.now,
                event,
            ) == TaskAction::Cast(context.cast->0)
        }),
{
    law_cast_is_applied_once(context, states, stream, events);
}

} // verus!
