//! The executor: what a worker does with the tasks that reach its ready queue.
use crate::task::task::{FutureSlot, Task};
use vstd::prelude::*;

verus! {

/// Id to identify executors.
#[derive(Debug, PartialEq, Eq, Structural, Hash, Clone, Copy)]
pub struct ExecutorId(pub usize);

impl ExecutorId {
    pub fn get(&self) -> (id: usize)
        ensures
            id == self.0,
    {
        self.0
    }
}

/// What an executor can be handed: a task to execute, or the signal to stop.
pub enum ExecutorTask<F> {
    /// A task to be executed.
    Task(Task<F>),
    /// The executor should stop.
    Finished,
}

/// Whether an event has happened or is still awaited.
pub enum Status<W> {
    /// The event is awaited; the waker is to be notified when it happens.
    Awaited(W),
    /// The event has happened.
    Happened,
}

impl<F> ExecutorTask<F> {
    /// The name of the variant.
    pub fn to_string(&self) -> (name: String)
        ensures
            self is Task ==> name@ == "ExecutorTask::Task"@,
            self is Finished ==> name@ == "ExecutorTask::Finished"@,
    {
        match self {
            ExecutorTask::Task(_) => "ExecutorTask::Task".to_string(),
            ExecutorTask::Finished => "ExecutorTask::Finished".to_string(),
        }
    }
}

/// What polling a future came to.
#[derive(Debug, PartialEq, Eq, Structural, Clone, Copy)]
pub enum Progress {
    /// The future has not resolved.
    Pending,
    /// The future has resolved.
    Ready,
    /// The future panicked.
    Panicked,
}

/// What an executor finds when it is about to make a task progress.
#[derive(Debug, PartialEq, Eq, Structural, Clone, Copy)]
pub enum Forward {
    /// There is a future to poll.
    Poll,
    /// The future has resolved or panicked before; there is nothing to do.
    Skip,
}

/// What happens to an executor.
pub enum ExecutorEvent<F> {
    /// Something arrived on the ready queue.
    Received(ExecutorTask<F>),
    /// The ready queue is empty and has no sender left.
    QueueClosed,
    /// The task was made to progress, or there was nothing to do.
    Forwarded,
}

/// What an executor does next.
pub enum ExecutorAction<F> {
    /// Make the task progress.
    Forward(Task<F>),
    /// Report to the task manager that this executor is ready, then receive.
    ReportReady(ExecutorId),
    /// Leave the loop.
    Stop,
}

/// Where an executor is in its loop.
#[derive(Debug, PartialEq, Eq, Structural, Clone, Copy)]
pub enum ExecutorState {
    /// It receives from its ready queue.
    Receiving,
    /// It makes a task progress.
    Forwarding,
    /// It has ended.
    Stopped,
}

/// An executor that runs tasks from its ready queue, one at a time, until it is told to stop, and
/// that reports the panics that occur meanwhile.
#[derive(Debug, PartialEq, Eq, Structural, Clone, Copy)]
pub struct Executor {
    pub id: ExecutorId,
    pub state: ExecutorState,
}

/// What is left to run of a task once it has been polled.
pub open spec fn slot_after<F>(slot: FutureSlot<F>, progress: Progress) -> FutureSlot<F> {
    match slot {
        FutureSlot::Runnable(future) => match progress {
            Progress::Pending => slot,
            Progress::Ready => FutureSlot::Finished,
            Progress::Panicked => FutureSlot::Poisoned(future),
        },
        _ => slot,
    }
}

/// The event can occur in that state of the loop.
pub open spec fn event_possible<F>(state: ExecutorState, event: ExecutorEvent<F>) -> bool {
    match event {
        ExecutorEvent::Received(_) => state is Receiving,
        ExecutorEvent::QueueClosed => state is Receiving,
        ExecutorEvent::Forwarded => state is Forwarding,
    }
}

/// Where the loop stands after the event.
pub open spec fn state_after<F>(event: ExecutorEvent<F>) -> ExecutorState {
    match event {
        ExecutorEvent::Received(ExecutorTask::Task(_)) => ExecutorState::Forwarding,
        ExecutorEvent::Received(ExecutorTask::Finished) => ExecutorState::Stopped,
        ExecutorEvent::QueueClosed => ExecutorState::Stopped,
        ExecutorEvent::Forwarded => ExecutorState::Receiving,
    }
}

/// What executor `id` does on the event.
pub open spec fn action_on<F>(id: ExecutorId, event: ExecutorEvent<F>) -> ExecutorAction<F> {
    match event {
        ExecutorEvent::Received(ExecutorTask::Task(task)) => ExecutorAction::Forward(task),
        ExecutorEvent::Received(ExecutorTask::Finished) => ExecutorAction::Stop,
        ExecutorEvent::QueueClosed => ExecutorAction::Stop,
        ExecutorEvent::Forwarded => ExecutorAction::ReportReady(id),
    }
}

impl Executor {
    /// Creates an executor that is about to receive its first task.
    pub fn new(executor_id: usize) -> (executor: Self)
        ensures
            executor.id == ExecutorId(executor_id),
            executor.state is Receiving,
    {
        Executor { id: ExecutorId(executor_id), state: ExecutorState::Receiving }
    }

    /// One turn of the executor's loop: what it does on the event, and where it stands then.
    pub fn run<F>(&mut self, event: ExecutorEvent<F>) -> (action: ExecutorAction<F>)
        requires
            event_possible(old(self).state, event),
        ensures
            action == action_on(old(self).id, event),
            final(self).id == old(self).id,
            final(self).state == state_after(event),
    {
        match event {
            ExecutorEvent::Received(ExecutorTask::Task(task)) => {
                self.state = ExecutorState::Forwarding;
                ExecutorAction::Forward(task)
            },
            ExecutorEvent::Received(ExecutorTask::Finished) => {
                self.state = ExecutorState::Stopped;
                ExecutorAction::Stop
            },
            ExecutorEvent::QueueClosed => {
                self.state = ExecutorState::Stopped;
                ExecutorAction::Stop
            },
            ExecutorEvent::Forwarded => {
                self.state = ExecutorState::Receiving;
                ExecutorAction::ReportReady(self.id)
            },
        }
    }

    /// Tells whether there is a future to poll.
    pub fn start_forward<F>(&self, slot: &FutureSlot<F>) -> (forward: Forward)
        ensures
            forward == (match *slot {
                FutureSlot::Runnable(_) => Forward::Poll,
                FutureSlot::Finished => Forward::Skip,
                FutureSlot::Poisoned(_) => Forward::Skip,
            }),
    {
        match slot {
            FutureSlot::Runnable(_) => Forward::Poll,
            FutureSlot::Finished => Forward::Skip,
            FutureSlot::Poisoned(_) => Forward::Skip,
        }
    }

    /// Takes note of what polling the future came to. A future that resolved is dropped, so that
    /// it is not polled again. Returns whether the panic signal is to be sent.
    pub fn forward<F>(&self, slot: &mut FutureSlot<F>, progress: Progress) -> (signal: bool)
        requires
            *old(slot) is Runnable,
        ensures
            *final(slot) == slot_after(*old(slot), progress),
            signal == (progress is Panicked),
    {
        match progress {
            Progress::Pending => false,
            Progress::Ready => {
                *slot = FutureSlot::Finished;
                false
            },
            Progress::Panicked => {
                let mut taken: FutureSlot<F> = FutureSlot::Finished;
                std::mem::swap(&mut taken, slot);
                if let FutureSlot::Runnable(future) = taken {
                    *slot = FutureSlot::Poisoned(future);
                }
                true
            },
        }
    }

    pub fn id(&self) -> (id: ExecutorId)
        ensures
            id == self.id,
    {
        self.id
    }
}

/// An executor goes on until it is told to stop or its queue closes, whatever its tasks do: after
/// any other event it makes a task progress, or reports ready and receives the next one.
pub proof fn law_executor_runs_until_told_to_stop<F>(
    id: ExecutorId,
    state: ExecutorState,
    event: ExecutorEvent<F>,
)
    requires
        event_possible(state, event),
    ensures
        state_after(event) is Stopped <==> {
            ||| event == ExecutorEvent::<F>::Received(ExecutorTask::Finished)
            ||| event is QueueClosed
        },
        event is Forwarded ==> state_after(event) is Receiving && action_on(id, event)
            == ExecutorAction::<F>::ReportReady(id),
        !event_possible(ExecutorState::Stopped, event),
{
}

/// A future that has resolved is never polled again, and neither is one that panicked: nothing
/// that is reported of it later changes what is left to run.
pub proof fn law_settled_future_stays_settled<F>(
    slot: FutureSlot<F>,
    progress: Progress,
    later: Progress,
)
    requires
        slot is Runnable,
        !(progress is Pending),
    ensures
        !(slot_after(slot, progress) is Runnable),
        slot_after(slot_after(slot, progress), later) == slot_after(slot, progress),
{
}

/// What an executor does on each event: a task that it receives is the one that it makes progress, and
/// when it has, this very executor is the one that reports ready. It does one thing at a time: while
/// it makes a task progress it receives none.
pub proof fn law_executor_forwards_what_it_receives<F>(
    id: ExecutorId,
    task: Task<F>,
    state: ExecutorState,
    event: ExecutorEvent<F>,
)
    ensures
        action_on(id, ExecutorEvent::Received(ExecutorTask::Task(task))) == ExecutorAction::Forward(
            task,
        ),
        state_after(ExecutorEvent::Received(ExecutorTask::Task(task))) is Forwarding,
        action_on::<F>(id, ExecutorEvent::Forwarded) == ExecutorAction::<F>::ReportReady(id),
        state_after::<F>(ExecutorEvent::Forwarded) is Receiving,
        action_on::<F>(id, ExecutorEvent::Received(ExecutorTask::Finished))
            == ExecutorAction::<F>::Stop,
        action_on::<F>(id, ExecutorEvent::QueueClosed) == ExecutorAction::<F>::Stop,
        state_after::<F>(ExecutorEvent::Received(ExecutorTask::Finished)) is Stopped,
        state_after::<F>(ExecutorEvent::QueueClosed) is Stopped,
        event_possible(state, event) <==> {
            ||| state is Receiving && (event is Received || event is QueueClosed)
            ||| state is Forwarding && event is Forwarded
        },
{
}

/// What polling leaves to run: a future that is pending is left as it was, one that resolved is gone,
/// and one that panicked is kept but not runnable any more.
pub proof fn law_polled_future_is_left_as_it_came_out<F>(future: F)
    ensures
        slot_after(FutureSlot::Runnable(future), Progress::Pending) == FutureSlot::Runnable(future),
        slot_after(FutureSlot::Runnable(future), Progress::Ready) == FutureSlot::<F>::Finished,
        slot_after(FutureSlot::Runnable(future), Progress::Panicked) == FutureSlot::Poisoned(future),
{
}

} // verus!
