//! Spawning tasks, and the handle by which a spawned task is awaited.
use crate::executor::{Executor, ExecutorId};
use crate::reactor::{Poll, Reactor, ReactorTag};
use crate::sync::mpsc::bounded_channel::{bounded_channel, BoundedReceiver, BoundedSender};
use crate::sync::mpsc::bounded_channel::{Channel, ChannelState, RecvError};
use crate::task::manager::{Dispatch, ManagerState, TaskManager};
use crate::task::task::{RegistryState, Task, TaskRegistry, TaskTag};
use vstd::prelude::*;

verus! {

/// Number of tasks that can queue up before one executor.
pub const MAX_QUEUED_TASKS: usize = 10000;

/// Spawns tasks onto the executors of a runtime.
#[derive(Debug, Clone, Copy)]
pub struct Spawner;

/// The ready queue of an executor: the number by which it is found, and how many tasks it holds.
#[derive(Debug, PartialEq, Eq, Structural, Clone, Copy)]
pub struct ReadyQueue {
    pub sender: usize,
    pub bound: usize,
}

/// How far a handle has come in receiving the result.
#[derive(Debug, PartialEq, Eq, Structural, Clone, Copy)]
pub enum RecvFuture {
    /// The handle was not polled yet.
    NotStarted,
    /// The handle waits for the result.
    Started,
    /// The handle has given the result away.
    Finished,
}

/// The handle for a spawned task, allowing the caller to await its completion.
#[derive(Debug)]
pub struct JoinHandle<T> {
    /// Receiver for the result of the task.
    pub rx: BoundedReceiver<T>,
    /// Tells whether the task has been awaited.
    pub has_awaited: bool,
    pub recv_fut: RecvFuture,
    pub task: TaskTag,
}

/// The task ended without a result.
#[derive(Debug)]
pub struct JoinHandleError {
    pub msg: String,
}

impl JoinHandleError {
    /// The error message.
    pub fn to_string(&self) -> (msg: String)
        ensures
            msg@ == self.msg@,
    {
        self.msg.as_str().to_string()
    }
}

/// The task that `Task::new` makes of `future`.
pub open spec fn new_task<F>(future: F, manager: usize, registry: RegistryState) -> Task<F> {
    Task { future, task_tag: TaskTag(registry.next_tag), manager }
}

impl Spawner {
    /// Creates the channel by which a spawned task hands over its result. It holds one value.
    pub fn result_channel<T, W>(reactor: &mut Reactor<W>) -> (made: (
        BoundedSender<T>,
        BoundedReceiver<T>,
        Channel<T>,
    ))
        requires
            old(reactor).wf(),
        ensures
            final(reactor).wf(),
            final(reactor)@ == old(reactor)@.after_tag(),
            made.0.reactor_tag == ReactorTag(old(reactor)@.next_tag),
            made.1.reactor_tag == ReactorTag(old(reactor)@.next_tag),
            made.2.wf(),
            made.2@ == (ChannelState::<T> {
                queue: Seq::empty(),
                bound: 1,
                senders: 1,
                receiver_alive: true,
                received: 0,
                tag: ReactorTag(old(reactor)@.next_tag),
            }),
    {
        bounded_channel(1, reactor)
    }

    /// Spawns a task. `future` hands over its result to the channel that `rx` receives from. The
    /// task goes to an executor that waits, otherwise it waits for one.
    pub fn spawn<F, T>(
        future: F,
        rx: BoundedReceiver<T>,
        manager: &mut TaskManager<F>,
        registry: &mut TaskRegistry,
    ) -> (spawned: (JoinHandle<T>, Option<Dispatch<F>>))
        requires
            old(manager).wf(),
            old(manager)@.execute_possible(
                new_task(future, old(manager)@.id, old(registry)@),
                old(registry)@.after_create(),
            ),
        ensures
            final(manager).wf(),
            final(registry)@ == old(registry)@.after_create(),
            spawned.0 == (JoinHandle {
                rx,
                has_awaited: false,
                recv_fut: RecvFuture::NotStarted,
                task: TaskTag(old(registry)@.next_tag),
            }),
            spawned.1 == old(manager)@.execute_dispatch(
                new_task(future, old(manager)@.id, old(registry)@),
                old(registry)@.after_create(),
            ),
            final(manager)@ == old(manager)@.after_execute(
                new_task(future, old(manager)@.id, old(registry)@),
                old(registry)@.after_create(),
            ),
    {
        let task = Task::new(future, manager.id(), registry);
        let handle = JoinHandle {
            rx,
            has_awaited: false,
            recv_fut: RecvFuture::NotStarted,
            task: task.task_tag,
        };
        let dispatch = manager.register_or_execute_non_blocking_task(task, registry);
        (handle, dispatch)
    }

    /// Creates a new executor and spawner, together with the executor's ready queue.
    pub fn new_executor_spawner(executor_id: usize) -> (made: (Executor, Spawner, ReadyQueue))
        ensures
            made.0.id == ExecutorId(executor_id),
            made.0.state is Receiving,
            made.2 == (ReadyQueue { sender: executor_id, bound: MAX_QUEUED_TASKS }),
    {
        (
            Executor::new(executor_id),
            Spawner,
            ReadyQueue { sender: executor_id, bound: MAX_QUEUED_TASKS },
        )
    }
}

/// What a poll of the handle gives, by what the channel gives.
pub open spec fn join_matches<T>(
    polled: Poll<Result<T, JoinHandleError>>,
    received: Poll<Result<T, RecvError>>,
) -> bool {
    match received {
        Poll::Pending => polled is Pending,
        Poll::Ready(Ok(val)) => polled == Poll::Ready(Ok::<T, JoinHandleError>(val)),
        Poll::Ready(Err(_)) => polled matches Poll::Ready(Err(error)) && error.msg@
            == "Error occurred while awaiting task"@,
    }
}

impl<T> JoinHandle<T> {
    /// Polls for the result of the task: the value that it handed over, or an error if it ended
    /// without one.
    pub fn poll<W>(&mut self, channel: &mut Channel<T>, reactor: &mut Reactor<W>, waker: W) -> (polled:
        Poll<Result<T, JoinHandleError>>)
        requires
            old(channel).wf(),
            old(reactor).wf(),
            old(self).rx.reactor_tag == old(channel)@.tag,
            !(old(self).recv_fut is Finished),
        ensures
            final(channel).wf(),
            final(reactor).wf(),
            join_matches(polled, old(channel)@.poll_recv_result()),
            final(channel)@ == old(channel)@.after_recv(),
            final(reactor)@ == old(channel)@.reactor_after_poll(old(reactor)@, waker),
            *final(self) == (JoinHandle {
                has_awaited: true,
                recv_fut: if polled is Pending {
                    RecvFuture::Started
                } else {
                    RecvFuture::Finished
                },
                ..*old(self)
            }),
    {
        self.has_awaited = true;
        self.recv_fut = RecvFuture::Started;
        match self.rx.poll_recv(channel, reactor, waker) {
            Poll::Pending => Poll::Pending,
            Poll::Ready(res) => {
                self.recv_fut = RecvFuture::Finished;
                match res {
                    Ok(val) => Poll::Ready(Ok(val)),
                    Err(_) => Poll::Ready(
                        Err(
                            JoinHandleError { msg: "Error occurred while awaiting task".to_string() },
                        ),
                    ),
                }
            },
        }
    }

    /// Drops the handle: its task is aborted.
    pub fn drop(&self, registry: &mut TaskRegistry)
        ensures
            final(registry)@ == old(registry)@.after_abort(self.task),
    {
        let _ = registry.abort(self.task);
    }
}

/// Dropping the handle of a task that is alive keeps the task from being sent to an executor: not
/// when an executor becomes ready, and not when the task is woken.
pub proof fn law_dropped_handle_stops_the_task<F>(
    state: ManagerState<F>,
    registry: RegistryState,
    tag: TaskTag,
    executor: ExecutorId,
    woken: Task<F>,
    sent: Task<F>,
    sender: usize,
)
    requires
        registry.abort.contains_key(tag.0),
        crate::task::manager::sends(
            state.ready_dispatch(executor, registry.after_abort(tag)),
            sent,
            sender,
        ) || crate::task::manager::sends(
            state.execute_dispatch(woken, registry.after_abort(tag)),
            sent,
            sender,
        ),
    ensures
        sent.task_tag != tag,
{
    crate::task::manager::law_aborted_task_is_never_sent(
        state,
        executor,
        woken,
        registry.after_abort(tag),
        sent,
        sender,
    );
}

/// A spawned task whose handle is kept is sent at once if an executor waits, and waits otherwise.
pub proof fn law_spawned_task_is_sent_or_waits<F>(
    state: ManagerState<F>,
    registry: RegistryState,
    future: F,
)
    ensures
        ({
            let task = new_task(future, state.id, registry);
            let after = registry.after_create();
            if state.executors.len() > 0 {
                crate::task::manager::sends(
                    state.execute_dispatch(task, after),
                    task,
                    state.senders[state.executors[0].0],
                )
            } else {
                state.execute_dispatch(task, after) is None && state.after_execute(
                    task,
                    after,
                ).tasks == state.tasks.push(task)
            }
        }),
{
}

/// Awaiting a handle gives what the task handed over: once the task has sent its result the next
/// poll gives it, and once the task is gone without a result the next poll gives the error.
pub proof fn law_handle_gives_the_result<T>(
    state: ChannelState<T>,
    val: T,
    polled: Poll<Result<T, JoinHandleError>>,
)
    requires
        state.queue.len() == 0,
        state.receiver_alive,
    ensures
        join_matches(polled, state.after_send(val).poll_recv_result()) ==> polled == Poll::Ready(
            Ok::<T, JoinHandleError>(val),
        ),
        state.senders == 0 && join_matches(polled, state.poll_recv_result()) ==> polled matches
            Poll::Ready(Err(_)),
        state.senders > 0 && join_matches(polled, state.poll_recv_result()) ==> polled is Pending,
{
}

/// Number of tasks that can queue up before one executor.
pub proof fn law_ready_queue_limit()
    ensures
        MAX_QUEUED_TASKS == 10_000,
{
}

/// A spawned task is made of the future given, belongs to the manager given, and has the tag that was
/// next, so that it is not aborted when it is spawned.
pub proof fn law_spawned_task_is_the_future_given<F>(
    future: F,
    manager: usize,
    registry: RegistryState,
)
    ensures
        new_task(future, manager, registry).future == future,
        new_task(future, manager, registry).manager == manager,
        new_task(future, manager, registry).task_tag.0 == registry.next_tag,
        !registry.after_create().aborted(new_task(future, manager, registry).task_tag),
{
}

/// A handle passes on what its channel gives: it is pending while the channel is, gives the value that
/// the channel gives, and turns a closed channel into the error.
pub proof fn law_handle_passes_on_what_the_channel_gives<T>(
    polled: Poll<Result<T, JoinHandleError>>,
    received: Poll<Result<T, RecvError>>,
)
    requires
        join_matches(polled, received),
    ensures
        polled is Pending <==> received is Pending,
        received matches Poll::Ready(given) ==> match given {
            Ok(val) => polled == Poll::Ready(Ok::<T, JoinHandleError>(val)),
            Err(_) => polled matches Poll::Ready(Err(error)) && error.msg@
                == "Error occurred while awaiting task"@,
        },
{
}

} // verus!
