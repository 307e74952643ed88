//! The runtime: its workers, the guard against nesting, and the handle to it.
use crate::executor::{Executor, ExecutorId};
use crate::spawner::{new_task, JoinHandle, ReadyQueue, RecvFuture, Spawner, MAX_QUEUED_TASKS};
use crate::sync::mpsc::bounded_channel::{BoundedReceiver, RecvError};
use crate::task::manager::{generate_task_manager_id, Dispatch, ManagerState, TaskManager};
use crate::task::manager::MAX_WAITING;
use crate::task::task::{Task, TaskRegistry, TaskTag};
use crate::utils::counter::number_after;
use vstd::prelude::*;

verus! {

/// Collects what a runtime is to be like.
#[derive(Debug, PartialEq, Eq, Structural, Clone, Copy)]
pub struct RuntimeBuilder {
    pub num_workers: usize,
}

/// Handle for interacting with the runtime, providing task spawning and worker count retrieval.
#[derive(Debug, PartialEq, Eq, Structural, Clone, Copy)]
pub struct Handle {
    /// Number of the channel that tells of executors that panicked.
    pub panic_rx: usize,
}

/// The runtime, managing task execution across its worker threads.
#[derive(Debug)]
pub struct Runtime {
    /// The worker threads, by the number of the executor that each runs.
    pub handles: Vec<Option<usize>>,
    /// Handle for interacting with the runtime.
    pub runtime_handle: Handle,
    /// Number of the task manager that the workers are registered with.
    pub manager: usize,
}

/// What a runtime holds.
#[verifier::ext_equal]
pub struct RuntimeState {
    pub handles: Seq<Option<usize>>,
    pub runtime_handle: Handle,
    pub manager: usize,
}

/// A worker to be started: its executor, and the ready queue that the executor receives from.
#[derive(Debug, PartialEq, Eq, Structural, Clone, Copy)]
pub struct Worker {
    pub executor: Executor,
    pub queue: ReadyQueue,
}

/// What one thread knows of runtimes: whether one is active in it, which one it belongs to, and
/// which ones it belonged to before.
#[derive(Debug)]
pub struct LocalRuntime {
    guard: bool,
    runtime: Option<Runtime>,
    /// The runtimes that were left when another was built, oldest first.
    left: Vec<Runtime>,
}

/// What a thread knows of runtimes.
#[verifier::ext_equal]
pub struct LocalState {
    pub guard: bool,
    pub runtime: Option<RuntimeState>,
    /// The runtimes that were left when another was built, oldest first.
    pub left: Seq<RuntimeState>,
}

/// How a blocking call ends.
#[derive(Debug)]
pub enum BlockingOutcome<T> {
    /// The task gave this result.
    Value(T),
    /// The task was lost before it gave a result.
    TaskFailed,
    /// An executor panicked meanwhile.
    ExecutorPanicked,
}

/// The worker threads of a fresh runtime: one for each executor, in order.
pub open spec fn worker_handles(num_workers: nat) -> Seq<Option<usize>> {
    Seq::new(num_workers, |i: int| Some(i as usize))
}

/// The workers of a fresh runtime: the executors are numbered from zero.
pub open spec fn workers(num_workers: nat) -> Seq<Worker> {
    Seq::new(
        num_workers,
        |i: int|
            Worker {
                executor: Executor {
                    id: ExecutorId(i as usize),
                    state: crate::executor::ExecutorState::Receiving,
                },
                queue: ReadyQueue { sender: i as usize, bound: MAX_QUEUED_TASKS },
            },
    )
}

/// A manager that has exactly the first `num_workers` executors: each is registered under its own
/// number and waits for a task, in order. The tasks are those of `state`.
pub open spec fn with_workers<F>(state: ManagerState<F>, num_workers: nat) -> ManagerState<F> {
    ManagerState {
        executors: Seq::new(num_workers, |i: int| ExecutorId(i as usize)),
        senders: Map::new(|i: usize| i < num_workers, |i: usize| i),
        ..state
    }
}

/// The manager that the workers of a new runtime are registered with: `state`, which is that of the
/// thread, unless it serves executors already; then it is left to them, and the new workers get a
/// fresh one.
pub open spec fn manager_to_fill<F>(state: ManagerState<F>, fresh_id: usize) -> ManagerState<F> {
    if state.serves_executors() {
        ManagerState::fresh(fresh_id)
    } else {
        state
    }
}

impl View for Runtime {
    type V = RuntimeState;

    open spec fn view(&self) -> RuntimeState {
        RuntimeState {
            handles: self.handles@,
            runtime_handle: self.runtime_handle,
            manager: self.manager,
        }
    }
}

impl View for LocalRuntime {
    type V = LocalState;

    closed spec fn view(&self) -> LocalState {
        LocalState {
            guard: self.guard,
            runtime: match self.runtime {
                Some(runtime) => Some(runtime@),
                None => None,
            },
            left: self.left@.map_values(|runtime: Runtime| runtime@),
        }
    }
}

/// The last of the runtimes that has the handle.
pub open spec fn last_with(runtimes: Seq<RuntimeState>, handle: Handle) -> Option<RuntimeState>
    decreases runtimes.len(),
{
    if runtimes.len() == 0 {
        None
    } else if runtimes.last().runtime_handle == handle {
        Some(runtimes.last())
    } else {
        last_with(runtimes.drop_last(), handle)
    }
}

impl LocalState {
    /// The thread belongs or belonged to a runtime with the handle.
    pub open spec fn knows(self, handle: Handle) -> bool {
        ||| self.runtime is Some && self.runtime.unwrap().runtime_handle == handle
        ||| last_with(self.left, handle) is Some
    }

    /// The runtime that a handle leads to in the thread: the last one with that handle that the
    /// thread belongs or belonged to. A handle that comes from elsewhere leads to the runtime that
    /// the thread belongs to.
    pub open spec fn runtime_of(self, handle: Handle) -> RuntimeState {
        if self.runtime.unwrap().runtime_handle == handle {
            self.runtime.unwrap()
        } else {
            match last_with(self.left, handle) {
                Some(runtime) => runtime,
                None => self.runtime.unwrap(),
            }
        }
    }

    /// No runtime is active in the thread, so one may be built or entered.
    pub open spec fn may_enter(self) -> bool {
        !self.guard
    }

    /// What the thread knows once it has left the runtime that was active.
    pub open spec fn after_exit(self) -> LocalState {
        LocalState { guard: false, ..self }
    }

    /// The runtime of a thread that has one is kept; otherwise it is this one from now on.
    pub open spec fn after_install(self, runtime: RuntimeState) -> LocalState {
        if self.runtime is Some {
            self
        } else {
            LocalState { runtime: Some(runtime), ..self }
        }
    }

    /// What the thread knows once a runtime with so many workers, which are registered with that
    /// manager, has been built in it.
    pub open spec fn after_build(
        self,
        num_workers: usize,
        panic_rx: usize,
        manager: usize,
    ) -> LocalState {
        LocalState {
            guard: true,
            runtime: Some(
                RuntimeState {
                    handles: worker_handles(num_workers as nat),
                    runtime_handle: Handle { panic_rx },
                    manager,
                },
            ),
            left: match self.runtime {
                Some(runtime) => self.left.push(runtime),
                None => self.left,
            },
        }
    }
}

impl LocalRuntime {
    /// A thread that knows of no runtime.
    pub fn new() -> (local: Self)
        ensures
            local@ == (LocalState { guard: false, runtime: None, left: Seq::empty() }),
    {
        let local = LocalRuntime { guard: false, runtime: None, left: Vec::new() };
        assert(local@.left =~= Seq::empty());
        local
    }

    /// Tells whether a runtime is active in this thread.
    pub fn is_guarded(&self) -> (guarded: bool)
        ensures
            guarded == self@.guard,
    {
        self.guard
    }

    /// The runtime that the thread belongs to.
    pub fn runtime(&self) -> (runtime: Option<&Runtime>)
        ensures
            runtime is Some <==> self@.runtime is Some,
            runtime matches Some(known) ==> self@.runtime == Some(known@),
    {
        self.runtime.as_ref()
    }

    /// The runtime that a handle leads to in this thread: the last one with that handle that the
    /// thread belongs or belonged to, otherwise the one that it belongs to.
    pub fn runtime_of(&self, handle: Handle) -> (runtime: &Runtime)
        requires
            self@.runtime is Some,
        ensures
            runtime@ == self@.runtime_of(handle),
    {
        let current = self.runtime.as_ref().unwrap();
        if current.runtime_handle == handle {
            return current;
        }
        let mut i: usize = self.left.len();
        assert(self@.left.take(i as int) =~= self@.left);
        while i > 0
            invariant
                i <= self.left@.len(),
                self@.left.len() == self.left@.len(),
                forall|j: int|
                    0 <= j < self.left@.len() ==> self@.left[j] == (#[trigger] self.left@[j])@,
                last_with(self@.left, handle) == last_with(self@.left.take(i as int), handle),
                self@.runtime is Some,
                self@.runtime.unwrap().runtime_handle != handle,
            decreases i,
        {
            let ghost known = self@.left.take(i as int);
            assert(known.last() == self.left@[i - 1]@);
            assert(known.drop_last() =~= self@.left.take(i - 1));
            i = i - 1;
            if self.left[i].runtime_handle == handle {
                return &self.left[i];
            }
        }
        current
    }

    /// Lets the thread belong to `runtime`, unless it belongs to one already.
    pub fn install(&mut self, runtime: Runtime)
        ensures
            final(self)@ == old(self)@.after_install(runtime@),
    {
        if self.runtime.is_none() {
            self.runtime = Some(runtime);
        }
    }

    /// Sets the runtime guard. No runtime may be active in the thread, so that none is nested in
    /// another.
    pub fn set_runtime_guard(&mut self)
        requires
            old(self)@.may_enter(),
        ensures
            final(self)@ == (LocalState { guard: true, ..old(self)@ }),
    {
        self.guard = true;
    }

    /// Exits the runtime guard, allowing another runtime to be created in this thread.
    pub fn exit_runtime_guard(&mut self)
        ensures
            final(self)@ == old(self)@.after_exit(),
    {
        self.guard = false;
    }
}

impl RuntimeBuilder {
    pub fn new() -> (builder: Self)
        ensures
            builder.num_workers == 1,
    {
        RuntimeBuilder { num_workers: 1 }
    }

    pub fn num_workers(self, num_workers: usize) -> (builder: Self)
        ensures
            builder.num_workers == num_workers,
    {
        RuntimeBuilder { num_workers }
    }

    /// Builds the runtime, returning a handle for task management and the workers to be started.
    ///
    /// The thread belongs to the new runtime from now on, also if it belonged to another before;
    /// the handle to that one still leads to it.
    /// The workers are registered with `manager`, the thread's, which then has no other executors:
    /// one that serves executors already is replaced by a fresh one, numbered from
    /// `next_manager_id`, and is returned, for those executors to go on with. `panic_rx` is the
    /// number of the channel that is to tell of executors that panicked.
    pub fn build<F>(
        self,
        local: &mut LocalRuntime,
        manager: &mut TaskManager<F>,
        next_manager_id: &mut usize,
        panic_rx: usize,
    ) -> (built: (Handle, Vec<Worker>, Option<TaskManager<F>>))
        requires
            old(local)@.may_enter(),
            old(manager).wf(),
            self.num_workers <= MAX_WAITING,
        ensures
            final(manager).wf(),
            final(local)@ == old(local)@.after_build(
                self.num_workers,
                panic_rx,
                manager_to_fill(old(manager)@, *old(next_manager_id)).id,
            ),
            built.0 == (Handle { panic_rx }),
            built.1@ == workers(self.num_workers as nat),
            final(manager)@ == with_workers(
                manager_to_fill(old(manager)@, *old(next_manager_id)),
                self.num_workers as nat,
            ),
            built.2 is Some <==> old(manager)@.serves_executors(),
            built.2 matches Some(left) ==> left.wf() && left@ == old(manager)@,
            *final(next_manager_id) == (if old(manager)@.serves_executors() {
                number_after(*old(next_manager_id))
            } else {
                *old(next_manager_id)
            }),
    {
        local.set_runtime_guard();
        let num_workers: usize = self.num_workers;
        let mut left: Option<TaskManager<F>> = None;
        if manager.serves_executors() {
            let mut other: TaskManager<F> = TaskManager::new(
                generate_task_manager_id(next_manager_id),
            );
            std::mem::swap(manager, &mut other);
            left = Some(other);
        }
        let ghost filled = manager@;
        assert(filled == with_workers(filled, 0));
        let mut started: Vec<Worker> = Vec::new();
        let mut handles: Vec<Option<usize>> = Vec::new();
        let mut i: usize = 0;
        while i < num_workers
            invariant
                i <= num_workers <= MAX_WAITING,
                manager.wf(),
                manager@ == with_workers(filled, i as nat),
                handles@ =~= worker_handles(i as nat),
                started@ =~= workers(i as nat),
            decreases num_workers - i,
        {
            let (executor, _, queue) = Spawner::new_executor_spawner(i);
            manager.register_executor(executor.id(), queue.sender);
            assert(manager@ =~= with_workers(filled, (i + 1) as nat));
            started.push(Worker { executor, queue });
            handles.push(Some(i));
            i = i + 1;
        }
        let mut before: Option<Runtime> = Some(
            Runtime { handles, runtime_handle: Handle { panic_rx }, manager: manager.id() },
        );
        std::mem::swap(&mut local.runtime, &mut before);
        if let Some(runtime) = before {
            local.left.push(runtime);
        }
        assert(local@ =~= old(local)@.after_build(num_workers, panic_rx, filled.id));
        (Runtime::handle(local), started, left)
    }
}

impl Default for RuntimeBuilder {
    fn default() -> (builder: Self)
        ensures
            builder.num_workers == 1,
    {
        RuntimeBuilder::new()
    }
}

impl Handle {
    /// How a blocking call ends, once it is known what the task gave and whether an executor has
    /// reported a panic. A panic leaves the thread free to build another runtime.
    pub fn run_blocking<T>(
        &self,
        result: Result<T, RecvError>,
        panicked: bool,
        local: &mut LocalRuntime,
    ) -> (outcome: BlockingOutcome<T>)
        ensures
            outcome == (match result {
                Err(_) => BlockingOutcome::TaskFailed,
                Ok(value) => if panicked {
                    BlockingOutcome::ExecutorPanicked
                } else {
                    BlockingOutcome::Value(value)
                },
            }),
            final(local)@ == (if outcome is ExecutorPanicked {
                old(local)@.after_exit()
            } else {
                old(local)@
            }),
    {
        match result {
            Err(_) => BlockingOutcome::TaskFailed,
            Ok(value) => {
                if panicked {
                    local.exit_runtime_guard();
                    return BlockingOutcome::ExecutorPanicked;
                }
                BlockingOutcome::Value(value)
            },
        }
    }

    /// Spawns a non-blocking task on the runtime that the handle leads to, whose manager is
    /// `manager`.
    pub fn spawn<F, T>(
        &self,
        future: F,
        rx: BoundedReceiver<T>,
        local: &LocalRuntime,
        manager: &mut TaskManager<F>,
        registry: &mut TaskRegistry,
    ) -> (spawned: (JoinHandle<T>, Option<Dispatch<F>>))
        requires
            local@.runtime is Some,
            old(manager).wf(),
            old(manager)@.id == local@.runtime_of(*self).manager,
            old(manager)@.execute_possible(
                new_task(future, old(manager)@.id, old(registry)@),
                old(registry)@.after_create(),
            ),
        ensures
            final(manager).wf(),
            final(registry)@ == old(registry)@.after_create(),
            spawned.0 == (JoinHandle {
                rx,
                has_awaited: false,
                recv_fut: RecvFuture::NotStarted,
                task: TaskTag(old(registry)@.next_tag),
            }),
            spawned.1 == old(manager)@.execute_dispatch(
                new_task(future, old(manager)@.id, old(registry)@),
                old(registry)@.after_create(),
            ),
            final(manager)@ == old(manager)@.after_execute(
                new_task(future, old(manager)@.id, old(registry)@),
                old(registry)@.after_create(),
            ),
    {
        let runtime = local.runtime_of(*self);
        runtime.dispatch_job(future, rx, manager, registry)
    }

    /// Returns the number of worker threads in the runtime that the handle leads to.
    pub fn num_workers(&self, local: &LocalRuntime) -> (num_workers: usize)
        requires
            local@.runtime is Some,
        ensures
            num_workers == local@.runtime_of(*self).handles.len(),
    {
        local.runtime_of(*self).handles.len()
    }
}

impl Runtime {
    /// The handle to the runtime that the thread belongs to.
    pub fn handle(local: &LocalRuntime) -> (handle: Handle)
        requires
            local@.runtime is Some,
        ensures
            handle == local@.runtime.unwrap().runtime_handle,
    {
        local.runtime().unwrap().runtime_handle
    }

    /// Dispatches a job to the worker that has waited longest.
    pub fn dispatch_job<F, T>(
        &self,
        future: F,
        rx: BoundedReceiver<T>,
        manager: &mut TaskManager<F>,
        registry: &mut TaskRegistry,
    ) -> (spawned: (JoinHandle<T>, Option<Dispatch<F>>))
        requires
            old(manager).wf(),
            old(manager)@.execute_possible(
                new_task(future, old(manager)@.id, old(registry)@),
                old(registry)@.after_create(),
            ),
        ensures
            final(manager).wf(),
            final(registry)@ == old(registry)@.after_create(),
            spawned.0 == (JoinHandle {
                rx,
                has_awaited: false,
                recv_fut: RecvFuture::NotStarted,
                task: TaskTag(old(registry)@.next_tag),
            }),
            spawned.1 == old(manager)@.execute_dispatch(
                new_task(future, old(manager)@.id, old(registry)@),
                old(registry)@.after_create(),
            ),
            final(manager)@ == old(manager)@.after_execute(
                new_task(future, old(manager)@.id, old(registry)@),
                old(registry)@.after_create(),
            ),
    {
        Spawner::spawn(future, rx, manager, registry)
    }

    /// Starts a blocking call: `future` becomes a task, which goes to a worker that waits or else
    /// waits for one. Returns the tag of the task and what is to be sent.
    pub fn running_block<F>(
        &self,
        future: F,
        manager: &mut TaskManager<F>,
        registry: &mut TaskRegistry,
    ) -> (started: (TaskTag, Option<Dispatch<F>>))
        requires
            old(manager).wf(),
            old(manager)@.execute_possible(
                new_task(future, old(manager)@.id, old(registry)@),
                old(registry)@.after_create(),
            ),
        ensures
            final(manager).wf(),
            final(registry)@ == old(registry)@.after_create(),
            started.0 == TaskTag(old(registry)@.next_tag),
            started.1 == old(manager)@.execute_dispatch(
                new_task(future, old(manager)@.id, old(registry)@),
                old(registry)@.after_create(),
            ),
            final(manager)@ == old(manager)@.after_execute(
                new_task(future, old(manager)@.id, old(registry)@),
                old(registry)@.after_create(),
            ),
    {
        let task = Task::new(future, manager.id(), registry);
        let task_tag = task.task_tag;
        (task_tag, manager.register_or_execute_non_blocking_task(task, registry))
    }

    /// Drops the runtime: returns the workers that are still to be stopped, each by sending it
    /// `ExecutorTask::Finished`, and joined. The thread has left the runtime.
    pub fn drop(&mut self, local: &mut LocalRuntime) -> (stopped: Vec<usize>)
        ensures
            final(local)@ == old(local)@.after_exit(),
            stopped@ == workers_left(old(self)@.handles, old(self)@.handles.len()),
            final(self)@ == (RuntimeState {
                handles: Seq::new(old(self)@.handles.len(), |i: int| None),
                ..old(self)@
            }),
    {
        let mut stopped: Vec<usize> = Vec::new();
        let mut i: usize = 0;
        while i < self.handles.len()
            invariant
                i <= self.handles@.len(),
                self.handles@.len() == old(self)@.handles.len(),
                self.runtime_handle == old(self)@.runtime_handle,
                self.manager == old(self)@.manager,
                forall|j: int| 0 <= j < i ==> #[trigger] self.handles@[j] is None,
                forall|j: int|
                    i <= j < self.handles@.len() ==> #[trigger] self.handles@[j] == old(
                        self,
                    )@.handles[j],
                stopped@ == workers_left(old(self)@.handles, i as nat),
            decreases self.handles.len() - i,
        {
            if let Some(worker) = self.handles[i] {
                stopped.push(worker);
            }
            self.handles[i] = None;
            i = i + 1;
        }
        assert(self@.handles =~= Seq::new(old(self)@.handles.len(), |i: int| None));
        local.exit_runtime_guard();
        stopped
    }
}

/// The workers among the first `n` handles that were not taken yet, in order.
pub open spec fn workers_left(handles: Seq<Option<usize>>, n: nat) -> Seq<usize>
    recommends
        n <= handles.len(),
    decreases n,
{
    if n == 0 {
        Seq::empty()
    } else {
        let earlier = workers_left(handles, (n - 1) as nat);
        match handles[n - 1] {
            Some(worker) => earlier.push(worker),
            None => earlier,
        }
    }
}

/// Dropping a fresh runtime stops every worker, each of them once; dropping it again stops none.
pub proof fn law_drop_stops_every_worker(num_workers: nat)
    requires
        num_workers <= usize::MAX,
    ensures
        workers_left(worker_handles(num_workers), num_workers) == Seq::new(
            num_workers,
            |i: int| i as usize,
        ),
        workers_left(Seq::new(num_workers, |i: int| None), num_workers).len() == 0,
{
    lemma_workers_left(worker_handles(num_workers), num_workers);
    lemma_no_workers_left(Seq::new(num_workers, |i: int| None), num_workers);
}

proof fn lemma_workers_left(handles: Seq<Option<usize>>, n: nat)
    requires
        n <= handles.len() <= usize::MAX,
        forall|i: int| 0 <= i < handles.len() ==> #[trigger] handles[i] == Some(i as usize),
    ensures
        workers_left(handles, n) == Seq::new(n, |i: int| i as usize),
    decreases n,
{
    if n > 0 {
        lemma_workers_left(handles, (n - 1) as nat);
    }
    assert(workers_left(handles, n) =~= Seq::new(n, |i: int| i as usize));
}

proof fn lemma_no_workers_left(handles: Seq<Option<usize>>, n: nat)
    requires
        n <= handles.len(),
        forall|i: int| 0 <= i < handles.len() ==> #[trigger] handles[i] is None,
    ensures
        workers_left(handles, n).len() == 0,
    decreases n,
{
    if n > 0 {
        lemma_no_workers_left(handles, (n - 1) as nat);
    }
}

/// A runtime is never nested in another: once one is built in a thread no other can be, until the
/// thread has left it.
pub proof fn law_runtimes_are_not_nested(
    local: LocalState,
    num_workers: usize,
    panic_rx: usize,
    manager: usize,
    other: RuntimeState,
)
    ensures
        !local.after_build(num_workers, panic_rx, manager).may_enter(),
        !local.after_build(num_workers, panic_rx, manager).after_install(other).may_enter(),
        local.after_build(num_workers, panic_rx, manager).after_exit().may_enter(),
{
}

/// A thread that has left its runtime can build another: it then belongs to the new one, with the
/// workers and the panic channel asked for this time, and the new handle leads there.
pub proof fn law_thread_can_build_again(
    local: LocalState,
    first: usize,
    first_rx: usize,
    first_manager: usize,
    second: usize,
    second_rx: usize,
    second_manager: usize,
)
    ensures
        ({
            let left = local.after_build(first, first_rx, first_manager).after_exit();
            let built = left.after_build(second, second_rx, second_manager);
            &&& left.may_enter()
            &&& built.runtime == Some(
                RuntimeState {
                    handles: worker_handles(second as nat),
                    runtime_handle: Handle { panic_rx: second_rx },
                    manager: second_manager,
                },
            )
            &&& built.runtime_of(Handle { panic_rx: second_rx }).handles.len() == second
        }),
{
}

/// A handle keeps leading to its runtime: what the thread does later, be it to leave the runtime, to
/// be told to belong to another, or to build another under another handle, changes nothing about the
/// runtime that a known handle leads to.
pub proof fn law_handle_keeps_its_runtime(
    local: LocalState,
    handle: Handle,
    other: RuntimeState,
    num_workers: usize,
    panic_rx: usize,
    manager: usize,
)
    requires
        local.runtime is Some,
        local.knows(handle),
    ensures
        local.after_exit().runtime_of(handle) == local.runtime_of(handle),
        local.after_install(other).runtime_of(handle) == local.runtime_of(handle),
        handle != (Handle { panic_rx }) ==> {
            let built = local.after_build(num_workers, panic_rx, manager);
            &&& built.knows(handle)
            &&& built.runtime_of(handle) == local.runtime_of(handle)
        },
{
    let pushed = local.left.push(local.runtime.unwrap());
    assert(pushed.last() == local.runtime.unwrap());
    assert(pushed.drop_last() =~= local.left);
}

/// The handle that a build gives leads to a runtime with as many workers as were asked for.
pub proof fn law_runtime_has_the_workers_asked_for(
    local: LocalState,
    num_workers: usize,
    panic_rx: usize,
    manager: usize,
)
    ensures
        ({
            let built = local.after_build(num_workers, panic_rx, manager);
            &&& built.runtime.unwrap().runtime_handle == (Handle { panic_rx })
            &&& built.knows(Handle { panic_rx })
            &&& built.runtime_of(Handle { panic_rx }).handles.len() == num_workers
            &&& built.runtime_of(Handle { panic_rx }).manager == manager
        }),
{
}

/// The workers of a new runtime are the only executors of its manager, whatever the thread built
/// before: each is registered under its own number and waits for a task, in order. No task that
/// waited in a manager without executors is lost.
pub proof fn law_manager_has_exactly_the_workers<F>(
    state: ManagerState<F>,
    fresh_id: usize,
    num_workers: nat,
)
    requires
        num_workers <= usize::MAX,
    ensures
        ({
            let built = with_workers(manager_to_fill(state, fresh_id), num_workers);
            &&& built.executors.len() == num_workers
            &&& forall|i: int|
                0 <= i < num_workers ==> (#[trigger] built.executors[i]).0 == i
            &&& forall|i: usize|
                #![trigger built.senders[i]]
                #![trigger built.senders.contains_key(i)]
                built.senders.contains_key(i) == (i < num_workers) && (i < num_workers
                    ==> built.senders[i] == i)
            &&& crate::task::manager::waiting_are_registered(built)
            &&& built.executors.no_duplicates()
            &&& !state.serves_executors() ==> built.tasks == state.tasks && built.id == state.id
            &&& state.serves_executors() ==> built.tasks.len() == 0 && built.id == fresh_id
        }),
{
}

/// The workers of a fresh runtime, one by one: the executor and the thread of each are numbered by its
/// place, it is about to receive, and its own ready queue is the one that it receives from.
pub proof fn law_workers_are_numbered(num_workers: nat, i: int)
    requires
        0 <= i < num_workers <= usize::MAX,
    ensures
        workers(num_workers).len() == num_workers,
        workers(num_workers)[i].executor.id.0 == i,
        workers(num_workers)[i].executor.state is Receiving,
        workers(num_workers)[i].queue.sender == i,
        workers(num_workers)[i].queue.bound == 10_000,
        worker_handles(num_workers).len() == num_workers,
        worker_handles(num_workers)[i] matches Some(number) && number == i,
{
}

/// What the operations of a thread leave alone: leaving a runtime lowers the guard and nothing else; a
/// thread without a runtime is given one, and one that has a runtime keeps it; building raises the
/// guard, gives the thread the new runtime, and adds the one it had, if any, to those that it left.
pub proof fn law_thread_operations_touch_one_thing(
    local: LocalState,
    other: RuntimeState,
    num_workers: usize,
    panic_rx: usize,
    manager: usize,
)
    ensures
        local.may_enter() <==> !local.guard,
        !local.after_exit().guard,
        local.after_exit().runtime == local.runtime,
        local.after_exit().left == local.left,
        local.after_install(other).guard == local.guard,
        local.after_install(other).left == local.left,
        local.runtime is None ==> local.after_install(other).runtime == Some(other),
        local.runtime is Some ==> local.after_install(other).runtime == local.runtime,
        ({
            let built = local.after_build(num_workers, panic_rx, manager);
            &&& built.guard
            &&& built.runtime matches Some(runtime) && {
                &&& runtime.handles.len() == num_workers
                &&& forall|i: int|
                    0 <= i < num_workers ==> (#[trigger] runtime.handles[i]) == Some(i as usize)
                &&& runtime.runtime_handle.panic_rx == panic_rx
                &&& runtime.manager == manager
            }
            &&& local.runtime is None ==> built.left == local.left
            &&& local.runtime matches Some(runtime) ==> built.left == local.left.push(runtime)
        }),
{
}

/// Where a handle leads: to a runtime that has this handle, if the thread belongs or belonged to one,
/// namely to the current one if it has the handle and else to the one that was left last; otherwise
/// to the current one.
pub proof fn law_handle_leads_to_the_last_runtime_with_it(local: LocalState, handle: Handle, i: int)
    requires
        local.runtime is Some,
    ensures
        local.knows(handle) <==> {
            ||| local.runtime.unwrap().runtime_handle == handle
            ||| exists|j: int|
                0 <= j < local.left.len() && (#[trigger] local.left[j]).runtime_handle == handle
        },
        local.runtime.unwrap().runtime_handle == handle ==> local.runtime_of(handle)
            == local.runtime.unwrap(),
        !local.knows(handle) ==> local.runtime_of(handle) == local.runtime.unwrap(),
        ({
            &&& local.runtime.unwrap().runtime_handle != handle
            &&& 0 <= i < local.left.len()
            &&& local.left[i].runtime_handle == handle
            &&& forall|j: int|
                i < j < local.left.len() ==> (#[trigger] local.left[j]).runtime_handle != handle
        }) ==> local.runtime_of(handle) == local.left[i],
{
    lemma_last_with(local.left, handle, i);
}

proof fn lemma_last_with(runtimes: Seq<RuntimeState>, handle: Handle, i: int)
    ensures
        last_with(runtimes, handle) is Some <==> exists|j: int|
            0 <= j < runtimes.len() && (#[trigger] runtimes[j]).runtime_handle == handle,
        ({
            &&& 0 <= i < runtimes.len()
            &&& runtimes[i].runtime_handle == handle
            &&& forall|j: int|
                i < j < runtimes.len() ==> (#[trigger] runtimes[j]).runtime_handle != handle
        }) ==> last_with(runtimes, handle) == Some(runtimes[i]),
    decreases runtimes.len(),
{
    if runtimes.len() > 0 {
        let earlier = runtimes.drop_last();
        let last = runtimes.len() - 1;
        lemma_last_with(earlier, handle, i);
        assert(runtimes.last() == runtimes[last]);
        if runtimes[last].runtime_handle != handle {
            if exists|j: int|
                0 <= j < runtimes.len() && (#[trigger] runtimes[j]).runtime_handle == handle {
                let j = choose|j: int|
                    0 <= j < runtimes.len() && (#[trigger] runtimes[j]).runtime_handle == handle;
                assert(earlier[j].runtime_handle == handle);
            }
            if exists|j: int|
                0 <= j < earlier.len() && (#[trigger] earlier[j]).runtime_handle == handle {
                let j = choose|j: int|
                    0 <= j < earlier.len() && (#[trigger] earlier[j]).runtime_handle == handle;
                assert(runtimes[j].runtime_handle == handle);
            }
            if 0 <= i < last {
                assert(earlier[i] == runtimes[i]);
            }
        }
    }
}

/// The workers to be stopped are those whose thread was not taken yet, each as often as it is there
/// and in order.
pub proof fn law_workers_left_are_those_not_taken(handles: Seq<Option<usize>>, n: nat)
    requires
        n <= handles.len(),
    ensures
        workers_left(handles, n) == handles.take(n as int).filter(
            |handle: Option<usize>| handle is Some,
        ).map_values(|handle: Option<usize>| handle.unwrap()),
    decreases n,
{
    reveal(Seq::filter);
    let there = |handle: Option<usize>| handle is Some;
    let number = |handle: Option<usize>| handle.unwrap();
    if n > 0 {
        law_workers_left_are_those_not_taken(handles, (n - 1) as nat);
        assert(handles.take(n as int).drop_last() =~= handles.take(n - 1));
        assert(handles.take(n as int).last() == handles[n - 1]);
    }
    assert(workers_left(handles, n) =~= handles.take(n as int).filter(there).map_values(number));
}

/// The manager that new workers get: the thread's own, if no executor was registered with it and none
/// waits in it, and otherwise one that is empty and has a number of its own.
pub proof fn law_new_workers_do_not_meet_others<F>(state: ManagerState<F>, fresh_id: usize)
    ensures
        ({
            let filled = manager_to_fill(state, fresh_id);
            let taken = state.executors.len() > 0 || exists|executor: usize|
                state.senders.contains_key(executor);
            &&& filled.executors.len() == 0
            &&& forall|executor: usize| !filled.senders.contains_key(executor)
            &&& taken ==> filled.id == fresh_id && filled.tasks.len() == 0
            &&& !taken ==> filled.id == state.id && filled.tasks == state.tasks
        }),
{
    crate::task::manager::law_fresh_manager_is_empty(fresh_id, state);
}

} // verus!
