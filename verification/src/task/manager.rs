//! The task manager: pairs tasks that wait with executors that wait.
use crate::executor::{ExecutorId, ExecutorTask};
use crate::task::sender_map::{senders_get, senders_insert, senders_of, senders_with_capacity};
use crate::task::task::{RegistryState, Task, TaskRegistry};
use crate::utils::counter::number_after;
use crate::utils::ring_buffer::LockFreeBoundedRingBuffer;
use dashmap::DashMap;
use std::collections::hash_map::RandomState;
use vstd::prelude::*;

verus! {

/// Number of tasks that a runtime is meant to cope with.
pub const MAX_TASKS: usize = 1048576;

/// Number of tasks, and of executors, that can wait in one manager.
pub const MAX_WAITING: usize = 128000;

/// Number of executors that a fresh manager sets room aside for.
pub const EXPECTED_EXECUTORS: usize = 128;

/// A message to be sent to an executor: `message` goes out on the ready queue `sender`.
pub struct Dispatch<F> {
    pub sender: usize,
    pub message: ExecutorTask<F>,
}

/// Keeps the tasks that wait for an executor and the executors that wait for a task.
pub struct TaskManager<F> {
    id: usize,
    waiting_tasks: LockFreeBoundedRingBuffer<Task<F>>,
    waiting_executors: LockFreeBoundedRingBuffer<ExecutorId>,
    executors: DashMap<usize, usize, RandomState>,
    /// Tells whether an executor was registered.
    has_executors: bool,
}

/// What a manager holds: the waiting tasks and executors, oldest first, and the sender of each
/// executor that was registered.
#[verifier::ext_equal]
pub struct ManagerState<F> {
    pub id: usize,
    pub tasks: Seq<Task<F>>,
    pub executors: Seq<ExecutorId>,
    pub senders: Map<usize, usize>,
}

/// How many tasks at the front are aborted, up to the first one that is not.
pub open spec fn leading_aborted<F>(tasks: Seq<Task<F>>, registry: RegistryState) -> nat
    decreases tasks.len(),
{
    if tasks.len() > 0 && registry.aborted(tasks[0].task_tag) {
        1 + leading_aborted(tasks.drop_first(), registry)
    } else {
        0
    }
}

impl<F> ManagerState<F> {
    /// A manager in which nothing waits and nobody is registered.
    pub open spec fn fresh(id: usize) -> ManagerState<F> {
        ManagerState {
            id,
            tasks: Seq::empty(),
            executors: Seq::empty(),
            senders: Map::empty(),
        }
    }

    /// Some executor was registered or waits.
    pub open spec fn serves_executors(self) -> bool {
        self.senders != Map::<usize, usize>::empty() || self.executors.len() > 0
    }

    /// Some waiting task is not aborted.
    pub open spec fn has_live_task(self, registry: RegistryState) -> bool {
        leading_aborted(self.tasks, registry) < self.tasks.len()
    }

    /// The oldest waiting task that is not aborted.
    pub open spec fn first_live(self, registry: RegistryState) -> Task<F> {
        self.tasks[leading_aborted(self.tasks, registry) as int]
    }

    /// The state once an executor has been registered: it waits behind all others.
    pub open spec fn after_register(self, executor: ExecutorId, sender: usize) -> ManagerState<F> {
        ManagerState {
            senders: self.senders.insert(executor.0, sender),
            executors: self.executors.push(executor),
            ..self
        }
    }

    /// What is sent when an executor has become ready: the oldest task that is not aborted.
    pub open spec fn ready_dispatch(
        self,
        executor: ExecutorId,
        registry: RegistryState,
    ) -> Option<Dispatch<F>> {
        if self.has_live_task(registry) {
            Some(
                Dispatch {
                    sender: self.senders[executor.0],
                    message: ExecutorTask::Task(self.first_live(registry)),
                },
            )
        } else {
            None
        }
    }

    /// The state once an executor has become ready: the aborted tasks at the front are gone, and
    /// so is the task that was sent; without one to send, the executor waits behind all others.
    pub open spec fn after_ready(
        self,
        executor: ExecutorId,
        registry: RegistryState,
    ) -> ManagerState<F> {
        if self.has_live_task(registry) {
            ManagerState {
                tasks: self.tasks.skip(leading_aborted(self.tasks, registry) as int + 1),
                ..self
            }
        } else {
            ManagerState { tasks: Seq::empty(), executors: self.executors.push(executor), ..self }
        }
    }

    /// What is sent when a task is to be executed: the task, if it is not aborted, to the
    /// executor that has waited longest.
    pub open spec fn execute_dispatch(
        self,
        task: Task<F>,
        registry: RegistryState,
    ) -> Option<Dispatch<F>> {
        if !registry.aborted(task.task_tag) && self.executors.len() > 0 {
            Some(
                Dispatch {
                    sender: self.senders[self.executors[0].0],
                    message: ExecutorTask::Task(task),
                },
            )
        } else {
            None
        }
    }

    /// The state once a task is to be executed: an aborted task changes nothing; otherwise the
    /// executor that it was sent to waits no longer or, without one, the task waits behind all
    /// others.
    pub open spec fn after_execute(
        self,
        task: Task<F>,
        registry: RegistryState,
    ) -> ManagerState<F> {
        if registry.aborted(task.task_tag) {
            self
        } else if self.executors.len() > 0 {
            ManagerState { executors: self.executors.drop_first(), ..self }
        } else {
            ManagerState { tasks: self.tasks.push(task), ..self }
        }
    }

    /// `after_ready` has room for what it keeps and knows where to send.
    pub open spec fn ready_possible(self, executor: ExecutorId, registry: RegistryState) -> bool {
        if self.has_live_task(registry) {
            self.senders.contains_key(executor.0)
        } else {
            self.executors.len() < MAX_WAITING
        }
    }

    /// A task that is not aborted can be taken on: the executor that has waited longest is
    /// registered or, if none waits, there is room for the task to wait.
    pub open spec fn takes_tasks(self) -> bool {
        if self.executors.len() > 0 {
            self.senders.contains_key(self.executors[0].0)
        } else {
            self.tasks.len() < MAX_WAITING
        }
    }

    /// `after_execute` has room for what it keeps and knows where to send.
    pub open spec fn execute_possible(self, task: Task<F>, registry: RegistryState) -> bool {
        registry.aborted(task.task_tag) || self.takes_tasks()
    }
}

impl<F> View for TaskManager<F> {
    type V = ManagerState<F>;

    closed spec fn view(&self) -> ManagerState<F> {
        ManagerState {
            id: self.id,
            tasks: self.waiting_tasks@,
            executors: self.waiting_executors@,
            senders: senders_of(self.executors),
        }
    }
}

/// Hands out the number that tells one task manager from another.
pub fn generate_task_manager_id(next_id: &mut usize) -> (id: usize)
    ensures
        id == *old(next_id),
        *final(next_id) == number_after(*old(next_id)),
{
    let id: usize = *next_id;
    *next_id = id.wrapping_add(1);
    id
}

impl<F> TaskManager<F> {
    /// Both buffers are sound and have room for `MAX_WAITING` elements, which they do not exceed,
    /// and it is known whether an executor was registered.
    pub closed spec fn wf(&self) -> bool {
        &&& self.waiting_tasks.wf()
        &&& self.waiting_tasks@.len() <= MAX_WAITING <= self.waiting_tasks.bound()
        &&& self.waiting_executors.wf()
        &&& self.waiting_executors@.len() <= MAX_WAITING <= self.waiting_executors.bound()
        &&& self.has_executors <==> senders_of(self.executors) != Map::<usize, usize>::empty()
    }

    /// Makes a manager in which nothing waits.
    pub fn new(id: usize) -> (manager: Self)
        ensures
            manager.wf(),
            manager@ == ManagerState::<F>::fresh(id),
    {
        TaskManager {
            id,
            waiting_tasks: LockFreeBoundedRingBuffer::new(MAX_WAITING),
            waiting_executors: LockFreeBoundedRingBuffer::new(MAX_WAITING),
            executors: senders_with_capacity(EXPECTED_EXECUTORS),
            has_executors: false,
        }
    }

    /// The number of the manager.
    pub fn id(&self) -> (id: usize)
        ensures
            id == self@.id,
    {
        self.id
    }

    /// The sender of an executor's ready queue, if the executor was registered.
    pub fn sender(&self, executor_id: ExecutorId) -> (sender: Option<usize>)
        ensures
            sender == (if self@.senders.contains_key(executor_id.0) {
                Some(self@.senders[executor_id.0])
            } else {
                None
            }),
    {
        senders_get(&self.executors, executor_id.get())
    }

    /// Number of tasks that wait for an executor.
    pub fn waiting_tasks(&self) -> (len: usize)
        ensures
            len == self@.tasks.len(),
    {
        self.waiting_tasks.len()
    }

    /// Number of executors that wait for a task.
    pub fn waiting_executors(&self) -> (len: usize)
        ensures
            len == self@.executors.len(),
    {
        self.waiting_executors.len()
    }

    /// Tells whether some executor was registered or waits.
    pub fn serves_executors(&self) -> (serves: bool)
        requires
            self.wf(),
        ensures
            serves == self@.serves_executors(),
    {
        self.has_executors || self.waiting_executors.len() > 0
    }

    /// Tells whether an executor can report that it is ready: if a task is to be sent, the
    /// executor has to be registered, otherwise there has to be room for it to wait.
    pub fn can_report_ready(&self, executor_id: ExecutorId, registry: &TaskRegistry) -> (possible:
        bool)
        requires
            self.wf(),
        ensures
            possible == self@.ready_possible(executor_id, registry@),
    {
        let mut i: usize = 0;
        assert(self@.tasks.skip(0) =~= self@.tasks);
        while i < self.waiting_tasks.len()
            invariant
                self.wf(),
                i <= self@.tasks.len(),
                leading_aborted(self@.tasks, registry@) == i + leading_aborted(
                    self@.tasks.skip(i as int),
                    registry@,
                ),
            decreases self@.tasks.len() - i,
        {
            assert(self@.tasks.skip(i as int).drop_first() =~= self@.tasks.skip(i + 1));
            if !self.waiting_tasks.peek(i).has_aborted(registry) {
                return senders_get(&self.executors, executor_id.get()).is_some();
            }
            i = i + 1;
        }
        self.waiting_executors.len() < MAX_WAITING
    }

    /// Tells whether a task that is not aborted can be taken on.
    pub fn takes_tasks(&self) -> (takes: bool)
        requires
            self.wf(),
        ensures
            takes == self@.takes_tasks(),
    {
        if self.waiting_executors.len() > 0 {
            let first = self.waiting_executors.peek(0);
            senders_get(&self.executors, first.get()).is_some()
        } else {
            self.waiting_tasks.len() < MAX_WAITING
        }
    }

    /// Tells whether a task can be executed: it is aborted, or it can be taken on.
    pub fn can_execute(&self, task: &Task<F>, registry: &TaskRegistry) -> (possible: bool)
        requires
            self.wf(),
        ensures
            possible == self@.execute_possible(*task, registry@),
    {
        task.has_aborted(registry) || self.takes_tasks()
    }

    /// Registers an executor: it can be sent to, and it waits for a task.
    pub fn register_executor(&mut self, executor_id: ExecutorId, executor_sender: usize)
        requires
            old(self).wf(),
            old(self)@.executors.len() < MAX_WAITING,
        ensures
            final(self).wf(),
            final(self)@ == old(self)@.after_register(executor_id, executor_sender),
    {
        senders_insert(&mut self.executors, executor_id.get(), executor_sender);
        self.has_executors = true;
        assert(senders_of(self.executors).contains_key(executor_id.0));
        let _ = self.waiting_executors.push(executor_id);
    }

    /// An executor is ready for another task: it is sent the oldest waiting task that is not
    /// aborted, otherwise it waits for one. The aborted tasks passed over are dropped.
    pub fn executor_ready(
        &mut self,
        executor_id: ExecutorId,
        registry: &TaskRegistry,
    ) -> (dispatch: Option<Dispatch<F>>)
        requires
            old(self).wf(),
            old(self)@.ready_possible(executor_id, registry@),
        ensures
            final(self).wf(),
            dispatch == old(self)@.ready_dispatch(executor_id, registry@),
            final(self)@ == old(self)@.after_ready(executor_id, registry@),
    {
        let ghost tasks = self@.tasks;
        let ghost mut passed: int = 0;
        loop
            invariant_except_break
                self.wf(),
                0 <= passed <= tasks.len(),
                self@ == (ManagerState { tasks: tasks.skip(passed), ..old(self)@ }),
                tasks == old(self)@.tasks,
                leading_aborted(tasks, registry@) == passed + leading_aborted(
                    self@.tasks,
                    registry@,
                ),
                old(self)@.ready_possible(executor_id, registry@),
            ensures
                self.wf(),
                self@ == (ManagerState { tasks: Seq::empty(), ..old(self)@ }),
                !old(self)@.has_live_task(registry@),
            decreases self@.tasks.len(),
        {
            let popped = self.waiting_tasks.pop();
            match popped {
                None => {
                    assert(self@.tasks =~= Seq::empty());
                    break;
                },
                Some(task) => {
                    assert(tasks.skip(passed).drop_first() =~= tasks.skip(passed + 1));
                    if !task.has_aborted(registry) {
                        let sender: usize = senders_get(&self.executors, executor_id.get()).unwrap();
                        return Some(Dispatch { sender, message: ExecutorTask::Task(task) });
                    }
                    proof {
                        passed = passed + 1;
                    }
                },
            }
        }
        let _ = self.waiting_executors.push(executor_id);
        None
    }

    /// Sends a task to the executor that has waited longest or, if none waits, lets the task
    /// wait. An aborted task is dropped.
    pub fn register_or_execute_non_blocking_task(
        &mut self,
        task: Task<F>,
        registry: &TaskRegistry,
    ) -> (dispatch: Option<Dispatch<F>>)
        requires
            old(self).wf(),
            old(self)@.execute_possible(task, registry@),
        ensures
            final(self).wf(),
            dispatch == old(self)@.execute_dispatch(task, registry@),
            final(self)@ == old(self)@.after_execute(task, registry@),
    {
        if task.has_aborted(registry) {
            return None;
        }
        if let Some(executor_id) = self.waiting_executors.pop() {
            let sender: usize = senders_get(&self.executors, executor_id.get()).unwrap();
            return Some(Dispatch { sender, message: ExecutorTask::Task(task) });
        }
        let _ = self.waiting_tasks.push(task);
        None
    }
}

/// What `leading_aborted` counts: the tasks before that place are aborted, the one at it is not.
pub proof fn lemma_leading_aborted<F>(tasks: Seq<Task<F>>, registry: RegistryState)
    ensures
        leading_aborted(tasks, registry) <= tasks.len(),
        forall|i: int|
            0 <= i < leading_aborted(tasks, registry) ==> registry.aborted(
                #[trigger] tasks[i].task_tag,
            ),
        leading_aborted(tasks, registry) < tasks.len() ==> !registry.aborted(
            tasks[leading_aborted(tasks, registry) as int].task_tag,
        ),
    decreases tasks.len(),
{
    if tasks.len() > 0 && registry.aborted(tasks[0].task_tag) {
        let rest = tasks.drop_first();
        lemma_leading_aborted(rest, registry);
        assert forall|i: int| 0 <= i < leading_aborted(tasks, registry) implies registry.aborted(
            #[trigger] tasks[i].task_tag,
        ) by {
            if i > 0 {
                assert(tasks[i] == rest[i - 1]);
                assert(registry.aborted(rest[i - 1].task_tag));
            }
        }
    }
}

/// The dispatch sends `task` on the ready queue `sender`.
pub open spec fn sends<F>(dispatch: Option<Dispatch<F>>, task: Task<F>, sender: usize) -> bool {
    dispatch == Some(Dispatch { sender, message: ExecutorTask::Task(task) })
}

/// An aborted task is never sent to an executor.
pub proof fn law_aborted_task_is_never_sent<F>(
    state: ManagerState<F>,
    executor: ExecutorId,
    task: Task<F>,
    registry: RegistryState,
    sent: Task<F>,
    sender: usize,
)
    requires
        sends(state.ready_dispatch(executor, registry), sent, sender) || sends(
            state.execute_dispatch(task, registry),
            sent,
            sender,
        ),
    ensures
        !registry.aborted(sent.task_tag),
{
    lemma_leading_aborted(state.tasks, registry);
}

/// Waiting tasks are served in the order in which they came: when one is sent, every task that
/// waited longer is aborted.
pub proof fn law_tasks_are_served_in_order<F>(
    state: ManagerState<F>,
    executor: ExecutorId,
    registry: RegistryState,
)
    requires
        state.has_live_task(registry),
    ensures
        exists|n: int|
            {
                &&& 0 <= n < state.tasks.len()
                &&& sends(
                    state.ready_dispatch(executor, registry),
                    #[trigger] state.tasks[n],
                    state.senders[executor.0],
                )
                &&& forall|i: int|
                    0 <= i < n ==> registry.aborted(#[trigger] state.tasks[i].task_tag)
                &&& state.after_ready(executor, registry).tasks == state.tasks.skip(n + 1)
            },
{
    lemma_leading_aborted(state.tasks, registry);
    let n = leading_aborted(state.tasks, registry) as int;
    assert(state.first_live(registry) == state.tasks[n]);
}

/// No task gets lost: a waiting task that is not aborted is sent or goes on waiting, and so does
/// a task that is to be executed.
pub proof fn law_no_live_task_is_lost<F>(
    state: ManagerState<F>,
    executor: ExecutorId,
    task: Task<F>,
    registry: RegistryState,
    kept: Task<F>,
)
    requires
        !registry.aborted(kept.task_tag),
    ensures
        state.tasks.contains(kept) ==> {
            ||| sends(
                state.ready_dispatch(executor, registry),
                kept,
                state.senders[executor.0],
            )
            ||| state.after_ready(executor, registry).tasks.contains(kept)
        },
        state.tasks.contains(kept) ==> state.after_execute(task, registry).tasks.contains(kept),
        kept == task ==> {
            ||| state.executors.len() > 0 && sends(
                state.execute_dispatch(task, registry),
                kept,
                state.senders[state.executors[0].0],
            )
            ||| state.after_execute(task, registry).tasks.contains(kept)
        },
{
    lemma_leading_aborted(state.tasks, registry);
    let n = leading_aborted(state.tasks, registry) as int;
    if state.tasks.contains(kept) {
        let i = state.tasks.index_of(kept);
        assert(state.tasks[i] == kept);
        assert(!registry.aborted(state.tasks[i].task_tag));
        if i > n {
            assert(state.tasks.skip(n + 1)[i - (n + 1)] == kept);
        }
        assert(state.tasks.push(task)[i] == kept);
    }
    assert(state.tasks.push(task)[state.tasks.len() as int] == task);
}

/// A task that waits in one place is sent once: when it is sent it no longer waits, and the tasks
/// behind it keep their order.
pub proof fn law_sent_task_no_longer_waits<F>(
    state: ManagerState<F>,
    executor: ExecutorId,
    registry: RegistryState,
    sent: Task<F>,
    sender: usize,
)
    requires
        state.tasks.no_duplicates(),
        sends(state.ready_dispatch(executor, registry), sent, sender),
    ensures
        state.tasks.contains(sent),
        !state.after_ready(executor, registry).tasks.contains(sent),
        state.after_ready(executor, registry).tasks.no_duplicates(),
        state.after_ready(executor, registry).tasks.is_suffix_of(state.tasks),
{
    lemma_leading_aborted(state.tasks, registry);
    let n = leading_aborted(state.tasks, registry) as int;
    assert(state.tasks[n] == sent);
    let rest = state.tasks.skip(n + 1);
    if rest.contains(sent) {
        let i = rest.index_of(sent);
        assert(state.tasks[i + n + 1] == sent);
    }
    assert(rest =~= state.tasks.subrange(state.tasks.len() - rest.len(), state.tasks.len() as int));
}

/// Nothing idles needlessly: tasks and executors never wait at the same time. This holds of a
/// fresh manager and stays so, as long as executors are registered while no task waits.
pub proof fn law_tasks_and_executors_never_both_wait<F>(
    state: ManagerState<F>,
    executor: ExecutorId,
    sender: usize,
    task: Task<F>,
    registry: RegistryState,
)
    requires
        state.tasks.len() == 0 || state.executors.len() == 0,
    ensures
        ({
            let after = state.after_ready(executor, registry);
            after.tasks.len() == 0 || after.executors.len() == 0
        }),
        ({
            let after = state.after_execute(task, registry);
            after.tasks.len() == 0 || after.executors.len() == 0
        }),
        state.tasks.len() == 0 ==> state.after_register(executor, sender).tasks.len() == 0,
{
}

/// The state once the tasks have been executed in turn.
pub open spec fn after_executes<F>(
    state: ManagerState<F>,
    tasks: Seq<Task<F>>,
    registry: RegistryState,
) -> ManagerState<F>
    decreases tasks.len(),
{
    if tasks.len() == 0 {
        state
    } else {
        after_executes(state, tasks.drop_last(), registry).after_execute(tasks.last(), registry)
    }
}

/// Executors take turns: of the tasks that are to be executed one after the other, the first goes
/// to the executor that has waited longest, the next to the one behind it, and so on; an executor
/// that becomes ready with nothing to do lines up behind all others.
pub proof fn law_executors_take_turns<F>(
    state: ManagerState<F>,
    tasks: Seq<Task<F>>,
    task: Task<F>,
    registry: RegistryState,
    executor: ExecutorId,
)
    requires
        tasks.len() < state.executors.len(),
        forall|i: int| 0 <= i < tasks.len() ==> !registry.aborted(#[trigger] tasks[i].task_tag),
        !registry.aborted(task.task_tag),
    ensures
        sends(
            after_executes(state, tasks, registry).execute_dispatch(task, registry),
            task,
            state.senders[state.executors[tasks.len() as int].0],
        ),
        !state.has_live_task(registry) ==> state.after_ready(executor, registry).executors
            == state.executors.push(executor),
{
    lemma_after_executes(state, tasks, registry);
}

proof fn lemma_after_executes<F>(
    state: ManagerState<F>,
    tasks: Seq<Task<F>>,
    registry: RegistryState,
)
    requires
        tasks.len() <= state.executors.len(),
        forall|i: int| 0 <= i < tasks.len() ==> !registry.aborted(#[trigger] tasks[i].task_tag),
    ensures
        after_executes(state, tasks, registry).executors == state.executors.skip(
            tasks.len() as int,
        ),
        after_executes(state, tasks, registry).senders == state.senders,
    decreases tasks.len(),
{
    if tasks.len() == 0 {
        assert(state.executors.skip(0) =~= state.executors);
    } else {
        let earlier = tasks.drop_last();
        assert forall|i: int| 0 <= i < earlier.len() implies !registry.aborted(
            #[trigger] earlier[i].task_tag,
        ) by {
            assert(earlier[i] == tasks[i]);
        }
        lemma_after_executes(state, earlier, registry);
        assert(!registry.aborted(tasks[tasks.len() - 1].task_tag));
        assert(state.executors.skip(earlier.len() as int).drop_first() =~= state.executors.skip(
            tasks.len() as int,
        ));
    }
}

/// Every executor that waits was registered.
pub open spec fn waiting_are_registered<F>(state: ManagerState<F>) -> bool {
    forall|i: int|
        0 <= i < state.executors.len() ==> state.senders.contains_key(
            (#[trigger] state.executors[i]).0,
        )
}

/// As long as only registered executors report ready, every executor that waits was registered;
/// a task can then always be sent to the one that has waited longest.
pub proof fn law_waiting_executors_are_registered<F>(
    state: ManagerState<F>,
    executor: ExecutorId,
    sender: usize,
    task: Task<F>,
    registry: RegistryState,
)
    requires
        waiting_are_registered(state),
    ensures
        waiting_are_registered(state.after_register(executor, sender)),
        state.senders.contains_key(executor.0) ==> waiting_are_registered(
            state.after_ready(executor, registry),
        ),
        waiting_are_registered(state.after_execute(task, registry)),
        state.executors.len() > 0 ==> state.execute_possible(task, registry),
{
    let after = state.after_execute(task, registry);
    assert forall|i: int| 0 <= i < after.executors.len() implies after.senders.contains_key(
        (#[trigger] after.executors[i]).0,
    ) by {
        if after.executors.len() < state.executors.len() {
            assert(after.executors[i] == state.executors[i + 1]);
        }
    }
}

/// An executor that is busy does not wait, so it is sent at most one task at a time: as long as
/// only executors that do not wait are registered or report ready, none waits twice.
pub proof fn law_executor_waits_at_most_once<F>(
    state: ManagerState<F>,
    executor: ExecutorId,
    sender: usize,
    task: Task<F>,
    registry: RegistryState,
)
    requires
        state.executors.no_duplicates(),
    ensures
        !state.executors.contains(executor) ==> {
            &&& state.after_register(executor, sender).executors.no_duplicates()
            &&& state.after_ready(executor, registry).executors.no_duplicates()
        },
        state.after_execute(task, registry).executors.no_duplicates(),
        state.execute_dispatch(task, registry) is Some ==> !state.after_execute(
            task,
            registry,
        ).executors.contains(state.executors[0]),
{
}

/// A manager with no more executors than it has room for never runs out of room for them: a
/// registered executor that does not wait can always report ready.
pub proof fn law_busy_executor_can_report_ready<F>(
    state: ManagerState<F>,
    executor: ExecutorId,
    registry: RegistryState,
)
    requires
        state.executors.no_duplicates(),
        waiting_are_registered(state),
        state.senders.dom().finite(),
        state.senders.len() <= MAX_WAITING,
        state.senders.contains_key(executor.0),
        !state.executors.contains(executor),
    ensures
        state.ready_possible(executor, registry),
{
    let ids = state.executors.map_values(|waiting: ExecutorId| waiting.0);
    assert forall|i: int, j: int| 0 <= i < ids.len() && 0 <= j < ids.len() && i != j implies ids[i]
        != ids[j] by {
        assert(state.executors[i] != state.executors[j]);
    }
    ids.unique_seq_to_set();
    let others = state.senders.dom().remove(executor.0);
    assert forall|id: usize| ids.to_set().contains(id) implies others.contains(id) by {
        let i = ids.index_of(id);
        assert(ids[i] == state.executors[i].0);
        assert(state.senders.contains_key(state.executors[i].0));
        if id == executor.0 {
            assert(state.executors[i] == executor);
        }
    }
    vstd::set_lib::lemma_len_subset(ids.to_set(), others);
}

/// An executor that becomes ready while some waiting task is not aborted is sent the oldest such
/// task, on its own sender. That task and the aborted ones before it wait no longer; the tasks behind
/// it, the executors that wait and the senders stay as they are.
pub proof fn law_ready_executor_gets_the_oldest_live_task<F>(
    state: ManagerState<F>,
    executor: ExecutorId,
    registry: RegistryState,
    n: int,
)
    requires
        0 <= n < state.tasks.len(),
        !registry.aborted(state.tasks[n].task_tag),
        forall|i: int| 0 <= i < n ==> registry.aborted(#[trigger] state.tasks[i].task_tag),
    ensures
        state.ready_dispatch(executor, registry) == Some(
            Dispatch {
                sender: state.senders[executor.0],
                message: ExecutorTask::Task(state.tasks[n]),
            },
        ),
        ({
            let after = state.after_ready(executor, registry);
            &&& after.tasks == state.tasks.subrange(n + 1, state.tasks.len() as int)
            &&& after.executors == state.executors
            &&& after.senders == state.senders
            &&& after.id == state.id
        }),
        state.ready_possible(executor, registry) <==> state.senders.contains_key(executor.0),
        state.has_live_task(registry),
        state.first_live(registry) == state.tasks[n],
{
    lemma_leading_aborted(state.tasks, registry);
    let first = leading_aborted(state.tasks, registry) as int;
    if first < n {
        assert(registry.aborted(state.tasks[first].task_tag));
    }
    if n < first {
        assert(registry.aborted(state.tasks[n].task_tag));
    }
    assert(state.tasks.skip(n + 1) =~= state.tasks.subrange(n + 1, state.tasks.len() as int));
}

/// An executor that becomes ready while every waiting task is aborted, or none waits, is sent
/// nothing and lines up behind the executors that wait; the aborted tasks are gone, and the senders
/// stay as they are.
pub proof fn law_ready_executor_without_live_task_waits<F>(
    state: ManagerState<F>,
    executor: ExecutorId,
    registry: RegistryState,
)
    requires
        forall|i: int|
            0 <= i < state.tasks.len() ==> registry.aborted(#[trigger] state.tasks[i].task_tag),
    ensures
        state.ready_dispatch(executor, registry) is None,
        ({
            let after = state.after_ready(executor, registry);
            &&& after.tasks.len() == 0
            &&& after.executors.len() == state.executors.len() + 1
            &&& after.executors.last() == executor
            &&& forall|i: int|
                0 <= i < state.executors.len() ==> #[trigger] after.executors[i]
                    == state.executors[i]
            &&& after.senders == state.senders
            &&& after.id == state.id
        }),
        state.ready_possible(executor, registry) <==> state.executors.len() < MAX_WAITING,
        !state.has_live_task(registry),
{
    lemma_leading_aborted(state.tasks, registry);
    let first = leading_aborted(state.tasks, registry) as int;
    if first < state.tasks.len() {
        assert(registry.aborted(state.tasks[first].task_tag));
    }
}

/// A task that is to be executed is dropped if it is aborted; otherwise it goes to the executor that
/// has waited longest, on that executor's own sender, or waits behind all others if no executor
/// does. What else waits, and the senders, stay as they are.
pub proof fn law_task_is_sent_or_waits_unless_aborted<F>(
    state: ManagerState<F>,
    task: Task<F>,
    registry: RegistryState,
)
    ensures
        ({
            let after = state.after_execute(task, registry);
            let dispatch = state.execute_dispatch(task, registry);
            let aborted = registry.aborted(task.task_tag);
            &&& after.senders == state.senders
            &&& after.id == state.id
            &&& aborted ==> dispatch is None && after.tasks == state.tasks && after.executors
                == state.executors
            &&& !aborted && state.executors.len() > 0 ==> {
                &&& dispatch == Some(
                    Dispatch {
                        sender: state.senders[state.executors[0].0],
                        message: ExecutorTask::Task(task),
                    },
                )
                &&& after.tasks == state.tasks
                &&& after.executors == state.executors.subrange(1, state.executors.len() as int)
            }
            &&& !aborted && state.executors.len() == 0 ==> {
                &&& dispatch is None
                &&& after.tasks.len() == state.tasks.len() + 1
                &&& after.tasks.last() == task
                &&& forall|i: int|
                    0 <= i < state.tasks.len() ==> #[trigger] after.tasks[i] == state.tasks[i]
                &&& after.executors.len() == 0
            }
            &&& state.execute_possible(task, registry) <==> {
                ||| aborted
                ||| state.executors.len() > 0 && state.senders.contains_key(state.executors[0].0)
                ||| state.executors.len() == 0 && state.tasks.len() < MAX_WAITING
            }
            &&& !aborted ==> state.takes_tasks() == state.execute_possible(task, registry)
        }),
{
    if state.executors.len() > 0 {
        assert(state.executors.drop_first() =~= state.executors.subrange(
            1,
            state.executors.len() as int,
        ));
    }
}

/// Registering an executor makes it reachable on the sender given, and lets it wait behind all
/// others; every other executor is reached where it was, and the tasks stay as they are.
pub proof fn law_registering_touches_one_executor<F>(
    state: ManagerState<F>,
    executor: ExecutorId,
    sender: usize,
    other: usize,
)
    requires
        other != executor.0,
    ensures
        ({
            let after = state.after_register(executor, sender);
            &&& after.senders.contains_key(executor.0)
            &&& after.senders[executor.0] == sender
            &&& after.senders.contains_key(other) == state.senders.contains_key(other)
            &&& state.senders.contains_key(other) ==> after.senders[other] == state.senders[other]
            &&& after.executors.len() == state.executors.len() + 1
            &&& after.executors.last() == executor
            &&& forall|i: int|
                0 <= i < state.executors.len() ==> #[trigger] after.executors[i]
                    == state.executors[i]
            &&& after.tasks == state.tasks
            &&& after.id == state.id
            &&& after.serves_executors()
        }),
{
    let after = state.after_register(executor, sender);
    assert(after.senders.contains_key(executor.0));
}

/// A fresh manager has its number and nothing else: it serves no executor until one is registered or
/// waits.
pub proof fn law_fresh_manager_is_empty<F>(id: usize, state: ManagerState<F>)
    ensures
        ManagerState::<F>::fresh(id).id == id,
        ManagerState::<F>::fresh(id).tasks.len() == 0,
        ManagerState::<F>::fresh(id).executors.len() == 0,
        forall|executor: usize| !ManagerState::<F>::fresh(id).senders.contains_key(executor),
        !ManagerState::<F>::fresh(id).serves_executors(),
        state.serves_executors() <==> state.executors.len() > 0 || exists|executor: usize|
            state.senders.contains_key(executor),
{
    if forall|executor: usize| !state.senders.contains_key(executor) {
        assert(state.senders =~= Map::empty());
    }
}

/// Something that happens to a manager.
pub enum ManagerStep<F> {
    /// The executor is registered with the sender.
    Register(ExecutorId, usize),
    /// The executor becomes ready.
    Ready(ExecutorId, RegistryState),
    /// The task is to be executed.
    Execute(Task<F>, RegistryState),
}

/// The manager once the steps have been taken in turn.
pub open spec fn after_steps<F>(
    state: ManagerState<F>,
    steps: Seq<ManagerStep<F>>,
) -> ManagerState<F>
    decreases steps.len(),
{
    if steps.len() == 0 {
        state
    } else {
        let before = after_steps(state, steps.drop_last());
        match steps.last() {
            ManagerStep::Register(executor, sender) => before.after_register(executor, sender),
            ManagerStep::Ready(executor, registry) => before.after_ready(executor, registry),
            ManagerStep::Execute(task, registry) => before.after_execute(task, registry),
        }
    }
}

/// The step registers the executor.
pub open spec fn registers<F>(step: ManagerStep<F>, executor: ExecutorId) -> bool {
    match step {
        ManagerStep::Register(registered, _) => registered == executor,
        _ => false,
    }
}

/// An executor is reached where it was registered: whatever happens, as long as the executor is not
/// registered anew, its sender stays the same.
pub proof fn law_executor_is_reached_where_it_was_registered<F>(
    state: ManagerState<F>,
    steps: Seq<ManagerStep<F>>,
    executor: ExecutorId,
)
    requires
        forall|i: int| 0 <= i < steps.len() ==> !registers(#[trigger] steps[i], executor),
    ensures
        after_steps(state, steps).senders.contains_key(executor.0) == state.senders.contains_key(
            executor.0,
        ),
        state.senders.contains_key(executor.0) ==> after_steps(state, steps).senders[executor.0]
            == state.senders[executor.0],
        after_steps(state, steps).id == state.id,
    decreases steps.len(),
{
    if steps.len() > 0 {
        let earlier = steps.drop_last();
        assert forall|i: int| 0 <= i < earlier.len() implies !registers(
            #[trigger] earlier[i],
            executor,
        ) by {
            assert(earlier[i] == steps[i]);
        }
        law_executor_is_reached_where_it_was_registered(state, earlier, executor);
        assert(!registers(steps[steps.len() - 1], executor));
    }
}

/// A task is sent on the sender that its executor was registered with: whatever happened since an
/// executor was registered, when it is the one that has waited longest, the next task goes out on
/// that sender; and when it becomes ready, so does the task that it is sent.
pub proof fn law_task_goes_out_on_the_sender_of_its_executor<F>(
    state: ManagerState<F>,
    executor: ExecutorId,
    sender: usize,
    steps: Seq<ManagerStep<F>>,
    task: Task<F>,
    registry: RegistryState,
)
    requires
        forall|i: int| 0 <= i < steps.len() ==> !registers(#[trigger] steps[i], executor),
    ensures
        ({
            let now = after_steps(state.after_register(executor, sender), steps);
            &&& now.executors.len() > 0 && now.executors[0] == executor && !registry.aborted(
                task.task_tag,
            ) ==> now.execute_dispatch(task, registry) == Some(
                Dispatch { sender, message: ExecutorTask::Task(task) },
            )
            &&& now.ready_dispatch(executor, registry) matches Some(dispatch) ==> dispatch.sender
                == sender
        }),
{
    law_executor_is_reached_where_it_was_registered(
        state.after_register(executor, sender),
        steps,
        executor,
    );
}

/// How much a manager copes with.
pub proof fn law_manager_limits()
    ensures
        MAX_TASKS == 1024 * 1024,
        MAX_WAITING == 128 * 1000,
{
}

} // verus!
