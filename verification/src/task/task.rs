//! Tasks, their tags and their abort flags.
use crate::task::manager::{Dispatch, TaskManager};
use crate::utils::counter::number_after;
use std::collections::HashMap;
use vstd::prelude::*;

verus! {

broadcast use vstd::std_specs::hash::group_hash_axioms;

/// Identifies a task.
#[derive(Debug, Hash, PartialEq, Eq, Structural, Clone, Copy)]
pub struct TaskTag(pub usize);

/// What is left to run of a task.
pub enum FutureSlot<F> {
    /// The future has not resolved yet.
    Runnable(F),
    /// The future resolved; there is nothing left to poll.
    Finished,
    /// The future panicked while it was polled.
    Poisoned(F),
}

/// A reference to an asynchronous operation to be executed by an executor.
///
/// `future` leads to the slot that holds what is left to run.
pub struct Task<F> {
    pub future: F,
    pub task_tag: TaskTag,
    /// Id of the task manager that the task belongs to.
    pub manager: usize,
}

/// Hands out task tags and keeps the abort flag of every task that is alive.
pub struct TaskRegistry {
    next_tag: usize,
    abort: HashMap<usize, bool>,
}

/// What a registry holds: the next tag, and the abort flag under each live tag.
#[verifier::ext_equal]
pub struct RegistryState {
    pub next_tag: usize,
    pub abort: Map<usize, bool>,
}

impl RegistryState {
    /// The abort flag of the task is raised.
    pub open spec fn aborted(self, tag: TaskTag) -> bool {
        self.abort.contains_key(tag.0) && self.abort[tag.0]
    }

    /// The state once a tag has been handed out.
    pub open spec fn after_generate(self) -> RegistryState {
        RegistryState { next_tag: number_after(self.next_tag), ..self }
    }

    /// The state once a task has been made: its tag is the one that was next, its flag is down.
    pub open spec fn after_create(self) -> RegistryState {
        RegistryState {
            next_tag: number_after(self.next_tag),
            abort: self.abort.insert(self.next_tag, false),
        }
    }

    /// The state once the flag of a task has been raised; a task that is gone has no flag.
    pub open spec fn after_abort(self, tag: TaskTag) -> RegistryState {
        if self.abort.contains_key(tag.0) {
            RegistryState { abort: self.abort.insert(tag.0, true), ..self }
        } else {
            self
        }
    }

    /// The state once a task is gone.
    pub open spec fn after_forget(self, tag: TaskTag) -> RegistryState {
        RegistryState { abort: self.abort.remove(tag.0), ..self }
    }
}

impl View for TaskRegistry {
    type V = RegistryState;

    closed spec fn view(&self) -> RegistryState {
        RegistryState { next_tag: self.next_tag, abort: self.abort@ }
    }
}

impl TaskRegistry {
    /// Makes a registry with no task in it.
    pub fn new() -> (registry: Self)
        ensures
            registry@ == (RegistryState { next_tag: 0, abort: Map::empty() }),
    {
        TaskRegistry { next_tag: 0, abort: HashMap::new() }
    }

    /// Raises the abort flag of the task, and returns whether it was raised before.
    pub fn abort(&mut self, tag: TaskTag) -> (before: bool)
        ensures
            before == old(self)@.aborted(tag),
            final(self)@ == old(self)@.after_abort(tag),
    {
        let before: bool = self.is_aborted(tag);
        if self.abort.contains_key(&tag.0) {
            self.abort.insert(tag.0, true);
        }
        before
    }

    /// Drops the abort flag of a task that no longer exists.
    pub fn forget(&mut self, tag: TaskTag)
        ensures
            final(self)@ == old(self)@.after_forget(tag),
    {
        self.abort.remove(&tag.0);
    }

    fn is_aborted(&self, tag: TaskTag) -> (aborted: bool)
        ensures
            aborted == self@.aborted(tag),
    {
        match self.abort.get(&tag.0) {
            Some(flag) => *flag,
            None => false,
        }
    }
}

impl<F> Task<F> {
    /// Makes a task of the manager `manager`, with a fresh tag and its abort flag down.
    pub fn new(future: F, manager: usize, registry: &mut TaskRegistry) -> (task: Self)
        ensures
            task.future == future,
            task.manager == manager,
            task.task_tag == TaskTag(old(registry)@.next_tag),
            final(registry)@ == old(registry)@.after_create(),
    {
        let task_tag = Self::generate_tag(registry);
        registry.abort.insert(task_tag.0, false);
        Task { future, task_tag, manager }
    }

    /// Hands out the next tag.
    pub fn generate_tag(registry: &mut TaskRegistry) -> (tag: TaskTag)
        ensures
            tag == TaskTag(old(registry)@.next_tag),
            final(registry)@ == old(registry)@.after_generate(),
    {
        let tag = TaskTag(registry.next_tag);
        registry.next_tag = registry.next_tag.wrapping_add(1);
        tag
    }

    /// Tells whether the abort flag of the task is raised.
    pub fn has_aborted(&self, registry: &TaskRegistry) -> (aborted: bool)
        ensures
            aborted == registry@.aborted(self.task_tag),
    {
        registry.is_aborted(self.task_tag)
    }
}

/// Both refer to the same task.
pub open spec fn same_task<F: Clone>(task: Task<F>, copy: Task<F>) -> bool {
    &&& copy.task_tag == task.task_tag
    &&& copy.manager == task.manager
    &&& cloned(task.future, copy.future)
}

/// Makes another reference to the task.
pub fn clone<F: Clone>(task: &Task<F>) -> (copy: Task<F>)
    ensures
        same_task(*task, copy),
{
    Task { future: task.future.clone(), task_tag: task.task_tag, manager: task.manager }
}

/// Wakes the task: its manager is to execute it once more.
pub fn wake<F>(task: Task<F>, manager: &mut TaskManager<F>, registry: &TaskRegistry) -> (dispatch:
    Option<Dispatch<F>>)
    requires
        old(manager).wf(),
        old(manager)@.id == task.manager,
        old(manager)@.execute_possible(task, registry@),
    ensures
        final(manager).wf(),
        dispatch == old(manager)@.execute_dispatch(task, registry@),
        final(manager)@ == old(manager)@.after_execute(task, registry@),
{
    manager.register_or_execute_non_blocking_task(task, registry)
}

/// Wakes the task and keeps the reference to it.
pub fn wake_by_ref<F: Clone>(
    task: &Task<F>,
    manager: &mut TaskManager<F>,
    registry: &TaskRegistry,
) -> (dispatch: Option<Dispatch<F>>)
    requires
        old(manager).wf(),
        old(manager)@.id == task.manager,
        old(manager)@.execute_possible(*task, registry@),
    ensures
        final(manager).wf(),
        exists|copy: Task<F>|
            {
                &&& #[trigger] same_task(*task, copy)
                &&& dispatch == old(manager)@.execute_dispatch(copy, registry@)
                &&& final(manager)@ == old(manager)@.after_execute(copy, registry@)
            },
{
    let copy = clone(task);
    manager.register_or_execute_non_blocking_task(copy, registry)
}

/// A task is not aborted when it is made.
pub proof fn law_new_task_not_aborted(registry: RegistryState)
    ensures
        !registry.after_create().aborted(TaskTag(registry.next_tag)),
{
}

/// Once aborted, a live task stays aborted whatever happens to other tasks, as long as its own
/// tag is neither handed out again nor forgotten.
pub proof fn law_abort_is_permanent(registry: RegistryState, tag: TaskTag, other: TaskTag)
    requires
        registry.abort.contains_key(tag.0),
    ensures
        registry.after_abort(tag).aborted(tag),
        registry.aborted(tag) ==> {
            &&& registry.after_abort(other).aborted(tag)
            &&& other != tag ==> registry.after_forget(other).aborted(tag)
            &&& registry.next_tag != tag.0 ==> registry.after_create().aborted(tag)
        },
{
}

/// Raising one task's flag leaves every other task's flag as it was.
pub proof fn law_abort_is_local(registry: RegistryState, tag: TaskTag, other: TaskTag)
    requires
        other != tag,
    ensures
        registry.after_abort(tag).aborted(other) == registry.aborted(other),
{
}

/// The state once `n` tags have been handed out.
pub open spec fn after_tags(registry: RegistryState, n: nat) -> RegistryState
    decreases n,
{
    if n == 0 {
        registry
    } else {
        after_tags(registry, (n - 1) as nat).after_generate()
    }
}

proof fn lemma_next_tag(registry: RegistryState, n: nat)
    requires
        registry.next_tag + n <= usize::MAX,
    ensures
        after_tags(registry, n).next_tag == registry.next_tag + n,
    decreases n,
{
    if n > 0 {
        lemma_next_tag(registry, (n - 1) as nat);
    }
}

/// Tags are unique: of the tags handed out one after the other, no two are the same, until the
/// counter runs out of numbers.
pub proof fn law_tags_are_unique(registry: RegistryState, i: nat, j: nat)
    requires
        i < j,
        registry.next_tag + j <= usize::MAX,
    ensures
        after_tags(registry, i).next_tag != after_tags(registry, j).next_tag,
{
    lemma_next_tag(registry, i);
    lemma_next_tag(registry, j);
}

/// What an operation on one task leaves alone: no operation but that of handing out a tag moves the
/// counter, and none touches the flag of another task. The flag of the task itself goes up by
/// aborting, is gone by forgetting, and starts down.
pub proof fn law_registry_operations_touch_one_task(
    registry: RegistryState,
    tag: TaskTag,
    other: usize,
)
    requires
        other != tag.0,
    ensures
        registry.after_abort(tag).next_tag == registry.next_tag,
        registry.after_forget(tag).next_tag == registry.next_tag,
        registry.after_abort(tag).abort.dom() == registry.abort.dom(),
        registry.abort.contains_key(tag.0) ==> registry.after_abort(tag).abort[tag.0],
        registry.abort.contains_key(other) ==> registry.after_abort(tag).abort[other]
            == registry.abort[other],
        !registry.after_forget(tag).abort.contains_key(tag.0),
        registry.after_forget(tag).abort.contains_key(other) == registry.abort.contains_key(other),
        registry.abort.contains_key(other) ==> registry.after_forget(tag).abort[other]
            == registry.abort[other],
        registry.after_generate().abort == registry.abort,
        registry.after_create().abort.contains_key(registry.next_tag),
        !registry.after_create().abort[registry.next_tag],
        other != registry.next_tag ==> registry.after_create().abort.contains_key(other)
            == registry.abort.contains_key(other),
        other != registry.next_tag && registry.abort.contains_key(other)
            ==> registry.after_create().abort[other] == registry.abort[other],
        registry.aborted(tag) <==> registry.abort.contains_key(tag.0) && registry.abort[tag.0],
        registry.next_tag < usize::MAX ==> registry.after_generate().next_tag == registry.next_tag
            + 1 && registry.after_create().next_tag == registry.next_tag + 1,
        registry.next_tag == usize::MAX ==> registry.after_generate().next_tag == 0
            && registry.after_create().next_tag == 0,
{
    assert(registry.after_abort(tag).abort.dom() =~= registry.abort.dom());
}

/// Something that happens to a registry.
pub enum RegistryStep {
    /// A tag is handed out.
    Generate,
    /// A task is made.
    Create,
    /// The task with the tag is aborted.
    Abort(TaskTag),
    /// The task with the tag is gone.
    Forget(TaskTag),
}

/// The registry once the steps have been taken in turn.
pub open spec fn after_steps(registry: RegistryState, steps: Seq<RegistryStep>) -> RegistryState
    decreases steps.len(),
{
    if steps.len() == 0 {
        registry
    } else {
        let before = after_steps(registry, steps.drop_last());
        match steps.last() {
            RegistryStep::Generate => before.after_generate(),
            RegistryStep::Create => before.after_create(),
            RegistryStep::Abort(tag) => before.after_abort(tag),
            RegistryStep::Forget(tag) => before.after_forget(tag),
        }
    }
}

/// The step hands out a tag.
pub open spec fn hands_out_a_tag(step: RegistryStep) -> bool {
    step is Generate || step is Create
}

/// How many of the steps hand out a tag.
pub open spec fn tags_used(steps: Seq<RegistryStep>) -> nat
    decreases steps.len(),
{
    if steps.len() == 0 {
        0
    } else {
        tags_used(steps.drop_last()) + if hands_out_a_tag(steps.last()) {
            1nat
        } else {
            0nat
        }
    }
}

/// The next tag is the first one plus the number of tags handed out, whatever was aborted or
/// forgotten meanwhile, until the counter runs out of numbers.
pub proof fn law_tags_count_up(registry: RegistryState, steps: Seq<RegistryStep>)
    requires
        registry.next_tag + tags_used(steps) <= usize::MAX,
    ensures
        after_steps(registry, steps).next_tag == registry.next_tag + tags_used(steps),
    decreases steps.len(),
{
    if steps.len() > 0 {
        law_tags_count_up(registry, steps.drop_last());
    }
}

proof fn lemma_tags_used_grows(steps: Seq<RegistryStep>, i: int, j: int)
    requires
        0 <= i <= j <= steps.len(),
    ensures
        tags_used(steps.take(i)) <= tags_used(steps.take(j)) <= tags_used(steps),
        i < j && hands_out_a_tag(steps[i]) ==> tags_used(steps.take(i)) < tags_used(steps.take(j)),
    decreases j,
{
    if i < j {
        lemma_tags_used_grows(steps, i, j - 1);
        assert(steps.take(j).drop_last() =~= steps.take(j - 1));
        assert(steps.take(j).last() == steps[j - 1]);
    }
    lemma_tags_used_to_the_end(steps, j);
}

proof fn lemma_tags_used_to_the_end(steps: Seq<RegistryStep>, j: int)
    requires
        0 <= j <= steps.len(),
    ensures
        tags_used(steps.take(j)) <= tags_used(steps),
    decreases steps.len() - j,
{
    if j < steps.len() {
        lemma_tags_used_to_the_end(steps, j + 1);
        assert(steps.take(j + 1).drop_last() =~= steps.take(j));
    } else {
        assert(steps.take(j) =~= steps);
    }
}

/// No tag is handed out twice: the tag that one step hands out is not the next tag at any later time,
/// whatever is made, aborted or forgotten in between, until the counter runs out of numbers.
pub proof fn law_no_tag_is_handed_out_twice(
    registry: RegistryState,
    steps: Seq<RegistryStep>,
    i: int,
    j: int,
)
    requires
        0 <= i < j <= steps.len(),
        hands_out_a_tag(steps[i]),
        registry.next_tag + tags_used(steps) <= usize::MAX,
    ensures
        after_steps(registry, steps.take(i)).next_tag < after_steps(
            registry,
            steps.take(j),
        ).next_tag,
{
    lemma_tags_used_grows(steps, i, j);
    law_tags_count_up(registry, steps.take(i));
    law_tags_count_up(registry, steps.take(j));
}

/// The flag of a task tells whether that task was aborted: of everything that happens while the task
/// is alive, only aborting this very task raises its flag, and nothing lowers it.
pub proof fn law_flag_tells_whether_the_task_was_aborted(
    registry: RegistryState,
    steps: Seq<RegistryStep>,
    tag: TaskTag,
)
    requires
        registry.abort.contains_key(tag.0),
        forall|i: int| 0 <= i < steps.len() ==> #[trigger] steps[i] != RegistryStep::Forget(tag),
        forall|i: int|
            0 <= i < steps.len() && #[trigger] steps[i] is Create ==> after_steps(
                registry,
                steps.take(i),
            ).next_tag != tag.0,
    ensures
        after_steps(registry, steps).abort.contains_key(tag.0),
        after_steps(registry, steps).aborted(tag) <==> {
            ||| registry.abort[tag.0]
            ||| exists|i: int| 0 <= i < steps.len() && #[trigger] steps[i] == RegistryStep::Abort(tag)
        },
    decreases steps.len(),
{
    if steps.len() > 0 {
        let earlier = steps.drop_last();
        let last = steps.len() - 1;
        assert forall|i: int| 0 <= i < earlier.len() && #[trigger] earlier[i] is Create implies
            after_steps(registry, earlier.take(i)).next_tag != tag.0 by {
            assert(steps[i] is Create);
            assert(earlier.take(i) =~= steps.take(i));
        }
        assert forall|i: int| 0 <= i < earlier.len() implies #[trigger] earlier[i]
            != RegistryStep::Forget(tag) by {
            assert(steps[i] != RegistryStep::Forget(tag));
        }
        law_flag_tells_whether_the_task_was_aborted(registry, earlier, tag);
        assert(steps.take(last) =~= earlier);
        assert(steps[last] == steps.last());
        if exists|i: int| 0 <= i < earlier.len() && #[trigger] earlier[i] == RegistryStep::Abort(tag) {
            let i = choose|i: int|
                0 <= i < earlier.len() && #[trigger] earlier[i] == RegistryStep::Abort(tag);
            assert(steps[i] == RegistryStep::Abort(tag));
        }
        if exists|i: int| 0 <= i < steps.len() && #[trigger] steps[i] == RegistryStep::Abort(tag) {
            let i = choose|i: int|
                0 <= i < steps.len() && #[trigger] steps[i] == RegistryStep::Abort(tag);
            if i < last {
                assert(earlier[i] == RegistryStep::Abort(tag));
            }
        }
    }
}

/// A copy refers to the task that it was made of: it has its tag and its manager, so that it is
/// aborted exactly when the task is.
pub proof fn law_copy_refers_to_the_same_task<F: Clone>(
    task: Task<F>,
    copy: Task<F>,
    registry: RegistryState,
)
    requires
        same_task(task, copy),
    ensures
        copy.task_tag == task.task_tag,
        copy.manager == task.manager,
        cloned(task.future, copy.future),
        registry.aborted(copy.task_tag) == registry.aborted(task.task_tag),
{
}

} // verus!
