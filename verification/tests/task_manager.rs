use hooch::executor::{ExecutorId, ExecutorTask};
use hooch::task::manager::{generate_task_manager_id, Dispatch, TaskManager};
use hooch::task::manager::{MAX_TASKS, MAX_WAITING};
use hooch::task::task::{clone, wake, wake_by_ref, Task, TaskRegistry, TaskTag};

fn sent(dispatch: Option<Dispatch<&'static str>>) -> (usize, &'static str) {
    let dispatch = dispatch.expect("something is sent");
    match dispatch.message {
        ExecutorTask::Task(task) => (dispatch.sender, task.future),
        ExecutorTask::Finished => panic!("a task is sent"),
    }
}

#[test]
fn manager_ids_count_up() {
    let mut next_id = 7;
    assert_eq!(generate_task_manager_id(&mut next_id), 7);
    assert_eq!(generate_task_manager_id(&mut next_id), 8);
    let mut last = usize::MAX;
    assert_eq!(generate_task_manager_id(&mut last), usize::MAX);
    assert_eq!(last, 0);
    let manager: TaskManager<u8> = TaskManager::new(4);
    assert_eq!(manager.id(), 4);
}

#[test]
fn task_goes_to_the_executor_that_waited_longest() {
    let mut registry = TaskRegistry::new();
    let mut manager = TaskManager::new(0);
    manager.register_executor(ExecutorId(0), 10);
    manager.register_executor(ExecutorId(1), 11);
    assert_eq!(manager.sender(ExecutorId(1)), Some(11));
    assert_eq!(manager.sender(ExecutorId(2)), None);
    let a = Task::new("a", 0, &mut registry);
    let b = Task::new("b", 0, &mut registry);
    let c = Task::new("c", 0, &mut registry);
    assert_eq!(sent(manager.register_or_execute_non_blocking_task(a, &registry)), (10, "a"));
    assert_eq!(sent(manager.register_or_execute_non_blocking_task(b, &registry)), (11, "b"));
    assert_eq!(manager.waiting_executors(), 0);
    assert!(manager.register_or_execute_non_blocking_task(c, &registry).is_none());
    assert_eq!(manager.waiting_tasks(), 1);
    assert_eq!(sent(manager.executor_ready(ExecutorId(1), &registry)), (11, "c"));
    assert_eq!(manager.waiting_tasks(), 0);
    assert!(manager.executor_ready(ExecutorId(0), &registry).is_none());
    assert_eq!(manager.waiting_executors(), 1);
    let d = Task::new("d", 0, &mut registry);
    assert_eq!(sent(manager.register_or_execute_non_blocking_task(d, &registry)), (10, "d"));
}

#[test]
fn registering_again_replaces_the_sender() {
    let mut registry = TaskRegistry::new();
    let mut manager = TaskManager::new(0);
    manager.register_executor(ExecutorId(3), 30);
    manager.register_executor(ExecutorId(3), 31);
    let a = Task::new("a", 0, &mut registry);
    assert_eq!(sent(manager.register_or_execute_non_blocking_task(a, &registry)), (31, "a"));
}

#[test]
fn aborted_tasks_are_passed_over() {
    let mut registry = TaskRegistry::new();
    let mut manager = TaskManager::new(0);
    let a = Task::new("a", 0, &mut registry);
    let b = Task::new("b", 0, &mut registry);
    let c = Task::new("c", 0, &mut registry);
    let (tag_a, tag_b) = (a.task_tag, b.task_tag);
    assert!(manager.register_or_execute_non_blocking_task(a, &registry).is_none());
    assert!(manager.register_or_execute_non_blocking_task(b, &registry).is_none());
    assert!(manager.register_or_execute_non_blocking_task(c, &registry).is_none());
    assert!(!registry.abort(tag_a));
    assert!(registry.abort(tag_a));
    registry.abort(tag_b);
    manager.register_executor(ExecutorId(0), 5);
    assert_eq!(sent(manager.executor_ready(ExecutorId(0), &registry)), (5, "c"));
    assert!(manager.executor_ready(ExecutorId(0), &registry).is_none());
}

#[test]
fn aborted_task_is_not_executed() {
    let mut registry = TaskRegistry::new();
    let mut manager = TaskManager::new(0);
    manager.register_executor(ExecutorId(0), 5);
    let a = Task::new("a", 0, &mut registry);
    registry.abort(a.task_tag);
    assert!(a.has_aborted(&registry));
    assert!(manager.register_or_execute_non_blocking_task(a, &registry).is_none());
    let b = Task::new("b", 0, &mut registry);
    assert!(!b.has_aborted(&registry));
    assert_eq!(sent(manager.register_or_execute_non_blocking_task(b, &registry)), (5, "b"));
}

#[test]
fn tags_and_flags() {
    let mut registry = TaskRegistry::new();
    assert_eq!(Task::<u8>::generate_tag(&mut registry), TaskTag(0));
    let task = Task::new(1u8, 9, &mut registry);
    assert_eq!(task.task_tag, TaskTag(1));
    assert_eq!(task.manager, 9);
    registry.abort(TaskTag(1));
    assert!(task.has_aborted(&registry));
    registry.forget(TaskTag(1));
    assert!(!task.has_aborted(&registry));
    assert!(!registry.abort(TaskTag(1)));
    assert!(!task.has_aborted(&registry));
}

#[test]
fn waking_executes_the_task_again() {
    let mut registry = TaskRegistry::new();
    let mut manager = TaskManager::new(2);
    manager.register_executor(ExecutorId(0), 5);
    let task = Task::new("again", 2, &mut registry);
    let copy = clone(&task);
    assert_eq!(copy.task_tag, task.task_tag);
    assert_eq!(sent(wake_by_ref(&task, &mut manager, &registry)), (5, "again"));
    assert!(wake(task, &mut manager, &registry).is_none());
    assert_eq!(sent(manager.executor_ready(ExecutorId(0), &registry)), (5, "again"));
    registry.abort(copy.task_tag);
    assert!(manager.executor_ready(ExecutorId(0), &registry).is_none());
    assert!(wake(copy, &mut manager, &registry).is_none());
}

#[test]
fn tasks_and_executors_never_both_wait() {
    let mut registry = TaskRegistry::new();
    let mut manager = TaskManager::new(0);
    manager.register_executor(ExecutorId(0), 0);
    manager.register_executor(ExecutorId(1), 1);
    let mut busy = Vec::new();
    for name in ["a", "b", "c", "d"] {
        let task = Task::new(name, 0, &mut registry);
        if let Some(dispatch) = manager.register_or_execute_non_blocking_task(task, &registry) {
            busy.push(dispatch.sender);
        }
        assert!(manager.waiting_tasks() == 0 || manager.waiting_executors() == 0);
    }
    assert_eq!(busy, vec![0, 1]);
    assert_eq!(manager.waiting_tasks(), 2);
    for _ in 0..2 {
        for executor in [0, 1] {
            manager.executor_ready(ExecutorId(executor), &registry);
            assert!(manager.waiting_tasks() == 0 || manager.waiting_executors() == 0);
        }
    }
    assert_eq!(manager.waiting_tasks(), 0);
    assert_eq!(manager.waiting_executors(), 2);
}

#[test]
fn waiting_task_is_sent_once() {
    let mut registry = TaskRegistry::new();
    let mut manager = TaskManager::new(0);
    for name in ["first", "second"] {
        let task = Task::new(name, 0, &mut registry);
        assert!(manager.register_or_execute_non_blocking_task(task, &registry).is_none());
    }
    manager.register_executor(ExecutorId(3), 30);
    assert_eq!(manager.sender(ExecutorId(3)), Some(30));
    assert_eq!(manager.sender(ExecutorId(4)), None);
    assert_eq!(sent(manager.executor_ready(ExecutorId(3), &registry)), (30, "first"));
    assert_eq!(sent(manager.executor_ready(ExecutorId(3), &registry)), (30, "second"));
    assert_eq!(manager.waiting_tasks(), 0);
}

#[test]
fn reporting_ready_needs_a_sender_only_for_a_live_task() {
    let mut registry = TaskRegistry::new();
    let mut manager = TaskManager::new(0);
    assert!(manager.can_report_ready(ExecutorId(2), &registry));
    let task = Task::new("aborted", 0, &mut registry);
    let tag = task.task_tag;
    manager.register_or_execute_non_blocking_task(task, &registry);
    registry.abort(tag);
    assert!(manager.can_report_ready(ExecutorId(2), &registry));
    let task = Task::new("live", 0, &mut registry);
    manager.register_or_execute_non_blocking_task(task, &registry);
    assert!(!manager.can_report_ready(ExecutorId(2), &registry));
    manager.register_executor(ExecutorId(2), 9);
    assert!(manager.can_report_ready(ExecutorId(2), &registry));
    assert_eq!(sent(manager.executor_ready(ExecutorId(2), &registry)), (9, "live"));
}

#[test]
fn limits() {
    assert_eq!(MAX_TASKS, 1024 * 1024);
    assert_eq!(MAX_WAITING, 128 * 1000);
}

#[test]
fn executing_needs_room_unless_the_task_is_aborted() {
    let mut registry = TaskRegistry::new();
    let mut manager = TaskManager::new(0);
    let probe = Task::new((), 0, &mut registry);
    assert!(manager.can_execute(&probe, &registry));
    for _ in 0..MAX_WAITING {
        let task = Task::new((), 0, &mut registry);
        assert!(manager.register_or_execute_non_blocking_task(task, &registry).is_none());
    }
    assert_eq!(manager.waiting_tasks(), MAX_WAITING);
    assert!(!manager.takes_tasks());
    assert!(!manager.can_execute(&probe, &registry));
    registry.abort(probe.task_tag);
    assert!(manager.can_execute(&probe, &registry));
    manager.register_executor(ExecutorId(0), 0);
    assert!(manager.takes_tasks());
}

#[test]
fn executor_that_was_never_registered_takes_no_tasks() {
    let registry = TaskRegistry::new();
    let mut manager: TaskManager<()> = TaskManager::new(0);
    assert!(manager.executor_ready(ExecutorId(8), &registry).is_none());
    assert_eq!(manager.waiting_executors(), 1);
    assert!(!manager.takes_tasks());
}
