use hooch::executor::{
    Executor, ExecutorAction, ExecutorEvent, ExecutorState, ExecutorTask, Forward, Progress,
};
use hooch::reactor::{Poll, Reactor, Token};
use hooch::runtime::{BlockingOutcome, Handle, LocalRuntime, Runtime, RuntimeBuilder, Worker};
use hooch::spawner::{JoinHandle, Spawner};
use hooch::sync::mpsc::bounded_channel::{BoundedSender, Channel, RecvError};
use hooch::task::manager::{Dispatch, TaskManager};
use hooch::task::task::{FutureSlot, TaskRegistry};
use std::cell::{Cell, RefCell};
use std::rc::Rc;

type Job = Box<dyn FnMut() -> Progress>;
type Slot = Rc<RefCell<FutureSlot<Job>>>;

/// A runtime whose workers are run by the test itself.
struct Bench {
    local: LocalRuntime,
    manager: TaskManager<Slot>,
    next_manager_id: usize,
    registry: TaskRegistry,
    workers: Vec<Worker>,
    panics: usize,
}

fn slot(job: Job) -> Slot {
    Rc::new(RefCell::new(FutureSlot::Runnable(job)))
}

impl Bench {
    fn build(builder: RuntimeBuilder) -> (Bench, Handle) {
        let mut bench = Bench {
            local: LocalRuntime::new(),
            manager: TaskManager::new(0),
            next_manager_id: 1,
            registry: TaskRegistry::new(),
            workers: Vec::new(),
            panics: 0,
        };
        let (handle, workers, left) =
            builder.build(&mut bench.local, &mut bench.manager, &mut bench.next_manager_id, 0);
        assert!(left.is_none());
        bench.workers = workers;
        (bench, handle)
    }

    /// Lets workers run until nothing is sent any more.
    fn deliver(&mut self, dispatch: Option<Dispatch<Slot>>) {
        let mut next = dispatch;
        while let Some(sent) = next.take() {
            let worker = &mut self.workers[sent.sender];
            let action = worker.executor.run(ExecutorEvent::Received(sent.message));
            if let ExecutorAction::Forward(task) = action {
                let mut slot = task.future.borrow_mut();
                if worker.executor.start_forward(&slot) == Forward::Poll {
                    let progress = match &mut *slot {
                        FutureSlot::Runnable(job) => job(),
                        _ => unreachable!(),
                    };
                    if worker.executor.forward(&mut slot, progress) {
                        self.panics += 1;
                    }
                }
                match worker.executor.run::<Slot>(ExecutorEvent::Forwarded) {
                    ExecutorAction::ReportReady(id) => {
                        assert!(self.manager.can_report_ready(id, &self.registry));
                        next = self.manager.executor_ready(id, &self.registry);
                    }
                    _ => unreachable!(),
                }
            }
        }
    }

    fn run_blocking<T: 'static>(
        &mut self,
        handle: Handle,
        mut future: impl FnMut() -> T + 'static,
    ) -> BlockingOutcome<T> {
        let result = Rc::new(RefCell::new(None));
        let result_clone = Rc::clone(&result);
        let job: Job = Box::new(move || {
            *result_clone.borrow_mut() = Some(future());
            Progress::Ready
        });
        let (_, dispatch) = self.local.runtime().unwrap().running_block(
            slot(job),
            &mut self.manager,
            &mut self.registry,
        );
        self.deliver(dispatch);
        let given = result.borrow_mut().take().ok_or(RecvError);
        handle.run_blocking(given, self.panics > 0, &mut self.local)
    }
}

fn value<T>(outcome: BlockingOutcome<T>) -> T {
    match outcome {
        BlockingOutcome::Value(value) => value,
        _ => panic!("the call gives a value"),
    }
}

#[test]
fn test_runtime_builder_default() {
    assert!(RuntimeBuilder::default().num_workers == 1);
}

#[test]
fn test_runtime_builder_num_workers() {
    assert!(RuntimeBuilder::default().num_workers(2).num_workers == 2);
}

#[test]
fn test_runtime_num_workers() {
    let (bench, handle) = Bench::build(RuntimeBuilder::default().num_workers(4));
    assert!(handle.num_workers(&bench.local) == 4);
}

#[test]
fn test_run_blocking() {
    let (mut bench, runtime) = Bench::build(RuntimeBuilder::default().num_workers(2));
    let ctr = Rc::new(Cell::new(0));
    let ctr_clone = Rc::clone(&ctr);
    value(bench.run_blocking(runtime, move || ctr_clone.set(ctr_clone.get() + 1)));
    assert!(ctr.replace(0) == 1);
}

#[test]
fn test_run_blocking_return() {
    let (mut bench, handle) = Bench::build(RuntimeBuilder::default());
    let ctr = 1;
    let res = value(bench.run_blocking(handle, move || ctr + 1));
    assert!(res == 2)
}

#[test]
fn test_obtaining_multiple_handles_from_same_runtime() {
    let (mut bench, handle) = Bench::build(RuntimeBuilder::default());
    let r = value(bench.run_blocking(handle, || 1));
    assert!(r == 1);
    let handle = Runtime::handle(&bench.local);
    let r = value(bench.run_blocking(handle, || 2));
    assert!(r == 2)
}

#[test]
fn leaving_the_runtime_allows_another() {
    let (mut bench, first) = Bench::build(RuntimeBuilder::new().num_workers(2));
    assert!(bench.local.is_guarded());
    bench.local.exit_runtime_guard();
    assert!(!bench.local.is_guarded());
    assert_eq!(first.num_workers(&bench.local), 2);
    let (second, workers, left) = RuntimeBuilder::new().num_workers(3).build(
        &mut bench.local,
        &mut bench.manager,
        &mut bench.next_manager_id,
        77,
    );
    assert!(bench.local.is_guarded());
    assert_eq!(second, Handle { panic_rx: 77 });
    assert_eq!(Runtime::handle(&bench.local), second);
    assert_eq!(second.num_workers(&bench.local), 3);
    assert_eq!(first.num_workers(&bench.local), 2);
    assert_eq!(bench.local.runtime_of(first).manager, 0);
    assert_eq!(bench.local.runtime_of(second).manager, 1);
    assert_eq!(workers.len(), 3);
    assert_eq!(bench.manager.id(), 1);
    assert_eq!(bench.next_manager_id, 2);
    assert_eq!(bench.manager.waiting_executors(), 3);
    let mut left = left.unwrap();
    assert_eq!(left.id(), 0);
    assert_eq!(left.waiting_executors(), 2);
    let mut reactor: Reactor<u32> = Reactor::new();
    let (_, rx, _) = Spawner::result_channel::<i32, u32>(&mut reactor);
    let (_, dispatch) = first.spawn(
        slot(Box::new(|| Progress::Ready)),
        rx,
        &bench.local,
        &mut left,
        &mut bench.registry,
    );
    assert_eq!(dispatch.unwrap().sender, 0);
    assert_eq!(left.waiting_executors(), 1);
    bench.workers = workers;
    assert_eq!(value(bench.run_blocking(second, || 5)), 5);
    let elsewhere = Handle { panic_rx: 1000 };
    assert_eq!(elsewhere.num_workers(&bench.local), 3);
}

#[test]
fn runtime_can_follow_a_dropped_one() {
    let (mut bench, handle) = Bench::build(RuntimeBuilder::new().num_workers(2));
    let mut runtime =
        Runtime { handles: vec![Some(0), Some(1)], runtime_handle: handle, manager: 0 };
    assert_eq!(runtime.drop(&mut bench.local), vec![0, 1]);
    let (again, workers, left) = RuntimeBuilder::new().build(
        &mut bench.local,
        &mut bench.manager,
        &mut bench.next_manager_id,
        1,
    );
    assert!(left.is_some());
    assert_eq!(workers.len(), 1);
    assert_eq!(again.num_workers(&bench.local), 1);
    assert_eq!(bench.manager.waiting_executors(), 1);
}

#[test]
fn tasks_spawned_before_the_runtime_wait_for_its_workers() {
    let mut local = LocalRuntime::new();
    let mut registry = TaskRegistry::new();
    let mut manager: TaskManager<char> = TaskManager::new(3);
    let task = hooch::task::task::Task::new('e', 3, &mut registry);
    assert!(manager.register_or_execute_non_blocking_task(task, &registry).is_none());
    assert!(!manager.serves_executors());
    let mut next_id = 4;
    let (_, workers, left) =
        RuntimeBuilder::new().build(&mut local, &mut manager, &mut next_id, 0);
    assert!(left.is_none());
    assert!(manager.serves_executors());
    assert_eq!((manager.id(), next_id, manager.waiting_tasks()), (3, 4, 1));
    let dispatch = manager.executor_ready(workers[0].executor.id(), &registry).unwrap();
    assert_eq!(dispatch.sender, 0);
}

#[test]
fn workers_are_numbered_and_registered() {
    let (bench, handle) = Bench::build(RuntimeBuilder::new().num_workers(3));
    assert_eq!(handle.panic_rx, 0);
    for (i, worker) in bench.workers.iter().enumerate() {
        assert_eq!(worker.executor.id().get(), i);
        assert_eq!(worker.executor.state, ExecutorState::Receiving);
        assert_eq!(worker.queue.sender, i);
        assert_eq!(worker.queue.bound, 10_000);
        assert_eq!(bench.manager.sender(worker.executor.id()), Some(i));
    }
}

#[test]
fn worker_thread_joins_the_runtime() {
    let (bench, handle) = Bench::build(RuntimeBuilder::new().num_workers(2));
    let known = bench.local.runtime().unwrap();
    let mut local = LocalRuntime::new();
    assert!(local.runtime().is_none());
    let copy = Runtime {
        handles: known.handles.clone(),
        runtime_handle: known.runtime_handle,
        manager: known.manager,
    };
    local.install(copy);
    local.set_runtime_guard();
    assert_eq!(Runtime::handle(&local), handle);
    local.install(Runtime {
        handles: vec![],
        runtime_handle: Handle { panic_rx: 9 },
        manager: 3,
    });
    assert_eq!(handle.num_workers(&local), 2);
}

#[test]
fn dropping_the_runtime_stops_every_worker_once() {
    let (mut bench, handle) = Bench::build(RuntimeBuilder::new().num_workers(3));
    let mut runtime = Runtime {
        handles: vec![Some(0), None, Some(2)],
        runtime_handle: handle,
        manager: 0,
    };
    assert_eq!(runtime.drop(&mut bench.local), vec![0, 2]);
    assert!(!bench.local.is_guarded());
    assert_eq!(runtime.drop(&mut bench.local), vec![]);
    assert_eq!(runtime.handles, vec![None, None, None]);
}

#[test]
fn blocking_call_reports_panics_and_lost_tasks() {
    let (mut bench, handle) = Bench::build(RuntimeBuilder::new());
    assert!(matches!(
        handle.run_blocking::<u8>(Err(RecvError), true, &mut bench.local),
        BlockingOutcome::TaskFailed
    ));
    assert!(bench.local.is_guarded());
    assert!(matches!(
        handle.run_blocking(Ok(1), true, &mut bench.local),
        BlockingOutcome::ExecutorPanicked
    ));
    assert!(!bench.local.is_guarded());
}

#[test]
fn panicking_job_is_reported_and_not_polled_again() {
    let (mut bench, _) = Bench::build(RuntimeBuilder::new().num_workers(2));
    let shared = slot(Box::new(|| Progress::Panicked));
    let runtime =
        Runtime { handles: vec![], runtime_handle: Handle { panic_rx: 0 }, manager: 0 };
    let (_, first) = runtime.running_block(shared.clone(), &mut bench.manager, &mut bench.registry);
    bench.deliver(first);
    assert_eq!(bench.panics, 1);
    assert!(matches!(*shared.borrow(), FutureSlot::Poisoned(_)));
    assert_eq!(bench.workers[0].executor.state, ExecutorState::Receiving);
    let (_, again) = runtime.running_block(shared, &mut bench.manager, &mut bench.registry);
    bench.deliver(again);
    assert_eq!(bench.panics, 1);
    assert_eq!(bench.workers[1].executor.state, ExecutorState::Receiving);
    assert_eq!(bench.manager.waiting_executors(), 2);
}

#[test]
fn executor_stops_when_told() {
    let mut executor = Executor::new(6);
    assert_eq!(executor.id().get(), 6);
    let action = executor.run::<u8>(ExecutorEvent::Received(ExecutorTask::Finished));
    assert!(matches!(action, ExecutorAction::Stop));
    assert_eq!(executor.state, ExecutorState::Stopped);
    let mut other = Executor::new(7);
    assert!(matches!(other.run::<u8>(ExecutorEvent::QueueClosed), ExecutorAction::Stop));
}

#[test]
fn finished_future_is_skipped() {
    let executor = Executor::new(0);
    let mut left = FutureSlot::Runnable(3);
    assert_eq!(executor.start_forward(&left), Forward::Poll);
    assert!(!executor.forward(&mut left, Progress::Pending));
    assert!(matches!(left, FutureSlot::Runnable(3)));
    assert!(!executor.forward(&mut left, Progress::Ready));
    assert!(matches!(left, FutureSlot::Finished));
    assert_eq!(executor.start_forward(&left), Forward::Skip);
    assert_eq!(executor.start_forward(&FutureSlot::Poisoned(3)), Forward::Skip);
}

#[test]
fn executor_tasks_have_names() {
    let mut registry = TaskRegistry::new();
    let task = hooch::task::task::Task::new(0u8, 0, &mut registry);
    assert_eq!(ExecutorTask::Task(task).to_string(), "ExecutorTask::Task");
    assert_eq!(ExecutorTask::<u8>::Finished.to_string(), "ExecutorTask::Finished");
}

fn spawn_waiting(
    bench: &mut Bench,
    handle: Handle,
    reactor: &mut Reactor<u32>,
) -> (JoinHandle<i32>, BoundedSender<i32>, Channel<i32>, Option<Dispatch<Slot>>) {
    let (tx, rx, channel) = Spawner::result_channel::<i32, u32>(reactor);
    let (join, dispatch) = handle.spawn(
        slot(Box::new(|| Progress::Pending)),
        rx,
        &bench.local,
        &mut bench.manager,
        &mut bench.registry,
    );
    (join, tx, channel, dispatch)
}

#[test]
fn join_handle_gives_the_result() {
    let (mut bench, handle) = Bench::build(RuntimeBuilder::new());
    let mut reactor: Reactor<u32> = Reactor::new();
    let (mut join, tx, mut channel, dispatch) = spawn_waiting(&mut bench, handle, &mut reactor);
    assert!(dispatch.is_some());
    assert!(!join.has_awaited);
    assert!(matches!(join.poll(&mut channel, &mut reactor, 5), Poll::Pending));
    assert!(join.has_awaited);
    tx.send(11, &mut channel, &mut reactor);
    assert_eq!(reactor.handle_event(Token(0)), vec![5]);
    assert!(matches!(
        join.poll(&mut channel, &mut reactor, 5),
        Poll::Ready(Ok(11))
    ));
}

#[test]
fn join_handle_reports_a_task_without_result() {
    let (mut bench, handle) = Bench::build(RuntimeBuilder::new());
    let mut reactor: Reactor<u32> = Reactor::new();
    let (mut join, tx, mut channel, _) = spawn_waiting(&mut bench, handle, &mut reactor);
    assert_eq!(tx.drop(&mut channel, &mut reactor), None);
    match join.poll(&mut channel, &mut reactor, 5) {
        Poll::Ready(Err(error)) => {
            assert_eq!(error.to_string(), "Error occurred while awaiting task");
        }
        _ => panic!("the task ended without a result"),
    }
}

#[test]
fn dropped_join_handle_aborts_the_task() {
    let (mut bench, handle) = Bench::build(RuntimeBuilder::new());
    let mut reactor: Reactor<u32> = Reactor::new();
    let (_, _, _, first) = spawn_waiting(&mut bench, handle, &mut reactor);
    let (join, _, _, second) = spawn_waiting(&mut bench, handle, &mut reactor);
    assert!(second.is_none());
    join.drop(&mut bench.registry);
    let id = bench.workers[0].executor.id();
    assert!(first.is_some());
    assert!(bench.manager.executor_ready(id, &bench.registry).is_none());
}

#[test]
fn jobs_go_round() {
    let (mut bench, handle) = Bench::build(RuntimeBuilder::new().num_workers(3));
    let mut reactor: Reactor<u32> = Reactor::new();
    for expected in 0..3 {
        let (_, _, _, dispatch) = spawn_waiting(&mut bench, handle, &mut reactor);
        assert_eq!(dispatch.unwrap().sender, expected);
    }
    let (_, _, _, dispatch) = spawn_waiting(&mut bench, handle, &mut reactor);
    assert!(dispatch.is_none());
    let id = bench.workers[1].executor.id();
    assert_eq!(bench.manager.executor_ready(id, &bench.registry).unwrap().sender, 1);
}
