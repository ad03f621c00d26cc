use wasm_futures_executor::pool::{
    max_threads_size, worker_name, Message, PoolState, WorkerAction, WorkerState,
};

#[test]
fn worker_names_are_numbered_in_decimal() {
    assert_eq!(worker_name(0), "Worker-0");
    assert_eq!(worker_name(7), "Worker-7");
    assert_eq!(worker_name(12), "Worker-12");
    assert_eq!(worker_name(1005), "Worker-1005");
    assert_eq!(worker_name(usize::MAX), format!("Worker-{}", usize::MAX));
}

#[test]
fn max_threads_size_is_at_least_one() {
    assert_eq!(max_threads_size(0), 1);
    assert_eq!(max_threads_size(1), 1);
    assert_eq!(max_threads_size(8), 8);
}

#[test]
fn new_pool_has_one_handle() {
    let s = PoolState::new(4);
    assert_eq!(s.handle_count(), 1);
    assert_eq!(s.size(), 4);
}

#[test]
fn only_last_release_closes_every_worker() {
    let mut s = PoolState::new(3);
    s.retain();
    s.retain();
    assert_eq!(s.handle_count(), 3);
    let first: Vec<Message<u32>> = s.release();
    assert!(first.is_empty());
    let second: Vec<Message<u32>> = s.release();
    assert!(second.is_empty());
    assert_eq!(s.handle_count(), 1);
    let last: Vec<Message<u32>> = s.release();
    assert_eq!(last, vec![Message::Close, Message::Close, Message::Close]);
    assert_eq!(s.handle_count(), 0);
    assert_eq!(s.size(), 3);
}

#[test]
fn release_of_pool_without_workers_sends_nothing() {
    let mut s = PoolState::new(0);
    let last: Vec<Message<u32>> = s.release();
    assert!(last.is_empty());
}

#[test]
fn worker_runs_tasks_and_stops_on_close() {
    let mut w = WorkerState::Running;
    assert_eq!(w.on_message(Some(Message::Run(5u32))), WorkerAction::Execute(5));
    assert_eq!(w, WorkerState::Running);
    assert_eq!(w.on_message(Some(Message::<u32>::Close)), WorkerAction::Exit);
    assert_eq!(w, WorkerState::Stopped);
}

#[test]
fn worker_stops_when_queue_is_closed() {
    let mut w = WorkerState::Running;
    assert_eq!(w.on_message::<u32>(None), WorkerAction::Exit);
    assert_eq!(w, WorkerState::Stopped);
}

#[test]
fn dropping_last_handle_drains_queue_and_stops_workers() {
    // Two workers, three tasks queued, then the shutdown messages of the last
    // handle; the workers take turns at the queue.
    let mut s = PoolState::new(2);
    s.retain();
    let mut queue: Vec<Message<u32>> = vec![Message::Run(10), Message::Run(20)];
    queue.extend(s.release());
    queue.push(Message::Run(30));
    // a handle was still alive: the run above still precedes the shutdown
    queue.extend(s.release());
    let mut workers = vec![WorkerState::Running, WorkerState::Running];
    let mut executed = Vec::new();
    let mut turn = 0;
    for msg in queue {
        while workers[turn] != WorkerState::Running {
            turn = (turn + 1) % 2;
        }
        if let WorkerAction::Execute(t) = workers[turn].on_message(Some(msg)) {
            executed.push(t);
        }
        turn = (turn + 1) % 2;
    }
    assert_eq!(executed, vec![10, 20, 30]);
    assert_eq!(workers, vec![WorkerState::Stopped, WorkerState::Stopped]);
}
