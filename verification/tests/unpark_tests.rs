use wasm_futures_executor::pool::Message;
use wasm_futures_executor::unpark::{PollOutcome, RunStep, TaskStatus, UnparkMutex};

#[test]
fn new_lock_is_waiting() {
    let m: UnparkMutex<u32> = UnparkMutex::new();
    assert_eq!(m.status(), TaskStatus::Waiting);
}

#[test]
fn pending_poll_parks_task_and_wake_sends_it_back() {
    let mut m: UnparkMutex<u32> = UnparkMutex::new();
    m.start_poll();
    assert_eq!(m.status(), TaskStatus::Polling);
    assert_eq!(m.after_poll(PollOutcome::Pending, 7), RunStep::Parked);
    assert_eq!(m.status(), TaskStatus::Waiting);
    assert_eq!(m.wake(), Some(Message::Run(7)));
    assert_eq!(m.status(), TaskStatus::Polling);
    // a second wake-up before the poll ends only asks for another poll
    assert_eq!(m.wake(), None);
    assert_eq!(m.status(), TaskStatus::Repoll);
}

#[test]
fn wake_during_poll_makes_the_runner_poll_again() {
    let mut m: UnparkMutex<u32> = UnparkMutex::new();
    m.start_poll();
    assert_eq!(m.notify(), Err(()));
    assert_eq!(m.status(), TaskStatus::Repoll);
    assert_eq!(m.after_poll(PollOutcome::Pending, 9), RunStep::PollAgain(9));
    assert_eq!(m.status(), TaskStatus::Polling);
    assert_eq!(m.after_poll(PollOutcome::Pending, 9), RunStep::Parked);
}

#[test]
fn start_poll_clears_recorded_wakeups() {
    let mut m: UnparkMutex<u32> = UnparkMutex::new();
    m.start_poll();
    assert_eq!(m.notify(), Err(()));
    m.start_poll();
    assert_eq!(m.status(), TaskStatus::Polling);
    assert_eq!(m.wait(3), Ok(()));
    assert_eq!(m.notify(), Ok(3));
}

#[test]
fn finished_task_is_never_woken() {
    let mut m: UnparkMutex<u32> = UnparkMutex::new();
    m.start_poll();
    assert_eq!(m.after_poll(PollOutcome::Ready, 1), RunStep::Finished);
    assert_eq!(m.status(), TaskStatus::Complete);
    assert_eq!(m.wake(), None);
    assert_eq!(m.status(), TaskStatus::Complete);
}

#[test]
fn complete_from_repoll_is_final() {
    let mut m: UnparkMutex<u32> = UnparkMutex::new();
    m.start_poll();
    assert_eq!(m.notify(), Err(()));
    m.complete();
    assert_eq!(m.status(), TaskStatus::Complete);
    assert_eq!(m.notify(), Err(()));
}
