//! The wake-up protocol of a task: a lock around the task's data that, when a
//! wake-up arrives while the task is being polled, leaves the polling thread to
//! poll again instead of waiting for the lock.
use vstd::prelude::*;

use crate::pool::Message;

verus! {

/// Where a task stands in its execution.
#[derive(PartialEq, Eq, Structural, Clone, Copy, Debug)]
pub enum TaskStatus {
    /// Blocked on an event; the lock holds the task.
    Waiting,
    /// Being polled by one thread, which holds the task.
    Polling,
    /// Being polled, and woken since the poll began: it must be polled again.
    Repoll,
    /// Finished; no wake-up runs it again.
    Complete,
}

/// The state of the lock: the task's status and the task data it holds.
pub type UnparkModel<D> = (TaskStatus, Option<D>);

/// A wake-up: a waiting task is handed out to be polled (`Ok`); a task being
/// polled is marked to be polled again; otherwise nothing changes.
pub open spec fn notify_model<D>(s: UnparkModel<D>) -> (UnparkModel<D>, Result<D, ()>) {
    match s.0 {
        TaskStatus::Waiting => ((TaskStatus::Polling, None), Ok(s.1->0)),
        TaskStatus::Polling => ((TaskStatus::Repoll, s.1), Err(())),
        _ => (s, Err(())),
    }
}

/// A poll ended with the task pending: the task is parked in the lock (`Ok`),
/// unless a wake-up came during the poll, in which case it is handed back to
/// be polled again (`Err`).
pub open spec fn wait_model<D>(s: UnparkModel<D>, data: D) -> (UnparkModel<D>, Result<(), D>) {
    match s.0 {
        TaskStatus::Polling => ((TaskStatus::Waiting, Some(data)), Ok(())),
        _ => ((TaskStatus::Polling, None), Err(data)),
    }
}

/// The task has finished.
pub open spec fn complete_model<D>(s: UnparkModel<D>) -> UnparkModel<D> {
    (TaskStatus::Complete, s.1)
}

/// A poll begins, clearing the wake-ups recorded so far.
pub open spec fn start_poll_model<D>(s: UnparkModel<D>) -> UnparkModel<D> {
    (TaskStatus::Polling, s.1)
}

/// The lock around a task's data.
pub struct UnparkMutex<D> {
    status: TaskStatus,
    inner: Option<D>,
}

impl<D> View for UnparkMutex<D> {
    type V = UnparkModel<D>;

    closed spec fn view(&self) -> UnparkModel<D> {
        (self.status, self.inner)
    }
}

impl<D> UnparkMutex<D> {
    /// The lock holds the task data only while the task is waiting.
    #[verifier::type_invariant]
    closed spec fn holds_only_when_waiting(self) -> bool {
        self.status != TaskStatus::Waiting ==> self.inner is None
    }

    /// A lock for a task that has not been polled yet: waiting, holding nothing.
    pub fn new() -> (r: UnparkMutex<D>)
        ensures
            r@ == (TaskStatus::Waiting, None::<D>),
    {
        UnparkMutex { status: TaskStatus::Waiting, inner: None }
    }

    /// The task's status.
    pub fn status(&self) -> (r: TaskStatus)
        ensures
            r == self@.0,
    {
        self.status
    }

    /// A wake-up (see `notify_model`).
    pub fn notify(&mut self) -> (r: Result<D, ()>)
        requires
            old(self)@.0 == TaskStatus::Waiting ==> old(self)@.1 is Some,
        ensures
            (final(self)@, r) == notify_model(old(self)@),
            old(self)@.0 == TaskStatus::Waiting ==> final(self)@ == (TaskStatus::Polling, None::<D>)
                && r == Ok::<D, ()>(old(self)@.1->0),
            old(self)@.0 == TaskStatus::Polling ==> final(self)@ == (TaskStatus::Repoll, None::<D>)
                && r == Err::<D, ()>(()),
            old(self)@.0 == TaskStatus::Repoll || old(self)@.0 == TaskStatus::Complete
                ==> final(self)@ == old(self)@ && r == Err::<D, ()>(()),
    {
        proof {
            use_type_invariant(&*self);
        }
        match self.status {
            TaskStatus::Waiting => {
                let mut taken: Option<D> = None;
                std::mem::swap(&mut taken, &mut self.inner);
                *self = UnparkMutex { status: TaskStatus::Polling, inner: None };
                Ok(taken.unwrap())
            },
            TaskStatus::Polling => {
                let mut taken: Option<D> = None;
                std::mem::swap(&mut taken, &mut self.inner);
                *self = UnparkMutex { status: TaskStatus::Repoll, inner: taken };
                Err(())
            },
            _ => Err(()),
        }
    }

    /// A poll begins (see `start_poll_model`); the caller holds the task.
    pub fn start_poll(&mut self)
        requires
            old(self)@.0 != TaskStatus::Complete,
            old(self)@.1 is None,
        ensures
            final(self)@ == start_poll_model(old(self)@),
            final(self)@ == (TaskStatus::Polling, None::<D>),
    {
        *self = UnparkMutex { status: TaskStatus::Polling, inner: None };
    }

    /// A poll ended with the task pending (see `wait_model`).
    pub fn wait(&mut self, data: D) -> (r: Result<(), D>)
        requires
            old(self)@.0 == TaskStatus::Polling || old(self)@.0 == TaskStatus::Repoll,
        ensures
            (final(self)@, r) == wait_model(old(self)@, data),
            old(self)@.0 == TaskStatus::Polling ==> final(self)@ == (TaskStatus::Waiting, Some(data))
                && r == Ok::<(), D>(()),
            old(self)@.0 == TaskStatus::Repoll ==> final(self)@ == (TaskStatus::Polling, None::<D>)
                && r == Err::<(), D>(data),
    {
        proof {
            use_type_invariant(&*self);
        }
        match self.status {
            TaskStatus::Polling => {
                *self = UnparkMutex { status: TaskStatus::Waiting, inner: Some(data) };
                Ok(())
            },
            _ => {
                *self = UnparkMutex { status: TaskStatus::Polling, inner: None };
                Err(data)
            },
        }
    }

    /// The task has finished (see `complete_model`).
    pub fn complete(&mut self)
        requires
            old(self)@.0 == TaskStatus::Polling || old(self)@.0 == TaskStatus::Repoll,
        ensures
            final(self)@ == complete_model(old(self)@),
            final(self)@ == (TaskStatus::Complete, None::<D>),
    {
        proof {
            use_type_invariant(&*self);
        }
        *self = UnparkMutex { status: TaskStatus::Complete, inner: None };
    }
}


/// How a poll of a task's future ended.
#[derive(PartialEq, Eq, Structural, Clone, Copy, Debug)]
pub enum PollOutcome {
    Ready,
    Pending,
}

/// What the thread running a task does after a poll.
#[derive(PartialEq, Eq, Debug)]
pub enum RunStep<D> {
    /// The future finished: the task is done.
    Finished,
    /// The task is parked in its lock until a wake-up sends it back.
    Parked,
    /// A wake-up came during the poll: poll the task again.
    PollAgain(D),
}

impl<D> UnparkMutex<D> {
    /// The thread running `task` polled its future with `outcome`. A finished
    /// task is completed (and dropped); a pending one waits in the lock, or
    /// comes back to be polled again when woken during the poll.
    pub fn after_poll(&mut self, outcome: PollOutcome, task: D) -> (r: RunStep<D>)
        requires
            old(self)@.0 == TaskStatus::Polling || old(self)@.0 == TaskStatus::Repoll,
        ensures
            outcome == PollOutcome::Ready ==> final(self)@ == complete_model(old(self)@) && r
                is Finished,
            outcome == PollOutcome::Pending ==> final(self)@ == wait_model(old(self)@, task).0
                && match wait_model(old(self)@, task).1 {
                Ok(()) => r is Parked,
                Err(d) => r == RunStep::PollAgain(d),
            },
            outcome == PollOutcome::Ready ==> final(self)@ == (TaskStatus::Complete, None::<D>),
            outcome == PollOutcome::Pending && old(self)@.0 == TaskStatus::Polling ==> final(self)@
                == (TaskStatus::Waiting, Some(task)) && r is Parked,
            outcome == PollOutcome::Pending && old(self)@.0 == TaskStatus::Repoll ==> final(self)@
                == (TaskStatus::Polling, None::<D>) && r == RunStep::PollAgain(task),
    {
        match outcome {
            PollOutcome::Ready => {
                self.complete();
                RunStep::Finished
            },
            PollOutcome::Pending => {
                match self.wait(task) {
                    Ok(()) => RunStep::Parked,
                    Err(task) => RunStep::PollAgain(task),
                }
            },
        }
    }

    /// A wake-up of the task: when it hands the parked task out, the task is
    /// queued to run again; otherwise nothing is queued.
    pub fn wake(&mut self) -> (r: Option<Message<D>>)
        requires
            old(self)@.0 == TaskStatus::Waiting ==> old(self)@.1 is Some,
        ensures
            final(self)@ == notify_model(old(self)@).0,
            r == match notify_model(old(self)@).1 {
                Ok(d) => Some(Message::Run(d)),
                Err(()) => None::<Message<D>>,
            },
            old(self)@.0 == TaskStatus::Waiting ==> r == Some(Message::Run(old(self)@.1->0)),
            old(self)@.0 != TaskStatus::Waiting ==> r is None,
    {
        match self.notify() {
            Ok(task) => Some(Message::Run(task)),
            Err(()) => None,
        }
    }
}

/// A wake-up that arrives while the task is being polled is not lost: when
/// the poll ends with the task pending, the task is handed back to be polled
/// again rather than parked.
pub proof fn wake_during_poll_repolls<D>(s: UnparkModel<D>, task: D)
    requires
        s.0 == TaskStatus::Polling || s.0 == TaskStatus::Repoll,
    ensures
        wait_model(notify_model(s).0, task) == ((TaskStatus::Polling, None::<D>), Err::<(), D>(task)),
{
}

/// A task parked after a poll is handed out by the first wake-up, and by that
/// one only: a second wake-up before the next poll ends finds it being
/// polled and only asks for a new poll.
pub proof fn parked_task_woken_once<D>(s: UnparkModel<D>, task: D)
    requires
        s.0 == TaskStatus::Polling,
    ensures
        wait_model(s, task).1 == Ok::<(), D>(()),
        notify_model(wait_model(s, task).0) == ((TaskStatus::Polling, None::<D>), Ok::<D, ()>(task)),
        notify_model(notify_model(wait_model(s, task).0).0) == ((TaskStatus::Repoll, None::<D>), Err::<D, ()>(())),
{
}

/// A poll that begins leaves the lock `Polling` whatever wake-ups were
/// recorded before, keeping what the lock holds; so when no wake-up comes
/// during the poll, a poll that ends pending parks the task in the lock.
pub proof fn poll_start_clears_wakeups<D>(s: UnparkModel<D>, task: D)
    requires
        s.0 != TaskStatus::Complete,
    ensures
        start_poll_model(s) == (TaskStatus::Polling, s.1),
        wait_model(start_poll_model(s), task) == ((TaskStatus::Waiting, Some(task)), Ok::<(), D>(())),
{
}

/// A wake-up of a task already marked to be polled again, or of a finished
/// task, changes nothing and hands nothing out.
pub proof fn extra_wakeup_changes_nothing<D>(s: UnparkModel<D>)
    requires
        s.0 == TaskStatus::Repoll || s.0 == TaskStatus::Complete,
    ensures
        notify_model(s) == (s, Err::<D, ()>(())),
{
}

/// Only completing a task finishes it: a wake-up, the start of a poll and the
/// pending end of a poll never leave an unfinished task finished, and a
/// completed task is finished.
pub proof fn only_complete_finishes<D>(s: UnparkModel<D>, task: D)
    requires
        s.0 != TaskStatus::Complete,
    ensures
        notify_model(s).0.0 != TaskStatus::Complete,
        start_poll_model(s).0 != TaskStatus::Complete,
        wait_model(s, task).0.0 != TaskStatus::Complete,
        complete_model(s).0 == TaskStatus::Complete,
{
}

/// A finished task stays finished: wake-ups change nothing and hand nothing out.
pub proof fn complete_is_final<D>(s: UnparkModel<D>)
    requires
        s.0 == TaskStatus::Complete,
    ensures
        notify_model(s) == (s, Err::<D, ()>(())),
{
}

} // verus!
