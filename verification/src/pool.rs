//! The pool's own decisions: how many workers it starts and what they are
//! called, how its handles are counted and when the last one shuts the workers
//! down, and what a worker does with each message it takes from the queue.
use vstd::prelude::*;

use crate::decimal::{decimal, push_decimal};

verus! {

/// A message on the queue that the workers of a pool share.
#[derive(PartialEq, Eq, Debug)]
pub enum Message<T> {
    /// The worker that takes this message runs the task it carries.
    Run(T),
    /// The worker that takes this message shuts down.
    Close,
}

/// `n` shutdown messages.
pub open spec fn close_messages<T>(n: nat) -> Seq<Message<T>> {
    Seq::new(n, |i: int| Message::Close)
}

/// What dropping one of `handles` handles of a pool of `workers` workers
/// queues: a shutdown message for each worker when it is the last handle,
/// nothing otherwise.
pub open spec fn release_messages<T>(handles: nat, workers: nat) -> Seq<Message<T>> {
    if handles == 1 {
        close_messages(workers)
    } else {
        Seq::empty()
    }
}

/// `n` shutdown messages are `n` messages, each a shutdown message.
pub proof fn close_messages_are_n_closes<T>(n: nat)
    ensures
        close_messages::<T>(n).len() == n,
        forall|i: int| 0 <= i < n ==> close_messages::<T>(n)[i] == Message::<T>::Close,
{
}

/// What dropping all `handles` handles of a pool queues, one after the other.
pub open spec fn release_all_messages<T>(handles: nat, workers: nat) -> Seq<Message<T>>
    decreases handles,
{
    if handles == 0 {
        Seq::empty()
    } else {
        release_messages::<T>(handles, workers) + release_all_messages::<T>(
            (handles - 1) as nat,
            workers,
        )
    }
}

/// However many handles a pool has, dropping all of them queues exactly one
/// shutdown message for each worker, all from the last handle dropped.
pub proof fn dropping_every_handle_closes_each_worker_once<T>(handles: nat, workers: nat)
    requires
        handles >= 1,
    ensures
        release_all_messages::<T>(handles, workers) == close_messages::<T>(workers),
    decreases handles,
{
    if handles > 1 {
        dropping_every_handle_closes_each_worker_once::<T>((handles - 1) as nat, workers);
        assert(release_all_messages::<T>(handles, workers) =~= release_all_messages::<T>(
            (handles - 1) as nat,
            workers,
        ));
    } else {
        assert(release_all_messages::<T>(0, workers) =~= Seq::empty());
        assert(release_all_messages::<T>(1, workers) =~= close_messages::<T>(workers));
    }
}

/// One run message for each task, in order.
pub open spec fn run_messages<T>(tasks: Seq<T>) -> Seq<Message<T>> {
    Seq::new(tasks.len(), |i: int| Message::Run(tasks[i]))
}

/// The number of workers of a pool sized by the machine: the reported number
/// of hardware threads, but at least one.
pub fn max_threads_size(hardware_concurrency: usize) -> (r: usize)
    ensures
        r == (if hardware_concurrency >= 1 { hardware_concurrency } else { 1 }),
{
    if hardware_concurrency >= 1 {
        hardware_concurrency
    } else {
        1
    }
}

/// The name of the worker with index `idx`: `Worker-` and the index in decimal.
pub fn worker_name(idx: usize) -> (r: String)
    ensures
        r@ == "Worker-"@ + decimal(idx as nat),
{
    let mut s = String::from_str("Worker-");
    push_decimal(&mut s, idx as u64);
    s
}

/// What the handles of a pool share: how many handles there are, and how many
/// workers the pool started.
pub struct PoolState {
    cnt: usize,
    size: usize,
}

impl PoolState {
    /// The number of live handles of the pool.
    pub closed spec fn handles(&self) -> nat {
        self.cnt as nat
    }

    /// The number of workers the pool started.
    pub closed spec fn workers(&self) -> nat {
        self.size as nat
    }

    /// The state of a new pool of `size` workers, with its first handle.
    pub fn new(size: usize) -> (s: PoolState)
        ensures
            s.handles() == 1,
            s.workers() == size,
    {
        PoolState { cnt: 1, size }
    }

    /// The number of workers the pool started.
    pub fn size(&self) -> (r: usize)
        ensures
            r == self.workers(),
    {
        self.size
    }

    /// The number of live handles of the pool.
    pub fn handle_count(&self) -> (r: usize)
        ensures
            r == self.handles(),
    {
        self.cnt
    }

    /// A handle was cloned.
    pub fn retain(&mut self)
        requires
            old(self).handles() < usize::MAX,
        ensures
            final(self).handles() == old(self).handles() + 1,
            final(self).workers() == old(self).workers(),
    {
        self.cnt = self.cnt + 1;
    }

    /// A handle was dropped. When it was the last one, the result holds one
    /// shutdown message for each worker; otherwise it is empty.
    pub fn release<T>(&mut self) -> (msgs: Vec<Message<T>>)
        requires
            old(self).handles() >= 1,
        ensures
            final(self).handles() == old(self).handles() - 1,
            final(self).workers() == old(self).workers(),
            msgs@ == release_messages::<T>(old(self).handles(), old(self).workers()),
            msgs.len() == (if old(self).handles() == 1 { old(self).workers() } else { 0 }),
            forall|i: int| 0 <= i < msgs.len() ==> msgs[i] == Message::<T>::Close,
    {
        let previous = self.cnt;
        self.cnt = self.cnt - 1;
        let mut msgs: Vec<Message<T>> = Vec::new();
        if previous == 1 {
            let mut i: usize = 0;
            while i < self.size
                invariant
                    i <= self.size,
                    msgs@ == close_messages::<T>(i as nat),
                decreases self.size - i,
            {
                msgs.push(Message::Close);
                i = i + 1;
                proof {
                    assert(msgs@ =~= close_messages::<T>(i as nat));
                }
            }
        }
        proof {
            if previous != 1 {
                assert(msgs@ =~= Seq::empty());
            }
        }
        msgs
    }
}

/// Whether a worker still takes messages from the queue.
#[derive(PartialEq, Eq, Structural, Clone, Copy, Debug)]
pub enum WorkerState {
    Running,
    Stopped,
}

/// What a worker does with a message it took.
#[derive(PartialEq, Eq, Debug)]
pub enum WorkerAction<T> {
    /// Run the task, then take the next message.
    Execute(T),
    /// Stop taking messages and shut the worker down.
    Exit,
}

/// A running worker's step on what it took from the queue (`None`: the queue
/// was closed): a task is run and the worker goes on; a shutdown message or a
/// closed queue stops it.
pub open spec fn worker_step<T>(msg: Option<Message<T>>) -> (WorkerState, WorkerAction<T>) {
    match msg {
        Some(Message::Run(t)) => (WorkerState::Running, WorkerAction::Execute(t)),
        Some(Message::Close) => (WorkerState::Stopped, WorkerAction::Exit),
        None => (WorkerState::Stopped, WorkerAction::Exit),
    }
}

impl WorkerState {
    /// A running worker takes `msg` from the queue; its new state and what it
    /// does are those of `worker_step`.
    pub fn on_message<T>(&mut self, msg: Option<Message<T>>) -> (action: WorkerAction<T>)
        requires
            *old(self) == WorkerState::Running,
        ensures
            (*final(self), action) == worker_step(msg),
            match msg {
                Some(Message::Run(t)) => *final(self) == WorkerState::Running && action
                    == WorkerAction::Execute(t),
                _ => *final(self) == WorkerState::Stopped && action == WorkerAction::<T>::Exit,
            },
    {
        match msg {
            Some(Message::Run(t)) => {
                *self = WorkerState::Running;
                WorkerAction::Execute(t)
            },
            Some(Message::Close) => {
                *self = WorkerState::Stopped;
                WorkerAction::Exit
            },
            None => {
                *self = WorkerState::Stopped;
                WorkerAction::Exit
            },
        }
    }
}


/// The workers of `ws` take the messages of `q` from the front, the `k`-th
/// message going to worker `sched[k]`, each by `worker_step`. The result is
/// the workers' states at the end and the tasks run, in the order they were
/// taken; `None` when the schedule hands a message to a worker that is not
/// running (or to none at all).
pub open spec fn deliver<T>(ws: Seq<WorkerState>, q: Seq<Message<T>>, sched: Seq<int>) -> Option<
    (Seq<WorkerState>, Seq<T>),
>
    decreases q.len(),
{
    if q.len() == 0 {
        Some((ws, Seq::empty()))
    } else if sched.len() == 0 || !(0 <= sched[0] < ws.len()) || ws[sched[0]] != WorkerState::Running {
        None
    } else {
        let w = sched[0];
        let (next, action) = worker_step(Some(q[0]));
        match deliver(ws.update(w, next), q.drop_first(), sched.drop_first()) {
            None => None,
            Some((end, done)) => Some(
                (
                    end,
                    match action {
                        WorkerAction::Execute(t) => seq![t] + done,
                        WorkerAction::Exit => done,
                    },
                ),
            ),
        }
    }
}

/// How many workers of `ws` are running.
pub open spec fn running_count(ws: Seq<WorkerState>) -> nat
    decreases ws.len(),
{
    if ws.len() == 0 {
        0
    } else {
        running_count(ws.drop_last()) + (if ws.last() == WorkerState::Running { 1nat } else { 0nat })
    }
}

/// Stopping a running worker leaves one fewer running.
proof fn lemma_running_count_stop(ws: Seq<WorkerState>, i: int)
    requires
        0 <= i < ws.len(),
        ws[i] == WorkerState::Running,
    ensures
        running_count(ws.update(i, WorkerState::Stopped)) + 1 == running_count(ws),
    decreases ws.len(),
{
    let u = ws.update(i, WorkerState::Stopped);
    if i < ws.len() - 1 {
        assert(u.drop_last() =~= ws.drop_last().update(i, WorkerState::Stopped));
        lemma_running_count_stop(ws.drop_last(), i);
    } else {
        assert(u.drop_last() =~= ws.drop_last());
    }
}

/// Workers of which none is counted as running are all stopped.
proof fn lemma_running_count_zero(ws: Seq<WorkerState>)
    requires
        running_count(ws) == 0,
    ensures
        forall|i: int| 0 <= i < ws.len() ==> ws[i] == WorkerState::Stopped,
    decreases ws.len(),
{
    if ws.len() > 0 {
        lemma_running_count_zero(ws.drop_last());
        assert forall|i: int| 0 <= i < ws.len() implies ws[i] == WorkerState::Stopped by {
            if i < ws.len() - 1 {
                assert(ws[i] == ws.drop_last()[i]);
            }
        }
    }
}

/// Some worker runs while the count of running workers is not zero.
proof fn lemma_running_count_some(ws: Seq<WorkerState>) -> (i: int)
    requires
        running_count(ws) > 0,
    ensures
        0 <= i < ws.len(),
        ws[i] == WorkerState::Running,
    decreases ws.len(),
{
    if ws.last() == WorkerState::Running {
        ws.len() - 1
    } else {
        let j = lemma_running_count_some(ws.drop_last());
        assert(ws[j] == ws.drop_last()[j]);
        j
    }
}

/// Delivering run messages for `tasks` and then as many shutdown messages as
/// there are running workers: whatever the schedule, once the queue is drained
/// every worker has stopped and the tasks were run exactly once each, in order.
proof fn lemma_drain<T>(ws: Seq<WorkerState>, tasks: Seq<T>, sched: Seq<int>)
    requires
        deliver(ws, run_messages(tasks) + close_messages::<T>(running_count(ws)), sched) is Some,
    ensures
        ({
            let (end, done) = deliver(ws, run_messages(tasks) + close_messages::<T>(running_count(ws)), sched)->0;
            &&& end.len() == ws.len()
            &&& forall|i: int| 0 <= i < end.len() ==> end[i] == WorkerState::Stopped
            &&& done == tasks
        }),
    decreases tasks.len() + running_count(ws),
{
    let q = run_messages(tasks) + close_messages::<T>(running_count(ws));
    if q.len() == 0 {
        lemma_running_count_zero(ws);
        assert(tasks =~= Seq::<T>::empty());
    } else {
        let w = sched[0];
        if tasks.len() > 0 {
            assert(q[0] == Message::Run(tasks[0]));
            let rest = tasks.drop_first();
            assert(q.drop_first() =~= run_messages(rest) + close_messages::<T>(running_count(ws)));
            assert(ws.update(w, WorkerState::Running) =~= ws);
            lemma_drain(ws, rest, sched.drop_first());
            let (end, done) = deliver(ws, q, sched)->0;
            assert(done =~= seq![tasks[0]] + rest);
            assert(tasks =~= seq![tasks[0]] + rest);
        } else {
            let c = running_count(ws);
            assert(q[0] == Message::<T>::Close);
            let next = ws.update(w, WorkerState::Stopped);
            lemma_running_count_stop(ws, w);
            assert(q.drop_first() =~= run_messages(tasks) + close_messages::<T>(running_count(next)));
            lemma_drain(next, tasks, sched.drop_first());
        }
    }
}

/// When the last handle of a pool of `size` workers is dropped, after run
/// messages for `tasks` were queued, the queue holds those run messages and
/// then the shutdown messages that `release` returns. Whichever worker takes
/// each message, once the queue is drained all the workers have stopped, and
/// every task was run exactly once, in the order it was queued.
pub proof fn shutdown_stops_all_workers<T>(tasks: Seq<T>, size: nat, sched: Seq<int>)
    requires
        deliver(
            Seq::new(size, |i: int| WorkerState::Running),
            run_messages(tasks) + close_messages::<T>(size),
            sched,
        ) is Some,
    ensures
        deliver(
            Seq::new(size, |i: int| WorkerState::Running),
            run_messages(tasks) + close_messages::<T>(size),
            sched,
        )->0 == (Seq::new(size, |i: int| WorkerState::Stopped), tasks),
{
    let ws = Seq::new(size, |i: int| WorkerState::Running);
    lemma_running_count_all(size);
    lemma_drain(ws, tasks, sched);
    let (end, done) = deliver(ws, run_messages(tasks) + close_messages::<T>(size), sched)->0;
    assert(end =~= Seq::new(size, |i: int| WorkerState::Stopped));
}

/// The schedule that hands each message to the running worker that `choose`
/// picks.
pub open spec fn any_running_schedule<T>(ws: Seq<WorkerState>, q: Seq<Message<T>>) -> Seq<int>
    decreases q.len(),
{
    if q.len() == 0 {
        Seq::empty()
    } else {
        let w = choose|i: int| 0 <= i < ws.len() && ws[i] == WorkerState::Running;
        seq![w] + any_running_schedule(ws.update(w, worker_step(Some(q[0])).0), q.drop_first())
    }
}

proof fn lemma_drain_progress<T>(ws: Seq<WorkerState>, tasks: Seq<T>)
    requires
        running_count(ws) > 0 || tasks.len() == 0,
    ensures
        ({
            let q = run_messages(tasks) + close_messages::<T>(running_count(ws));
            deliver(ws, q, any_running_schedule(ws, q)) is Some
        }),
    decreases tasks.len() + running_count(ws),
{
    let q = run_messages(tasks) + close_messages::<T>(running_count(ws));
    if q.len() > 0 {
        let sched = any_running_schedule(ws, q);
        // some worker is running, so `choose` picks a running one
        let witness = lemma_running_count_some(ws);
        assert(ws[witness] == WorkerState::Running);
        let w = choose|i: int| 0 <= i < ws.len() && ws[i] == WorkerState::Running;
        assert(sched[0] == w);
        if tasks.len() > 0 {
            let rest = tasks.drop_first();
            assert(q[0] == Message::Run(tasks[0]));
            assert(q.drop_first() =~= run_messages(rest) + close_messages::<T>(running_count(ws)));
            assert(ws.update(w, WorkerState::Running) =~= ws);
            lemma_drain_progress(ws, rest);
            assert(sched.drop_first() =~= any_running_schedule(ws, q.drop_first()));
        } else {
            assert(q[0] == Message::<T>::Close);
            let next = ws.update(w, WorkerState::Stopped);
            lemma_running_count_stop(ws, w);
            assert(q.drop_first() =~= run_messages(tasks) + close_messages::<T>(running_count(next)));
            lemma_drain_progress(next, tasks);
            assert(sched.drop_first() =~= any_running_schedule(next, q.drop_first()));
        }
    }
}

/// The queue left by the last handle of a pool of `size` workers can always
/// be drained: as long as messages are left, some worker is running to take
/// the next one, provided the pool has a worker or no task was queued.
pub proof fn shutdown_always_drains<T>(tasks: Seq<T>, size: nat)
    requires
        size > 0 || tasks.len() == 0,
    ensures
        ({
            let ws = Seq::new(size, |i: int| WorkerState::Running);
            let q = run_messages(tasks) + close_messages::<T>(size);
            deliver(ws, q, any_running_schedule(ws, q)) is Some
        }),
{
    lemma_running_count_all(size);
    lemma_drain_progress(Seq::new(size, |i: int| WorkerState::Running), tasks);
}

/// `size` running workers are counted as `size`.
proof fn lemma_running_count_all(size: nat)
    ensures
        running_count(Seq::new(size, |i: int| WorkerState::Running)) == size,
    decreases size,
{
    if size > 0 {
        let ws = Seq::new(size, |i: int| WorkerState::Running);
        lemma_running_count_all((size - 1) as nat);
        assert(ws.drop_last() =~= Seq::new((size - 1) as nat, |i: int| WorkerState::Running));
    }
}

} // verus!
