//! The solo executor: tasks that must stay on one worker from start to end
//! are handed to dedicated workers. A worker that has nothing to do
//! registers as idle; a task goes to the worker that registered last, and
//! a new worker is started only where none is idle. Workers are never
//! torn down.
//!
//! The queue of registrations decides; its caller holds the channel that
//! belongs to each registration, starts the workers and hands the tasks
//! over.

use crate::number::one_more;
use vstd::prelude::*;

verus! {

/// The registrations of the workers that are idle, the latest last, and
/// the count of the workers.
#[derive(Clone, Debug, PartialEq, Eq)]
pub struct SubmissionQueue {
    idle: Vec<u64>,
    running: u64,
    workers: u64,
    peak: u64,
}

/// A [`SubmissionQueue`] as a value of the specification.
pub struct QueueView {
    /// The registrations of the idle workers, the latest last.
    pub idle: Seq<u64>,
    /// The tasks that are running, each on its worker.
    pub running: u64,
    /// The workers that there are.
    pub workers: u64,
    /// The most tasks that have been running at once.
    pub peak: u64,
}

/// What is done with a task.
#[derive(Clone, Copy, Debug, PartialEq, Eq, Structural)]
pub enum Dispatch {
    /// The task goes to the idle worker with this registration.
    Reuse(u64),
    /// No worker is idle: a new one is started for the task.
    Spawn,
}

impl View for SubmissionQueue {
    type V = QueueView;

    closed spec fn view(&self) -> QueueView {
        QueueView {
            idle: self.idle@,
            running: self.running,
            workers: self.workers,
            peak: self.peak,
        }
    }
}

/// The greater of two counts.
pub open spec fn greater(a: u64, b: u64) -> u64 {
    if a >= b {
        a
    } else {
        b
    }
}

impl QueueView {
    /// A queue before any worker was started.
    pub open spec fn empty() -> QueueView {
        QueueView { idle: Seq::empty(), running: 0, workers: 0, peak: 0 }
    }

    /// Each worker is idle or runs a task, and no two idle workers share
    /// a registration.
    pub open spec fn valid(self) -> bool {
        &&& self.idle.len() + self.running == self.workers
        &&& self.idle.no_duplicates()
    }

    /// There are as many workers as the most tasks that have been running
    /// at once.
    pub open spec fn balanced(self) -> bool {
        self.workers == self.peak
    }
}

/// What is done with the next task, where the registrations `idle` wait.
pub open spec fn dispatch(idle: Seq<u64>) -> Dispatch {
    if idle.len() > 0 {
        Dispatch::Reuse(idle.last())
    } else {
        Dispatch::Spawn
    }
}

/// The queue after one task was handed out: to the worker that registered
/// last, or to a new one.
pub open spec fn after_dispatch(queue: QueueView) -> QueueView {
    let running = one_more(queue.running);
    if queue.idle.len() > 0 {
        QueueView {
            idle: queue.idle.drop_last(),
            running,
            peak: greater(queue.peak, running),
            ..queue
        }
    } else {
        QueueView {
            running,
            workers: one_more(queue.workers),
            peak: greater(queue.peak, running),
            ..queue
        }
    }
}

/// The queue after a worker has registered as `registration`: it has done
/// its task, or it has come up with none.
pub open spec fn after_register(queue: QueueView, registration: u64) -> QueueView {
    if queue.running > 0 {
        QueueView {
            idle: queue.idle.push(registration),
            running: (queue.running - 1) as u64,
            ..queue
        }
    } else {
        QueueView {
            idle: queue.idle.push(registration),
            workers: one_more(queue.workers),
            ..queue
        }
    }
}

/// The queue after `tasks` tasks were handed out and no worker registered
/// meanwhile.
pub open spec fn after_dispatches(queue: QueueView, tasks: nat) -> QueueView
    decreases tasks,
{
    if tasks == 0 {
        queue
    } else {
        after_dispatch(after_dispatches(queue, (tasks - 1) as nat))
    }
}

/// How many workers are started for `tasks` tasks, where no worker
/// registers meanwhile.
pub open spec fn spawned(queue: QueueView, tasks: nat) -> nat
    decreases tasks,
{
    if tasks == 0 {
        0
    } else {
        let before = spawned(queue, (tasks - 1) as nat);
        if dispatch(after_dispatches(queue, (tasks - 1) as nat).idle) is Spawn {
            before + 1
        } else {
            before
        }
    }
}

impl SubmissionQueue {
    /// A queue before any worker was started.
    pub fn new() -> (queue: SubmissionQueue)
        ensures
            queue@ == QueueView::empty(),
    {
        SubmissionQueue { idle: Vec::new(), running: 0, workers: 0, peak: 0 }
    }

    /// How many workers are idle.
    pub fn idle(&self) -> (count: usize)
        ensures
            count == self@.idle.len(),
    {
        self.idle.len()
    }

    /// How many tasks are running.
    pub fn running(&self) -> (count: u64)
        ensures
            count == self@.running,
    {
        self.running
    }

    /// How many workers there are.
    pub fn workers(&self) -> (count: u64)
        ensures
            count == self@.workers,
    {
        self.workers
    }

    /// The most tasks that have been running at once.
    pub fn peak(&self) -> (count: u64)
        ensures
            count == self@.peak,
    {
        self.peak
    }

    /// Whether an idle worker waits as `registration`.
    pub fn waits(&self, registration: u64) -> (held: bool)
        ensures
            held == self@.idle.contains(registration),
    {
        let mut at: usize = 0;
        while at < self.idle.len()
            invariant
                at <= self.idle.len(),
                forall|k: int| 0 <= k < at ==> self.idle@[k] != registration,
            decreases self.idle.len() - at,
        {
            if self.idle[at] == registration {
                return true;
            }
            at += 1;
        }
        false
    }

    /// A worker that has nothing to do registers as `registration`, which
    /// is fresh: no idle worker waits under it.
    pub fn register(&mut self, registration: u64)
        requires
            !old(self)@.idle.contains(registration),
        ensures
            final(self)@ == after_register(old(self)@, registration),
            old(self)@.idle.no_duplicates() ==> final(self)@.idle.no_duplicates(),
    {
        self.idle.push(registration);
        if self.running > 0 {
            self.running = self.running - 1;
        } else if self.workers < u64::MAX {
            self.workers = self.workers + 1;
        }
    }
}

/// Hands out one task: to the worker that registered last, where one is
/// idle.
pub fn spawn_solo(queue: &mut SubmissionQueue) -> (done: Dispatch)
    ensures
        done == dispatch(old(queue)@.idle),
        final(queue)@ == after_dispatch(old(queue)@),
{
    if queue.running < u64::MAX {
        queue.running = queue.running + 1;
    }
    if queue.running > queue.peak {
        queue.peak = queue.running;
    }
    match queue.idle.pop() {
        Some(registration) => Dispatch::Reuse(registration),
        None => {
            if queue.workers < u64::MAX {
                queue.workers = queue.workers + 1;
            }
            Dispatch::Spawn
        },
    }
}

/// After `tasks` tasks the registrations that came first still wait, as
/// far as they were not needed.
pub proof fn lemma_after_dispatches(queue: QueueView, tasks: nat)
    ensures
        after_dispatches(queue, tasks).idle == (if tasks <= queue.idle.len() {
            queue.idle.take(queue.idle.len() - tasks)
        } else {
            Seq::<u64>::empty()
        }),
    decreases tasks,
{
    if tasks > 0 {
        lemma_after_dispatches(queue, (tasks - 1) as nat);
        let before = after_dispatches(queue, (tasks - 1) as nat).idle;
        if tasks <= queue.idle.len() {
            assert(before.drop_last() =~= queue.idle.take(queue.idle.len() - tasks));
        } else {
            assert(after_dispatch(after_dispatches(queue, (tasks - 1) as nat)).idle
                =~= Seq::<u64>::empty());
        }
    } else {
        assert(queue.idle.take(queue.idle.len() as int) =~= queue.idle);
    }
}

/// Executor reuse: where as many workers are idle as tasks are handed out,
/// no worker is started, and the task number `k` goes to the worker that
/// registered as the `k`-th from the end; where fewer workers are idle,
/// one worker is started for each task that is over.
pub proof fn lemma_executor_reuse(queue: QueueView, tasks: nat)
    ensures
        tasks <= queue.idle.len() ==> spawned(queue, tasks) == 0,
        tasks > queue.idle.len() ==> spawned(queue, tasks) == tasks - queue.idle.len(),
        forall|k: nat|
            k < tasks && k < queue.idle.len() ==> #[trigger] dispatch(
                after_dispatches(queue, k).idle,
            ) == Dispatch::Reuse(queue.idle[queue.idle.len() - 1 - k]),
        forall|k: nat|
            queue.idle.len() <= k < tasks ==> #[trigger] dispatch(after_dispatches(queue, k).idle)
                == Dispatch::Spawn,
    decreases tasks,
{
    if tasks > 0 {
        lemma_executor_reuse(queue, (tasks - 1) as nat);
        lemma_after_dispatches(queue, (tasks - 1) as nat);
    }
    assert forall|k: nat| k < tasks && k < queue.idle.len() implies #[trigger] dispatch(
        after_dispatches(queue, k).idle,
    ) == Dispatch::Reuse(queue.idle[queue.idle.len() - 1 - k]) by {
        lemma_after_dispatches(queue, k);
    }
    assert forall|k: nat| queue.idle.len() <= k < tasks implies #[trigger] dispatch(
        after_dispatches(queue, k).idle,
    ) == Dispatch::Spawn by {
        lemma_after_dispatches(queue, k);
    }
}

/// The workers that are started are counted: after `tasks` tasks there are
/// as many workers more as were started for them.
pub proof fn lemma_started_workers_are_counted(queue: QueueView, tasks: nat)
    requires
        queue.workers + tasks <= u64::MAX,
    ensures
        after_dispatches(queue, tasks).workers == queue.workers + spawned(queue, tasks),
        spawned(queue, tasks) <= tasks,
    decreases tasks,
{
    if tasks > 0 {
        lemma_started_workers_are_counted(queue, (tasks - 1) as nat);
    }
}

/// Each worker is idle or runs a task, and each idle worker has a
/// registration of its own, whatever is handed out and whoever registers
/// under a fresh registration, as long as the counts hold the workers.
pub proof fn lemma_workers_are_counted(queue: QueueView, registration: u64)
    requires
        queue.valid(),
        queue.workers < u64::MAX,
    ensures
        after_dispatch(queue).valid(),
        !queue.idle.contains(registration) ==> after_register(queue, registration).valid(),
{
    if queue.idle.len() > 0 {
        let rest = queue.idle.drop_last();
        assert forall|i: int, j: int| 0 <= i < rest.len() && 0 <= j < rest.len() && i != j implies rest[i]
            != rest[j] by {
            assert(rest[i] == queue.idle[i] && rest[j] == queue.idle[j]);
        }
    }
    if !queue.idle.contains(registration) {
        let more = queue.idle.push(registration);
        assert forall|i: int, j: int| 0 <= i < more.len() && 0 <= j < more.len() && i != j implies more[i]
            != more[j] by {
            if i < queue.idle.len() {
                assert(queue.idle[i] == more[i]);
            }
            if j < queue.idle.len() {
                assert(queue.idle[j] == more[j]);
            }
        }
    }
}

/// A task never goes to a worker that another task was handed to and
/// that has not registered since: the registration that is taken waits no
/// more.
pub proof fn lemma_registration_is_taken_once(queue: QueueView)
    requires
        queue.valid(),
        queue.idle.len() > 0,
    ensures
        !after_dispatch(queue).idle.contains(queue.idle.last()),
{
    let rest = queue.idle.drop_last();
    if rest.contains(queue.idle.last()) {
        let i = choose|i: int| 0 <= i < rest.len() && rest[i] == queue.idle.last();
        assert(queue.idle[i] == queue.idle[queue.idle.len() - 1]);
    }
}

/// The count of the workers is bounded by the demand: as long as each
/// worker that registers has done a task, there are as many workers as
/// the most tasks that have been running at once.
pub proof fn lemma_workers_follow_demand(queue: QueueView, registration: u64)
    requires
        queue.valid(),
        queue.balanced(),
        queue.workers < u64::MAX,
    ensures
        after_dispatch(queue).balanced(),
        queue.running > 0 ==> after_register(queue, registration).balanced(),
{
}

} // verus!
