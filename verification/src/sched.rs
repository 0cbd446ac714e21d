//! The bookkeeping of a cooperative scheduler for several workers.
//!
//! A [`Scheduler`] owns the tasks from their submission to their
//! completion. Each worker asks it for a runnable task, drives the task one
//! step outside the scheduler and reports how the step ended; wake handles
//! report that a suspended task may go on. While a worker drives a task the
//! task's computation is out of the scheduler's hands, so no second worker
//! can be given it.

use std::collections::VecDeque;
use vstd::prelude::*;

use crate::error::{try_reserve, AllocError};

verus! {

/// Where a task stands.
#[derive(Clone, Copy, Debug, PartialEq, Eq, Structural)]
pub enum TaskState {
    /// It waits in a run queue for a worker.
    Runnable,
    /// A worker is driving it.
    Running,
    /// A worker is driving it and it was woken meanwhile: it becomes
    /// runnable again as soon as the worker puts it down.
    Notified,
    /// It is suspended until a wake handle is invoked.
    Parked,
    /// It has completed. Wake handles that still point at it are stale.
    Finished,
}

/// One task as the scheduler keeps it.
pub struct Task<F> {
    /// Where the task stands.
    pub state: TaskState,
    /// The run queue that the task goes to whenever it becomes runnable.
    pub home: usize,
    /// The computation, unless a worker has it or it has completed.
    pub body: Option<F>,
}

/// A scheduler as a mathematical value: the tasks by their identifiers and
/// the run queues by worker, each from its head to its tail.
pub struct SchedView<F> {
    /// The tasks ever submitted; a task's identifier is its position.
    pub tasks: Seq<Task<F>>,
    /// The identifiers of the runnable tasks, by run queue.
    pub queues: Seq<Seq<usize>>,
}

/// The first queue from `from` on that is not empty.
pub open spec fn first_busy(queues: Seq<Seq<usize>>, from: int) -> Option<int>
    decreases queues.len() - from,
{
    if from < 0 || from >= queues.len() {
        None
    } else if queues[from].len() > 0 {
        Some(from)
    } else {
        first_busy(queues, from + 1)
    }
}

impl<F> SchedView<F> {
    /// A scheduler without tasks for `workers` workers. There is always at
    /// least one run queue.
    pub open spec fn idle(workers: usize) -> SchedView<F> {
        SchedView {
            tasks: Seq::empty(),
            queues: Seq::new(
                if workers == 0 {
                    1nat
                } else {
                    workers as nat
                },
                |q: int| Seq::<usize>::empty(),
            ),
        }
    }

    /// The entry at position `i` of run queue `q`.
    pub open spec fn entry(self, q: int, i: int) -> usize {
        self.queues[q][i]
    }

    /// Whether `id` names a task.
    pub open spec fn known(self, id: int) -> bool {
        0 <= id < self.tasks.len()
    }

    /// Whether a worker is driving the task `id`.
    pub open spec fn in_flight(self, id: int) -> bool {
        self.known(id) && (self.tasks[id].state == TaskState::Running || self.tasks[id].state
            == TaskState::Notified)
    }

    /// What holds of every scheduler.
    ///
    /// The run queues hold exactly the runnable tasks, each once and in its
    /// home queue, and the scheduler has the computation of exactly the
    /// tasks that no worker is driving and that have not completed.
    pub open spec fn wf(self) -> bool {
        &&& self.queues.len() > 0
        &&& self.tasks.len() <= usize::MAX
        &&& forall|id: int|
            self.known(id) ==> {
                &&& (#[trigger] self.tasks[id]).home < self.queues.len()
                &&& (self.tasks[id].body is Some <==> (self.tasks[id].state == TaskState::Runnable
                    || self.tasks[id].state == TaskState::Parked))
            }
        &&& forall|q: int, i: int|
            0 <= q < self.queues.len() && 0 <= i < self.queues[q].len() ==> {
                &&& self.known(#[trigger] self.entry(q, i) as int)
                &&& self.tasks[self.entry(q, i) as int].state == TaskState::Runnable
                &&& self.tasks[self.entry(q, i) as int].home == q
            }
        &&& forall|q: int, i: int, j: int|
            0 <= q < self.queues.len() && 0 <= i < j < self.queues[q].len() ==> #[trigger] self.entry(
                q,
                i,
            ) != #[trigger] self.entry(q, j)
        &&& forall|id: int|
            self.known(id) && (#[trigger] self.tasks[id]).state == TaskState::Runnable
                ==> self.queues[self.tasks[id].home as int].contains(id as usize)
    }

    /// The run queue that `affinity` names: that worker's own, or the
    /// first one where there is no such worker.
    pub open spec fn queue_of(self, affinity: usize) -> int {
        if affinity < self.queues.len() {
            affinity as int
        } else {
            0
        }
    }

    /// The run queue that `worker` takes its next task from: its own if it
    /// has work, else the first one that has.
    pub open spec fn source(self, worker: usize) -> Option<int> {
        if self.queues[self.queue_of(worker)].len() > 0 {
            Some(self.queue_of(worker))
        } else {
            first_busy(self.queues, 0)
        }
    }

    /// Whether no task is runnable.
    pub open spec fn drained(self) -> bool {
        forall|q: int| 0 <= q < self.queues.len() ==> (#[trigger] self.queues[q]).len() == 0
    }

    /// This scheduler with the task `id` in state `state`, keeping `body`.
    pub open spec fn put(self, id: int, state: TaskState, body: Option<F>) -> SchedView<F> {
        SchedView {
            tasks: self.tasks.update(id, Task { state, home: self.tasks[id].home, body }),
            queues: self.queues,
        }
    }

    /// This scheduler with `id` appended to run queue `q`.
    pub open spec fn enqueue(self, q: int, id: usize) -> SchedView<F> {
        SchedView { tasks: self.tasks, queues: self.queues.update(q, self.queues[q].push(id)) }
    }

    /// This scheduler without the head of run queue `q`.
    pub open spec fn dequeue(self, q: int) -> SchedView<F> {
        SchedView { tasks: self.tasks, queues: self.queues.update(q, self.queues[q].drop_first()) }
    }

    /// The scheduler after `body` was submitted with `affinity`: a new
    /// task, runnable, at the tail of its home queue.
    pub open spec fn spawn(self, affinity: usize, body: F) -> SchedView<F> {
        let home = self.queue_of(affinity);
        SchedView {
            tasks: self.tasks.push(
                Task { state: TaskState::Runnable, home: home as usize, body: Some(body) },
            ),
            queues: self.queues,
        }.enqueue(home, self.tasks.len() as usize)
    }

    /// The task that `worker` is given next, if any is runnable.
    pub open spec fn next(self, worker: usize) -> Option<usize> {
        match self.source(worker) {
            Some(q) => Some(self.queues[q][0]),
            None => None,
        }
    }

    /// The scheduler after `worker` was given its next task: the task has
    /// left its run queue and is in flight, its computation handed out.
    pub open spec fn start(self, worker: usize) -> SchedView<F> {
        match self.source(worker) {
            Some(q) => self.dequeue(q).put(self.queues[q][0] as int, TaskState::Running, None),
            None => self,
        }
    }

    /// The scheduler after the worker that drove `id` reported "not ready"
    /// and gave `body` back: the task is parked, or runnable again at the
    /// tail of its home queue if it was woken while in flight.
    pub open spec fn park(self, id: usize, body: F) -> SchedView<F> {
        if !self.in_flight(id as int) {
            self
        } else if self.tasks[id as int].state == TaskState::Running {
            self.put(id as int, TaskState::Parked, Some(body))
        } else {
            self.put(id as int, TaskState::Runnable, Some(body)).enqueue(
                self.tasks[id as int].home as int,
                id,
            )
        }
    }

    /// The scheduler after the worker that drove `id` reported completion.
    pub open spec fn finish(self, id: usize) -> SchedView<F> {
        if self.in_flight(id as int) {
            self.put(id as int, TaskState::Finished, None)
        } else {
            self
        }
    }

    /// Whether a wake handle for `id` still has something to do: the task
    /// is parked, or in flight and not yet woken.
    pub open spec fn wakeable(self, id: usize) -> bool {
        self.known(id as int) && (self.tasks[id as int].state == TaskState::Parked
            || self.tasks[id as int].state == TaskState::Running)
    }

    /// The scheduler after a wake handle for `id` was invoked. A parked
    /// task becomes runnable at the tail of its home queue; a task in
    /// flight is marked; for any other task, and for an identifier that
    /// names none, nothing happens.
    pub open spec fn wake(self, id: usize) -> SchedView<F> {
        if !self.wakeable(id) {
            self
        } else if self.tasks[id as int].state == TaskState::Running {
            self.put(id as int, TaskState::Notified, None)
        } else {
            self.put(id as int, TaskState::Runnable, self.tasks[id as int].body).enqueue(
                self.tasks[id as int].home as int,
                id,
            )
        }
    }
}

/// Putting a task that is not runnable into another state that is not
/// runnable keeps the scheduler well formed, as long as the computation is
/// kept exactly when the task is parked.
pub proof fn lemma_put_wf<F>(s: SchedView<F>, id: int, state: TaskState, body: Option<F>)
    requires
        s.wf(),
        s.known(id),
        s.tasks[id].state != TaskState::Runnable,
        state != TaskState::Runnable,
        body is Some <==> state == TaskState::Parked,
    ensures
        s.put(id, state, body).wf(),
{
    let t = s.put(id, state, body);
    assert forall|q: int, i: int| 0 <= q < t.queues.len() && 0 <= i < t.queues[q].len() implies {
        &&& t.known(#[trigger] t.entry(q, i) as int)
        &&& t.tasks[t.entry(q, i) as int].state == TaskState::Runnable
        &&& t.tasks[t.entry(q, i) as int].home == q
    } by {
        assert(s.entry(q, i) == t.entry(q, i));
    }
    assert forall|q: int, i: int, j: int|
        0 <= q < t.queues.len() && 0 <= i < j < t.queues[q].len() implies #[trigger] t.entry(q, i)
        != #[trigger] t.entry(q, j) by {
        assert(s.entry(q, i) != s.entry(q, j));
    }
}

/// Appending a task to its home queue keeps the entries of the run queues
/// in order: the old ones stay where they were and the new one is last.
proof fn lemma_appended<F>(s: SchedView<F>, t: SchedView<F>, h: int, id: usize)
    requires
        0 <= h < s.queues.len(),
        t.queues == s.queues.update(h, s.queues[h].push(id)),
    ensures
        t.entry(h, s.queues[h].len() as int) == id,
        forall|q: int, i: int|
            0 <= q < s.queues.len() && 0 <= i < s.queues[q].len() ==> #[trigger] t.entry(q, i)
                == s.entry(q, i),
        forall|q: int|
            0 <= q < s.queues.len() ==> (#[trigger] t.queues[q]).len() == s.queues[q].len() + (if q
                == h {
                1int
            } else {
                0int
            }),
{
}

/// A scheduler in which a task that was not queued has become runnable,
/// with its computation in the scheduler's hands and its identifier at the
/// tail of its home queue, is well formed if it was before.
proof fn lemma_queued_wf<F>(s: SchedView<F>, t: SchedView<F>, h: int, id: usize)
    requires
        s.wf(),
        0 <= h < s.queues.len(),
        id <= s.tasks.len(),
        t.tasks.len() <= usize::MAX,
        s.known(id as int) ==> s.tasks[id as int].state != TaskState::Runnable && s.tasks[id as int].home
            == h,
        t.queues == s.queues.update(h, s.queues[h].push(id)),
        t.tasks.len() == (if s.known(id as int) {
            s.tasks.len()
        } else {
            s.tasks.len() + 1
        }),
        forall|x: int| s.known(x) && x != id ==> #[trigger] t.tasks[x] == s.tasks[x],
        t.tasks[id as int].state == TaskState::Runnable,
        t.tasks[id as int].home == h,
        t.tasks[id as int].body is Some,
    ensures
        t.wf(),
{
    lemma_appended(s, t, h, id);
    assert forall|q: int, i: int| 0 <= q < t.queues.len() && 0 <= i < t.queues[q].len() implies {
        &&& t.known(#[trigger] t.entry(q, i) as int)
        &&& t.tasks[t.entry(q, i) as int].state == TaskState::Runnable
        &&& t.tasks[t.entry(q, i) as int].home == q
    } by {
        if !(q == h && i == s.queues[h].len()) {
            assert(t.entry(q, i) == s.entry(q, i));
        }
    }
    assert forall|q: int, i: int, j: int|
        0 <= q < t.queues.len() && 0 <= i < j < t.queues[q].len() implies #[trigger] t.entry(q, i)
        != #[trigger] t.entry(q, j) by {
        assert(t.entry(q, i) == s.entry(q, i));
        if !(q == h && j == s.queues[h].len()) {
            assert(t.entry(q, j) == s.entry(q, j));
        }
    }
    assert forall|x: int|
        t.known(x) && (#[trigger] t.tasks[x]).state == TaskState::Runnable implies t.queues[t.tasks[x].home as int].contains(
    x as usize) by {
        let hx = t.tasks[x].home as int;
        if x == id {
            assert(t.queues[h][s.queues[h].len() as int] == id);
        } else {
            let i = s.queues[hx].index_of(x as usize);
            assert(t.entry(hx, i) == x as usize);
        }
    }
}

/// Making a task runnable that was not, with its computation back in the
/// scheduler's hands and its identifier at the tail of its home queue,
/// keeps the scheduler well formed.
pub proof fn lemma_requeue_wf<F>(s: SchedView<F>, id: usize, body: F)
    requires
        s.wf(),
        s.known(id as int),
        s.tasks[id as int].state != TaskState::Runnable,
    ensures
        s.put(id as int, TaskState::Runnable, Some(body)).enqueue(
            s.tasks[id as int].home as int,
            id,
        ).wf(),
{
    let h = s.tasks[id as int].home as int;
    lemma_queued_wf(s, s.put(id as int, TaskState::Runnable, Some(body)).enqueue(h, id), h, id);
}

/// Submitting a task keeps the scheduler well formed.
pub proof fn lemma_spawn_wf<F>(s: SchedView<F>, affinity: usize, body: F)
    requires
        s.wf(),
        s.tasks.len() < usize::MAX,
    ensures
        s.spawn(affinity, body).wf(),
{
    lemma_queued_wf(s, s.spawn(affinity, body), s.queue_of(affinity), s.tasks.len() as usize);
}

/// The queue that [`first_busy`] finds is not empty and those before it,
/// from `from` on, are; if it finds none, all from `from` on are empty.
pub proof fn lemma_first_busy(queues: Seq<Seq<usize>>, from: int)
    requires
        0 <= from,
    ensures
        match first_busy(queues, from) {
            Some(q) => from <= q < queues.len() && queues[q].len() > 0 && forall|k: int|
                from <= k < q ==> (#[trigger] queues[k]).len() == 0,
            None => forall|k: int| from <= k < queues.len() ==> (#[trigger] queues[k]).len() == 0,
        },
    decreases queues.len() - from,
{
    if from < queues.len() && queues[from].len() == 0 {
        lemma_first_busy(queues, from + 1);
    }
}

/// Handing a worker its next task keeps the scheduler well formed. The
/// task comes from a run queue that is not empty, and there is none only
/// if no task is runnable.
pub proof fn lemma_start_wf<F>(s: SchedView<F>, worker: usize)
    requires
        s.wf(),
    ensures
        s.start(worker).wf(),
        s.source(worker) matches Some(q) ==> 0 <= q < s.queues.len() && s.queues[q].len() > 0,
        s.source(worker) is None <==> s.drained(),
{
    lemma_first_busy(s.queues, 0);
    if let Some(q) = s.source(worker) {
        let id = s.queues[q][0];
        let t = s.start(worker);
        assert(s.entry(q, 0) == id);
        assert forall|p: int, i: int| 0 <= p < t.queues.len() && 0 <= i < t.queues[p].len() implies {
            &&& t.known(#[trigger] t.entry(p, i) as int)
            &&& t.tasks[t.entry(p, i) as int].state == TaskState::Runnable
            &&& t.tasks[t.entry(p, i) as int].home == p
        } by {
            if p == q {
                assert(t.entry(p, i) == s.entry(p, i + 1));
                assert(s.entry(q, 0) != s.entry(q, i + 1));
            } else {
                assert(t.entry(p, i) == s.entry(p, i));
            }
        }
        assert forall|p: int, i: int, j: int|
            0 <= p < t.queues.len() && 0 <= i < j < t.queues[p].len() implies #[trigger] t.entry(
            p,
            i,
        ) != #[trigger] t.entry(p, j) by {
            if p == q {
                assert(t.entry(p, i) == s.entry(p, i + 1));
                assert(t.entry(p, j) == s.entry(p, j + 1));
            } else {
                assert(t.entry(p, i) == s.entry(p, i));
                assert(t.entry(p, j) == s.entry(p, j));
            }
        }
        assert forall|x: int|
            t.known(x) && (#[trigger] t.tasks[x]).state == TaskState::Runnable implies t.queues[t.tasks[x].home as int].contains(
        x as usize) by {
            let hx = t.tasks[x].home as int;
            let i = s.queues[hx].index_of(x as usize);
            if hx == q {
                assert(s.entry(q, i) != s.entry(q, 0));
                assert(t.queues[hx][i - 1] == x as usize);
            } else {
                assert(t.queues[hx][i] == x as usize);
            }
        }
    }
}

/// The tasks and the run queues of one scheduler.
pub struct Scheduler<F> {
    tasks: Vec<Task<F>>,
    queues: Vec<VecDeque<usize>>,
}

impl<F> View for Scheduler<F> {
    type V = SchedView<F>;

    closed spec fn view(&self) -> SchedView<F> {
        SchedView {
            tasks: self.tasks@,
            queues: Seq::new(self.queues@.len(), |q: int| self.queues@[q]@),
        }
    }
}

impl<F> Scheduler<F> {
    /// What holds of every scheduler: see [`SchedView::wf`].
    pub open spec fn wf(&self) -> bool {
        self@.wf()
    }

    /// A scheduler without tasks for `workers` workers, with one run queue
    /// each; with one run queue if `workers` is zero.
    pub fn new(workers: usize) -> (sched: Scheduler<F>)
        ensures
            sched.wf(),
            sched@ == SchedView::<F>::idle(workers),
    {
        let n = if workers == 0 {
            1
        } else {
            workers
        };
        let mut queues: Vec<VecDeque<usize>> = Vec::new();
        while queues.len() < n
            invariant
                queues.len() <= n,
                forall|q: int| 0 <= q < queues.len() ==> (#[trigger] queues@[q])@.len() == 0,
            decreases n - queues.len(),
        {
            queues.push(VecDeque::new());
        }
        let sched = Scheduler { tasks: Vec::new(), queues };
        assert(sched@.queues =~~= SchedView::<F>::idle(workers).queues);
        sched
    }

    /// The number of run queues.
    pub fn workers(&self) -> (n: usize)
        ensures
            n == self@.queues.len(),
    {
        self.queues.len()
    }

    /// The number of tasks submitted so far, which is the identifier that
    /// the next task gets.
    pub fn len(&self) -> (n: usize)
        ensures
            n == self@.tasks.len(),
    {
        self.tasks.len()
    }

    /// Where the task `id` stands, if `id` names a task.
    pub fn state(&self, id: usize) -> (state: Option<TaskState>)
        ensures
            state == (if self@.known(id as int) {
                Some(self@.tasks[id as int].state)
            } else {
                None
            }),
    {
        if id < self.tasks.len() {
            Some(self.tasks[id].state)
        } else {
            None
        }
    }

    /// The run queue that `affinity` names.
    fn home_of(&self, affinity: usize) -> (home: usize)
        requires
            self.wf(),
        ensures
            home == self@.queue_of(affinity),
            home < self.queues.len(),
    {
        if affinity < self.queues.len() {
            affinity
        } else {
            0
        }
    }

    /// The run queue that `worker` takes its next task from.
    fn source(&self, worker: usize) -> (source: Option<usize>)
        requires
            self.wf(),
        ensures
            source matches Some(q) ==> self@.source(worker) == Some(q as int) && q
                < self.queues.len() && self.queues[q as int]@.len() > 0,
            source is None ==> self@.source(worker) is None,
    {
        let own = self.home_of(worker);
        if self.queues[own].len() > 0 {
            return Some(own);
        }
        let mut q: usize = 0;
        while q < self.queues.len()
            invariant
                q <= self.queues.len(),
                self.wf(),
                self@.queues[self@.queue_of(worker)].len() == 0,
                forall|k: int| 0 <= k < q ==> (#[trigger] self@.queues[k]).len() == 0,
            decreases self.queues.len() - q,
        {
            if self.queues[q].len() > 0 {
                proof {
                    assert(self@.queues[q as int].len() > 0);
                    lemma_first_busy(self@.queues, 0);
                }
                return Some(q);
            }
            q += 1;
        }
        proof {
            lemma_first_busy(self@.queues, 0);
        }
        None
    }

    /// Submits a task, with the allocator's answer given: if room was
    /// `granted` and an identifier is left, the task is runnable at the
    /// tail of the run queue that `affinity` names and its identifier is
    /// returned; else the submission fails and nothing has changed.
    pub fn spawn_granted(&mut self, affinity: usize, body: F, granted: bool) -> (res: Result<
        usize,
        AllocError,
    >)
        requires
            old(self).wf(),
        ensures
            final(self).wf(),
            granted && old(self)@.tasks.len() < usize::MAX ==> res == Ok::<usize, AllocError>(
                old(self)@.tasks.len() as usize,
            ) && final(self)@ == old(self)@.spawn(affinity, body),
            !(granted && old(self)@.tasks.len() < usize::MAX) ==> res == Err::<usize, AllocError>(
                AllocError,
            ) && final(self)@ == old(self)@,
    {
        if !granted || self.tasks.len() == usize::MAX {
            return Err(AllocError);
        }
        let home = self.home_of(affinity);
        let id = self.tasks.len();
        self.tasks.push(Task { state: TaskState::Runnable, home, body: Some(body) });
        self.queues[home].push_back(id);
        proof {
            lemma_spawn_wf(old(self)@, affinity, body);
            assert(self@.queues =~~= old(self)@.spawn(affinity, body).queues);
        }
        Ok(id)
    }

    /// Submits a task: allocates its record and room for it in the run
    /// queue that `affinity` names, where it waits to be run first. Fails
    /// with nothing changed if either cannot be had.
    ///
    /// Room in the run queue is taken here, for the task's whole life, so
    /// that waking the task never needs memory.
    pub fn spawn(&mut self, affinity: usize, body: F) -> (res: Result<usize, AllocError>)
        requires
            old(self).wf(),
        ensures
            final(self).wf(),
            res matches Ok(id) ==> id == old(self)@.tasks.len() && final(self)@ == old(
                self,
            )@.spawn(affinity, body),
            res is Err ==> final(self)@ == old(self)@,
    {
        let home = self.home_of(affinity);
        let record = match self.tasks.try_reserve(1) {
            Ok(_) => true,
            Err(_) => false,
        };
        let want = if self.tasks.len() < self.queues[home].len() {
            1
        } else {
            let spare = self.tasks.len() - self.queues[home].len();
            if spare < usize::MAX {
                spare + 1
            } else {
                spare
            }
        };
        let slot = match try_reserve(&mut self.queues[home], want) {
            Ok(_) => true,
            Err(_) => false,
        };
        assert(self@.queues =~~= old(self)@.queues);
        self.spawn_granted(affinity, body, record && slot)
    }

    /// Gives `worker` its next task: the head of its own run queue, or of
    /// the first run queue that has work if its own has none. The task is
    /// in flight from now on, and its computation is the caller's until
    /// [`park`](Scheduler::park) gives it back or
    /// [`finish`](Scheduler::finish) ends the task. Gives nothing, and
    /// changes nothing, if no task is runnable.
    pub fn start_next(&mut self, worker: usize) -> (res: Option<(usize, F)>)
        requires
            old(self).wf(),
        ensures
            final(self).wf(),
            final(self)@ == old(self)@.start(worker),
            match res {
                Some((id, body)) => old(self)@.next(worker) == Some(id) && old(self)@.known(
                    id as int,
                ) && old(self)@.tasks[id as int].body == Some(body),
                None => old(self)@.next(worker) is None,
            },
    {
        proof {
            lemma_start_wf(self@, worker);
        }
        match self.source(worker) {
            None => None,
            Some(q) => {
                let picked = self.queues[q].pop_front();
                let id = picked.unwrap();
                assert(id == old(self)@.entry(q as int, 0));
                let body = self.tasks[id].body.take();
                self.tasks[id].state = TaskState::Running;
                assert(self@.queues =~~= old(self)@.start(worker).queues);
                assert(self@.tasks =~= old(self)@.start(worker).tasks);
                Some((id, body.unwrap()))
            },
        }
    }

    /// Takes back the task `id` from the worker that drove it and found it
    /// not ready. The task is parked until a wake handle is invoked, or, if
    /// one was invoked while the task was in flight, runnable again at
    /// once. Says whether `id` was in flight; if it was not, nothing
    /// changes and `body` is dropped.
    pub fn park(&mut self, id: usize, body: F) -> (taken: bool)
        requires
            old(self).wf(),
        ensures
            final(self).wf(),
            taken == old(self)@.in_flight(id as int),
            final(self)@ == old(self)@.park(id, body),
    {
        if id >= self.tasks.len() {
            return false;
        }
        match self.tasks[id].state {
            TaskState::Running => {
                self.tasks[id].body = Some(body);
                self.tasks[id].state = TaskState::Parked;
                proof {
                    lemma_put_wf(old(self)@, id as int, TaskState::Parked, Some(body));
                    assert(self@.tasks =~= old(self)@.park(id, body).tasks);
                }
                true
            },
            TaskState::Notified => {
                let home = self.tasks[id].home;
                self.tasks[id].body = Some(body);
                self.tasks[id].state = TaskState::Runnable;
                self.queues[home].push_back(id);
                proof {
                    lemma_requeue_wf(old(self)@, id, body);
                    assert(self@.tasks =~= old(self)@.park(id, body).tasks);
                    assert(self@.queues =~~= old(self)@.park(id, body).queues);
                }
                true
            },
            _ => false,
        }
    }

    /// Ends the task `id`, whose step reported completion. Wake handles
    /// for it are stale from now on. Says whether `id` was in flight; if it
    /// was not, nothing changes.
    pub fn finish(&mut self, id: usize) -> (ended: bool)
        requires
            old(self).wf(),
        ensures
            final(self).wf(),
            ended == old(self)@.in_flight(id as int),
            final(self)@ == old(self)@.finish(id),
    {
        if id >= self.tasks.len() {
            return false;
        }
        match self.tasks[id].state {
            TaskState::Running | TaskState::Notified => {
                self.tasks[id].state = TaskState::Finished;
                proof {
                    lemma_put_wf(old(self)@, id as int, TaskState::Finished, None);
                }
                true
            },
            _ => false,
        }
    }

    /// What a wake handle for the task `id` does when it is invoked, from
    /// any worker. A parked task becomes runnable at the tail of its home
    /// queue. A task in flight is marked, so that it becomes runnable when
    /// its worker puts it down. Otherwise nothing happens: the task is
    /// runnable or marked already, or the handle is stale because the task
    /// has completed or never was. Says whether anything was done.
    pub fn wake(&mut self, id: usize) -> (woke: bool)
        requires
            old(self).wf(),
        ensures
            final(self).wf(),
            woke == old(self)@.wakeable(id),
            final(self)@ == old(self)@.wake(id),
    {
        if id >= self.tasks.len() {
            return false;
        }
        match self.tasks[id].state {
            TaskState::Running => {
                self.tasks[id].state = TaskState::Notified;
                proof {
                    lemma_put_wf(old(self)@, id as int, TaskState::Notified, None);
                }
                true
            },
            TaskState::Parked => {
                let home = self.tasks[id].home;
                self.tasks[id].state = TaskState::Runnable;
                self.queues[home].push_back(id);
                proof {
                    lemma_requeue_wf(old(self)@, id, old(self)@.tasks[id as int].body->Some_0);
                    assert(self@.queues =~~= old(self)@.wake(id).queues);
                }
                true
            },
            _ => false,
        }
    }

    /// Whether no task is runnable: a worker that finds this has drained
    /// its work and returns.
    pub fn is_idle(&self) -> (idle: bool)
        ensures
            idle == self@.drained(),
    {
        let mut q: usize = 0;
        while q < self.queues.len()
            invariant
                q <= self.queues.len(),
                forall|k: int| 0 <= k < q ==> (#[trigger] self@.queues[k]).len() == 0,
            decreases self.queues.len() - q,
        {
            if self.queues[q].len() > 0 {
                assert(self@.queues[q as int].len() > 0);
                return false;
            }
            q += 1;
        }
        true
    }
}

} // verus!
