//! Histories of one scheduler, and what holds of all of them.
//!
//! The workers and the wake handles reach the scheduler one at a time, so
//! whatever they do, the scheduler goes through a sequence of steps of
//! [`SchedView`]. The theorems below are about every such sequence.

use vstd::prelude::*;

use crate::sched::{
    lemma_put_wf, lemma_requeue_wf, lemma_spawn_wf, lemma_start_wf, SchedView, TaskState,
};

verus! {

/// One step of a scheduler.
pub enum SchedOp<F> {
    /// A task is submitted.
    Spawn { affinity: usize, body: F },
    /// A worker asks for its next task.
    Start { worker: usize },
    /// A worker gives back a task that was not ready.
    Park { id: usize, body: F },
    /// A worker reports that a task has completed.
    Finish { id: usize },
    /// A wake handle is invoked.
    Wake { id: usize },
}

impl<F> SchedOp<F> {
    /// The scheduler after this step is taken in `s`.
    pub open spec fn apply(self, s: SchedView<F>) -> SchedView<F> {
        match self {
            SchedOp::Spawn { affinity, body } => if s.tasks.len() < usize::MAX {
                s.spawn(affinity, body)
            } else {
                s
            },
            SchedOp::Start { worker } => s.start(worker),
            SchedOp::Park { id, body } => s.park(id, body),
            SchedOp::Finish { id } => s.finish(id),
            SchedOp::Wake { id } => s.wake(id),
        }
    }

    /// The task that this step, taken in `s`, hands to a worker.
    pub open spec fn starts(self, s: SchedView<F>) -> Option<usize> {
        match self {
            SchedOp::Start { worker } => s.next(worker),
            _ => None,
        }
    }

    /// The run queue that this step, taken in `s`, takes a task from.
    pub open spec fn draws(self, s: SchedView<F>) -> Option<int> {
        match self {
            SchedOp::Start { worker } => s.source(worker),
            _ => None,
        }
    }

    /// Whether this step is the worker of task `id` putting the task down.
    pub open spec fn settles(self, id: usize) -> bool {
        match self {
            SchedOp::Park { id: put, .. } => put == id,
            SchedOp::Finish { id: put } => put == id,
            _ => false,
        }
    }

    /// The task that this step, taken in `s`, appends to run queue `q`.
    pub open spec fn appends(self, s: SchedView<F>, q: int) -> Option<usize> {
        match self {
            SchedOp::Spawn { affinity, .. } => if s.tasks.len() < usize::MAX && s.queue_of(affinity)
                == q {
                Some(s.tasks.len() as usize)
            } else {
                None
            },
            SchedOp::Park { id, .. } => if s.in_flight(id as int) && s.tasks[id as int].state
                == TaskState::Notified && s.tasks[id as int].home == q {
                Some(id)
            } else {
                None
            },
            SchedOp::Wake { id } => if s.wakeable(id) && s.tasks[id as int].state
                == TaskState::Parked && s.tasks[id as int].home == q {
                Some(id)
            } else {
                None
            },
            _ => None,
        }
    }
}

/// The scheduler that the history `ops` leads to from `s`.
pub open spec fn run<F>(s: SchedView<F>, ops: Seq<SchedOp<F>>) -> SchedView<F>
    decreases ops.len(),
{
    if ops.len() == 0 {
        s
    } else {
        ops.last().apply(run(s, ops.drop_last()))
    }
}

/// The tasks that `ops` takes from run queue `q`, starting from `s`, in the
/// order in which they are handed to workers.
pub open spec fn taken<F>(s: SchedView<F>, ops: Seq<SchedOp<F>>, q: int) -> Seq<usize>
    decreases ops.len(),
{
    if ops.len() == 0 {
        Seq::empty()
    } else {
        let before = run(s, ops.drop_last());
        if ops.last().draws(before) == Some(q) {
            taken(s, ops.drop_last(), q).push(before.queues[q][0])
        } else {
            taken(s, ops.drop_last(), q)
        }
    }
}

/// The tasks that `ops` appends to run queue `q`, starting from `s`, in the
/// order in which they become runnable.
pub open spec fn appended<F>(s: SchedView<F>, ops: Seq<SchedOp<F>>, q: int) -> Seq<usize>
    decreases ops.len(),
{
    if ops.len() == 0 {
        Seq::empty()
    } else {
        match ops.last().appends(run(s, ops.drop_last()), q) {
            Some(id) => appended(s, ops.drop_last(), q).push(id),
            None => appended(s, ops.drop_last(), q),
        }
    }
}

/// Every step keeps a scheduler well formed.
pub proof fn lemma_step_wf<F>(s: SchedView<F>, op: SchedOp<F>)
    requires
        s.wf(),
    ensures
        op.apply(s).wf(),
{
    match op {
        SchedOp::Spawn { affinity, body } => {
            if s.tasks.len() < usize::MAX {
                lemma_spawn_wf(s, affinity, body);
            }
        },
        SchedOp::Start { worker } => {
            lemma_start_wf(s, worker);
        },
        SchedOp::Park { id, body } => {
            if s.in_flight(id as int) {
                if s.tasks[id as int].state == TaskState::Running {
                    lemma_put_wf(s, id as int, TaskState::Parked, Some(body));
                } else {
                    lemma_requeue_wf(s, id, body);
                }
            }
        },
        SchedOp::Finish { id } => {
            if s.in_flight(id as int) {
                lemma_put_wf(s, id as int, TaskState::Finished, None);
            }
        },
        SchedOp::Wake { id } => {
            if s.wakeable(id) {
                if s.tasks[id as int].state == TaskState::Running {
                    lemma_put_wf(s, id as int, TaskState::Notified, None);
                } else {
                    lemma_requeue_wf(s, id, s.tasks[id as int].body->Some_0);
                }
            }
        },
    }
}

/// Every history keeps a scheduler well formed.
pub proof fn lemma_run_wf<F>(s: SchedView<F>, ops: Seq<SchedOp<F>>)
    requires
        s.wf(),
    ensures
        run(s, ops).wf(),
    decreases ops.len(),
{
    if ops.len() > 0 {
        lemma_run_wf(s, ops.drop_last());
        lemma_step_wf(run(s, ops.drop_last()), ops.last());
    }
}

/// A task has one owner while it runs: from the moment a worker is given a
/// task until that worker puts it down, the task stays in flight and no
/// worker is given it, whatever else happens to the scheduler.
pub proof fn lemma_single_owner<F>(s: SchedView<F>, ops: Seq<SchedOp<F>>, id: usize)
    requires
        s.wf(),
        s.in_flight(id as int),
        forall|k: int| 0 <= k < ops.len() ==> !(#[trigger] ops[k]).settles(id),
    ensures
        run(s, ops).in_flight(id as int),
        forall|k: int|
            0 <= k < ops.len() ==> (#[trigger] ops[k]).starts(run(s, ops.take(k))) != Some(id),
    decreases ops.len(),
{
    if ops.len() > 0 {
        let before = ops.drop_last();
        let last = ops.last();
        assert(forall|k: int| 0 <= k < before.len() ==> (#[trigger] before[k]) == ops[k]);
        lemma_single_owner(s, before, id);
        lemma_run_wf(s, before);
        let t = run(s, before);
        if let SchedOp::Start { worker } = last {
            lemma_start_wf(t, worker);
            if let Some(q) = t.source(worker) {
                assert(t.tasks[t.entry(q, 0) as int].state == TaskState::Runnable);
            }
        }
        assert forall|k: int| 0 <= k < ops.len() implies (#[trigger] ops[k]).starts(
            run(s, ops.take(k)),
        ) != Some(id) by {
            if k < before.len() {
                assert(before[k] == ops[k]);
                assert(before.take(k) =~= ops.take(k));
            }
        }
    }
}

/// A wake is never lost: a task that is woken while a worker drives it is
/// runnable again, at the tail of its home queue, as soon as the worker
/// puts it down as not ready.
pub proof fn lemma_wake_in_flight<F>(s: SchedView<F>, id: usize, body: F)
    requires
        s.wf(),
        s.in_flight(id as int),
    ensures
        s.wake(id).park(id, body).tasks[id as int].state == TaskState::Runnable,
        s.wake(id).park(id, body).queues[s.tasks[id as int].home as int].last() == id,
{
}

/// A wake handle that outlives its task does nothing.
pub proof fn lemma_stale_wake<F>(s: SchedView<F>, id: usize)
    requires
        !s.known(id as int) || s.tasks[id as int].state == TaskState::Finished,
    ensures
        s.wake(id) == s,
{
}

/// Run queues are served in order: the tasks taken from a run queue so far,
/// followed by those that wait in it, are exactly those that waited in it at
/// the start followed by those that were appended, in that order.
pub proof fn lemma_run_queue_fifo<F>(s: SchedView<F>, ops: Seq<SchedOp<F>>, q: int)
    requires
        s.wf(),
        0 <= q < s.queues.len(),
    ensures
        run(s, ops).queues.len() == s.queues.len(),
        taken(s, ops, q) + run(s, ops).queues[q] == s.queues[q] + appended(s, ops, q),
    decreases ops.len(),
{
    if ops.len() > 0 {
        let before = ops.drop_last();
        let last = ops.last();
        lemma_run_queue_fifo(s, before, q);
        lemma_run_wf(s, before);
        let t = run(s, before);
        if let SchedOp::Start { worker } = last {
            lemma_start_wf(t, worker);
        }
        match last.appends(t, q) {
            Some(id) => {
                let earlier = appended(s, before, q);
                assert(s.queues[q] + earlier.push(id) =~= (s.queues[q] + earlier).push(id));
            },
            None => {
                if last.draws(t) != Some(q) {
                    assert(forall|id: int| t.known(id) ==> (#[trigger] t.tasks[id]).home
                        < t.queues.len());
                }
            },
        }
    }
}

/// The number of steps of `ops` that take a task from run queue `q`.
pub open spec fn draws<F>(s: SchedView<F>, ops: Seq<SchedOp<F>>, q: int) -> nat {
    taken(s, ops, q).len()
}

/// A runnable task is not passed over: the task at position `i` of a run
/// queue is the one that draw number `i + 1` from that queue hands to a
/// worker.
pub proof fn lemma_served_in_turn<F>(s: SchedView<F>, ops: Seq<SchedOp<F>>, q: int, i: int)
    requires
        s.wf(),
        0 <= q < s.queues.len(),
        0 <= i < s.queues[q].len(),
        draws(s, ops, q) > i,
    ensures
        taken(s, ops, q)[i] == s.queues[q][i],
{
    lemma_run_queue_fifo(s, ops, q);
    assert((s.queues[q] + appended(s, ops, q))[i] == s.queues[q][i]);
}

} // verus!
