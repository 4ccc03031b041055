//! The scheduler core: tasks, wake handles, the bounded ready queue and the
//! run loop.
//!
//! A spawner wraps a suspendable computation in a task and enqueues it. The
//! executor is the single consumer of the ready queue: it dequeues one task
//! at a time, takes the computation out of the task's slot, advances it with
//! a wake handle naming that task, and puts the computation back if it is
//! still pending. A computation that returns `Pending` must leave its wake
//! handle somewhere an external event will find it (a timer record); the
//! event later re-enqueues the task through the handle. A task whose slot is
//! empty has completed: polling it again is a harmless no-op.
//!
//! This model is single-threaded: the embedding delivers external events
//! (timer completions, extra wakes, new spawns) between calls of `run`, which
//! drains the queue and reports whether any producer could still enqueue
//! work.

use vstd::prelude::*;

use crate::simple_future::Poll;
use crate::timer_future::TimerCell;
use crate::timer_future::TimerTable;

verus! {

/// A capability, bound to one task, to re-enqueue that task for another
/// poll. Invoking it more than once per pending state is allowed and merely
/// causes extra harmless polls.
#[derive(Clone, Copy, Debug, PartialEq, Eq, Structural)]
pub struct WakeHandle {
    pub task_id: usize,
}

/// Raised when a producer cannot enqueue because the ready queue is at
/// capacity. This design treats overflow as fatal: the embedding aborts
/// rather than retries.
#[derive(Debug, PartialEq, Eq)]
pub struct QueueOverflow;

/// What `run` reports once the ready queue is drained.
#[derive(Clone, Copy, Debug, PartialEq, Eq, Structural)]
pub enum ExecStatus {
    /// No producer remains: every spawner handle was dropped and no wake
    /// handle is stored anywhere, so nothing can enqueue work again.
    Stopped,
    /// A spawner or a stored wake handle is still live: a later event can
    /// enqueue more work, and the embedding should call `run` again after
    /// delivering it.
    Idle,
}

/// How a poll may change the timer table: records can be appended and wake
/// handles stored or surrendered, but completion flags and deadlines of
/// existing records are untouched (completion arrives only from the
/// embedding's fire events) and appended records start uncompleted.
pub open spec fn table_evolves(pre: TimerTable, post: TimerTable) -> bool {
    &&& post.cells@.len() >= pre.cells@.len()
    &&& forall|i: int|
        0 <= i < pre.cells@.len() ==> (#[trigger] post.cells@[i]).completed == pre.cells@[i].completed
            && post.cells@[i].deadline == pre.cells@[i].deadline
    &&& forall|i: int|
        pre.cells@.len() <= i < post.cells@.len() ==> !(#[trigger] post.cells@[i]).completed
}

pub proof fn lemma_table_evolves_trans(a: TimerTable, b: TimerTable, c: TimerTable)
    requires
        table_evolves(a, b),
        table_evolves(b, c),
    ensures
        table_evolves(a, c),
{
}

/// Every wake handle stored by one poll is accounted for: it was already in
/// the table at the same record before the poll, or it is the handle `w`
/// that the poll was given.
pub open spec fn waker_provenance(pre: TimerTable, post: TimerTable, w: WakeHandle) -> bool {
    forall|i: int|
        0 <= i < post.cells@.len() ==> (match (#[trigger] post.cells@[i]).waker {
            Some(stored) => (i < pre.cells@.len() && pre.cells@[i].waker == Some(stored)) || stored
                == w,
            None => true,
        })
}

/// A suspendable computation with a single operation: advance it one step.
/// Given the current wake handle, it either finishes or arranges to be woken
/// by leaving that handle in a timer record, and reports `Pending`.
///
/// `ready_now` is the computation's own completion criterion: whether one
/// poll in the given timer state finishes it. It must be insensitive to the
/// table changes another poll can make (`table_evolves`), so that the
/// scheduler's contracts can speak about poll outcomes across a whole run.
/// A poll may register new timer records, but the only new wake handle it
/// may store is the one it was given, and a poll that completes leaves the
/// table exactly as it found it.
pub trait Computation {
    /// Whether one poll finishes this computation, given the timer records.
    spec fn ready_now(&self, timers: TimerTable) -> bool;

    /// The completion criterion reads only what polls leave untouched, so
    /// it is stable while other tasks are polled.
    proof fn ready_now_stable(&self, pre: TimerTable, post: TimerTable)
        requires
            table_evolves(pre, post),
        ensures
            self.ready_now(pre) == self.ready_now(post),
    ;

    fn advance(&mut self, timers: &mut TimerTable, waker: WakeHandle) -> (p: Poll<()>)
        requires
            old(timers).wf(),
        ensures
            final(timers).wf(),
            table_evolves(*old(timers), *final(timers)),
            (p is Ready) == old(self).ready_now(*old(timers)),
            p is Ready ==> *final(timers) == *old(timers),
            waker_provenance(*old(timers), *final(timers), waker),
            forall|n: int|
                old(timers).wakers_bounded(n) && waker.task_id < n
                    ==> final(timers).wakers_bounded(n),
    ;
}

/// One scheduler entry: the computation slot is full while the task still
/// has work left and empty once it has completed. The ghost `polls` field
/// counts how often the computation has been advanced.
pub struct Task<C> {
    pub slot: Option<C>,
    pub polls: Ghost<nat>,
}

/// A producer capability: holding one entitles its owner to spawn tasks. The
/// executor counts the live handles so that it can tell when no producer
/// remains; cloning and dropping therefore go through the executor.
pub struct Spawner;

/// The scheduler: all tasks ever spawned, the bounded FIFO ready queue of
/// task indices, the count of live spawner handles, and the timer records
/// that parked computations store their wake handles in. The ghost
/// `dequeued` field is the trace of task indices taken off the queue, in
/// order: it is what makes the FIFO processing order contract-visible.
pub struct Executor<C> {
    pub tasks: Vec<Task<C>>,
    pub ready: Vec<usize>,
    pub capacity: usize,
    pub spawners: usize,
    pub timers: TimerTable,
    pub dequeued: Ghost<Seq<usize>>,
}

/// How often task index `t` occurs in the ready queue `s`.
pub open spec fn count_of(s: Seq<usize>, t: int) -> nat
    decreases s.len(),
{
    if s.len() == 0 {
        0
    } else {
        (if s[0] as int == t {
            1nat
        } else {
            0nat
        }) + count_of(s.drop_first(), t)
    }
}

/// Every wake handle stored in the table after a whole run is accounted
/// for: it was already stored at the same record before the run, or it
/// names a task that was dequeued from the ready queue during the run.
pub open spec fn run_waker_provenance(
    pre: TimerTable,
    post: TimerTable,
    queued: Seq<usize>,
) -> bool {
    forall|i: int|
        0 <= i < post.cells@.len() ==> (match (#[trigger] post.cells@[i]).waker {
            Some(stored) => (i < pre.cells@.len() && pre.cells@[i].waker == Some(stored))
                || count_of(queued, stored.task_id as int) > 0,
            None => true,
        })
}

/// Invoking a wake handle pushes exactly one entry for its task onto the
/// ready queue and touches no other entry; together with `run`'s guarantee
/// that each task is polled at most once per queue entry, each extra wake
/// causes at most one extra (harmless) poll.
pub proof fn lemma_wake_adds_one_entry(s: Seq<usize>, x: usize, t: int)
    ensures
        count_of(s.push(x), t) == count_of(s, t) + (if x as int == t {
            1nat
        } else {
            0nat
        }),
    decreases s.len(),
{
    if s.len() == 0 {
        assert(s.push(x)[0] == x);
        assert(s.push(x).drop_first() =~= Seq::<usize>::empty());
        assert(count_of(Seq::<usize>::empty(), t) == 0);
    } else {
        assert(s.push(x)[0] == s[0]);
        assert(s.push(x).drop_first() =~= s.drop_first().push(x));
        lemma_wake_adds_one_entry(s.drop_first(), x, t);
    }
}

impl<C> Executor<C> {
    /// Every queued index names a task, every stored wake handle names a
    /// task, the queue respects its capacity, and the timer records are well
    /// formed.
    pub open spec fn wf(&self) -> bool {
        &&& self.ready@.len() <= self.capacity
        &&& forall|i: int|
            0 <= i < self.ready@.len() ==> (#[trigger] self.ready@[i]) < self.tasks@.len()
        &&& self.timers.wf()
        &&& self.timers.wakers_bounded(self.tasks@.len() as int)
    }

    /// No producer remains: every spawner handle was dropped and no timer
    /// record still stores a wake handle. Once the ready queue is also
    /// empty, nothing can ever enqueue work again.
    pub open spec fn closed(&self) -> bool {
        self.spawners == 0 && !self.timers.holds_waker()
    }
}

/// Constructs a scheduler whose ready queue is bounded by `capacity`,
/// together with the first spawner handle.
pub fn new_executor_and_spawner<C>(capacity: usize) -> (r: (Executor<C>, Spawner))
    ensures
        r.0.wf(),
        r.0.tasks@.len() == 0,
        r.0.ready@.len() == 0,
        r.0.capacity == capacity,
        r.0.spawners == 1,
        r.0.timers.cells@.len() == 0,
        r.0.dequeued@ == Seq::<usize>::empty(),
{
    let executor = Executor {
        tasks: Vec::new(),
        ready: Vec::new(),
        capacity,
        spawners: 1,
        timers: TimerTable::new(),
        dequeued: Ghost(Seq::empty()),
    };
    (executor, Spawner)
}

impl<C: Computation> Executor<C> {
    /// Every task with an entry in the ready queue has either completed
    /// already or completes on its next poll in the current timer state.
    /// A run that starts like this delivers no suspension and leaves the
    /// timer records untouched.
    pub open spec fn queued_all_ready(&self) -> bool {
        forall|t: int|
            0 <= t < self.tasks@.len() && count_of(self.ready@, t) > 0 ==> (match self.tasks@[t].slot {
                Some(c) => c.ready_now(self.timers),
                None => true,
            })
    }

    /// Wraps the computation in a fresh task whose slot is full and enqueues
    /// it. Fails exactly when the ready queue is already at capacity; the
    /// computation is then discarded, as this design treats overflow as
    /// fatal.
    pub fn spawn(&mut self, _spawner: &Spawner, computation: C) -> (r: Result<(), QueueOverflow>)
        requires
            old(self).wf(),
            old(self).spawners >= 1,
        ensures
            final(self).wf(),
            final(self).capacity == old(self).capacity,
            final(self).spawners == old(self).spawners,
            final(self).timers == old(self).timers,
            final(self).dequeued@ == old(self).dequeued@,
            (r is Ok) == (old(self).ready@.len() < old(self).capacity),
            r is Ok ==> {
                &&& final(self).tasks@.len() == old(self).tasks@.len() + 1
                &&& final(self).tasks@[old(self).tasks@.len() as int].slot == Some(computation)
                &&& final(self).tasks@[old(self).tasks@.len() as int].polls@ == 0
                &&& forall|t: int|
                    0 <= t < old(self).tasks@.len() ==> final(self).tasks@[t] == old(self).tasks@[t]
                &&& final(self).ready@ == old(self).ready@.push(old(self).tasks@.len() as usize)
            },
            r is Err ==> final(self).tasks@ == old(self).tasks@ && final(self).ready@ == old(self).ready@,
    {
        if self.ready.len() < self.capacity {
            let id = self.tasks.len();
            self.tasks.push(Task { slot: Some(computation), polls: Ghost(0nat) });
            self.ready.push(id);
            Ok(())
        } else {
            Err(QueueOverflow)
        }
    }

    /// Invokes a wake handle: re-enqueues its task so that the executor
    /// polls it again. Fails exactly when the ready queue is at capacity.
    /// Waking a task that has already completed is allowed; the later poll
    /// finds its slot empty and does nothing.
    pub fn wake(&mut self, w: WakeHandle) -> (r: Result<(), QueueOverflow>)
        requires
            old(self).wf(),
            w.task_id < old(self).tasks@.len(),
        ensures
            final(self).wf(),
            final(self).tasks@ == old(self).tasks@,
            final(self).capacity == old(self).capacity,
            final(self).spawners == old(self).spawners,
            final(self).timers == old(self).timers,
            final(self).dequeued@ == old(self).dequeued@,
            (r is Ok) == (old(self).ready@.len() < old(self).capacity),
            r is Ok ==> final(self).ready@ == old(self).ready@.push(w.task_id),
            r is Err ==> final(self).ready@ == old(self).ready@,
    {
        if self.ready.len() < self.capacity {
            self.ready.push(w.task_id);
            Ok(())
        } else {
            Err(QueueOverflow)
        }
    }

    /// One iteration of the run loop: dequeues the front task and performs
    /// the take-and-poll protocol. Returns `None` if the task's slot was
    /// empty (it had already completed; the poll is skipped), otherwise the
    /// outcome of advancing the computation. A computation that reports
    /// `Ready` is dropped and its slot stays empty forever; one that reports
    /// `Pending` is put back for a future wake to find.
    pub fn step(&mut self) -> (p: Option<Poll<()>>)
        requires
            old(self).wf(),
            old(self).ready@.len() > 0,
        ensures
            final(self).wf(),
            final(self).ready@ == old(self).ready@.drop_first(),
            final(self).tasks@.len() == old(self).tasks@.len(),
            final(self).capacity == old(self).capacity,
            final(self).spawners == old(self).spawners,
            final(self).dequeued@ == old(self).dequeued@.push(old(self).ready@[0]),
            table_evolves(old(self).timers, final(self).timers),
            waker_provenance(
                old(self).timers,
                final(self).timers,
                (WakeHandle { task_id: old(self).ready@[0] }),
            ),
            ({
                let t = old(self).ready@[0] as int;
                &&& forall|u: int|
                    0 <= u < old(self).tasks@.len() && u != t ==> final(self).tasks@[u] == old(self).tasks@[u]
                &&& ((p is None) <==> (old(self).tasks@[t].slot is None))
                &&& (old(self).tasks@[t].slot is None ==> final(self).tasks@[t] == old(self).tasks@[t] && final(self).timers == old(self).timers)
                &&& (p is Some ==> final(self).tasks@[t].polls@ == old(self).tasks@[t].polls@
                    + 1)
                &&& ((p == Some(Poll::<()>::Ready(()))) <==> (old(self).tasks@[t].slot matches Some(c)
                    && c.ready_now(old(self).timers)))
                &&& (p == Some(Poll::<()>::Ready(())) ==> final(self).tasks@[t].slot is None
                    && final(self).timers == old(self).timers)
                &&& (p == Some(Poll::<()>::Pending) ==> final(self).tasks@[t].slot is Some)
                &&& final(self).tasks@[t].polls@ <= old(self).tasks@[t].polls@ + 1
            }),
    {
        let id = self.ready.remove(0);
        self.dequeued = Ghost(self.dequeued@.push(id));
        proof {
            assert(old(self).ready@.remove(0) =~= old(self).ready@.drop_first());
        }
        let taken = self.tasks[id].slot.take();
        match taken {
            None => None,
            Some(mut c) => {
                let polls = self.tasks[id].polls;
                let res = c.advance(&mut self.timers, WakeHandle { task_id: id });
                match res {
                    Poll::Pending => {
                        self.tasks[id] = Task { slot: Some(c), polls: Ghost(polls@ + 1) };
                        Some(Poll::Pending)
                    },
                    Poll::Ready(()) => {
                        self.tasks[id] = Task { slot: None, polls: Ghost(polls@ + 1) };
                        Some(Poll::Ready(()))
                    },
                }
            },
        }
    }

    /// The run loop: polls queued tasks in FIFO order until the ready queue
    /// is empty, then reports whether the scheduler is closed. Nothing can
    /// enqueue during the loop, so it drains; the dequeue trace grows by
    /// exactly the entry queue, in order; every task that had already
    /// completed is left untouched and is never polled again; each task is
    /// polled at most once per entry it had in the queue; a queued task
    /// whose computation was ready completes on its single poll of it, and
    /// one that was not ready stays resident; and every wake handle left in
    /// the timer records either predates the run or was handed out to a
    /// dequeued task.
    pub fn run(&mut self) -> (st: ExecStatus)
        requires
            old(self).wf(),
        ensures
            final(self).wf(),
            final(self).ready@.len() == 0,
            final(self).tasks@.len() == old(self).tasks@.len(),
            final(self).capacity == old(self).capacity,
            final(self).spawners == old(self).spawners,
            old(self).ready@.len() == 0 ==> *final(self) == *old(self),
            final(self).dequeued@ == old(self).dequeued@ + old(self).ready@,
            table_evolves(old(self).timers, final(self).timers),
            run_waker_provenance(old(self).timers, final(self).timers, old(self).ready@),
            forall|t: int|
                0 <= t < old(self).tasks@.len() && old(self).tasks@[t].slot is None ==> final(self).tasks@[t] == old(self).tasks@[t],
            forall|t: int|
                0 <= t < old(self).tasks@.len() ==> final(self).tasks@[t].polls@ <= old(self).tasks@[t].polls@ + count_of(old(self).ready@, t),
            forall|t: int|
                0 <= t < old(self).tasks@.len() && count_of(old(self).ready@, t) == 0 ==> final(self).tasks@[t] == old(self).tasks@[t],
            forall|t: int|
                0 <= t < old(self).tasks@.len() ==> final(self).tasks@[t].polls@ >= old(self).tasks@[t].polls@,
            forall|t: int|
                0 <= t < old(self).tasks@.len() && old(self).tasks@[t].slot is Some && final(self).tasks@[t].slot is None
                    ==> final(self).tasks@[t].polls@ >= old(self).tasks@[t].polls@ + 1,
            forall|t: int|
                0 <= t < old(self).tasks@.len() && count_of(old(self).ready@, t) >= 1
                    && (old(self).tasks@[t].slot matches Some(c) && c.ready_now(old(self).timers))
                    ==> final(self).tasks@[t].slot is None && final(self).tasks@[t].polls@ == old(self).tasks@[t].polls@ + 1,
            forall|t: int|
                0 <= t < old(self).tasks@.len() && count_of(old(self).ready@, t) <= 1
                    && (old(self).tasks@[t].slot matches Some(c) && !c.ready_now(old(self).timers))
                    ==> final(self).tasks@[t].slot is Some,
            old(self).queued_all_ready() ==> final(self).timers == old(self).timers,
            (st == ExecStatus::Stopped) <==> final(self).closed(),
    {
        while self.ready.len() > 0
            invariant
                self.wf(),
                self.tasks@.len() == old(self).tasks@.len(),
                self.capacity == old(self).capacity,
                self.spawners == old(self).spawners,
                old(self).ready@.len() == 0 ==> *self == *old(self),
                self.dequeued@ + self.ready@ == old(self).dequeued@ + old(self).ready@,
                table_evolves(old(self).timers, self.timers),
                run_waker_provenance(old(self).timers, self.timers, old(self).ready@),
                forall|t: int|
                    0 <= t < old(self).tasks@.len() && old(self).tasks@[t].slot is None ==> self.tasks@[t]
                        == old(self).tasks@[t],
                forall|t: int|
                    0 <= t < old(self).tasks@.len() ==> self.tasks@[t].polls@ + count_of(
                        self.ready@,
                        t,
                    ) <= old(self).tasks@[t].polls@ + count_of(old(self).ready@, t),
                forall|t: int|
                    0 <= t < old(self).tasks@.len() && count_of(old(self).ready@, t) == 0
                        ==> count_of(self.ready@, t) == 0 && self.tasks@[t] == old(self).tasks@[t],
                forall|t: int|
                    0 <= t < old(self).tasks@.len() ==> self.tasks@[t].polls@ >= old(self).tasks@[t].polls@,
                forall|t: int|
                    0 <= t < old(self).tasks@.len() && old(self).tasks@[t].slot is Some && self.tasks@[t].slot is None
                        ==> self.tasks@[t].polls@ >= old(self).tasks@[t].polls@ + 1,
                forall|t: int|
                    0 <= t < old(self).tasks@.len() && count_of(old(self).ready@, t) >= 1
                        && (old(self).tasks@[t].slot matches Some(c) && c.ready_now(old(self).timers))
                        ==> (self.tasks@[t] == old(self).tasks@[t] && count_of(self.ready@, t)
                        == count_of(old(self).ready@, t)) || (self.tasks@[t].slot is None
                        && self.tasks@[t].polls@ == old(self).tasks@[t].polls@ + 1),
                forall|t: int|
                    0 <= t < old(self).tasks@.len() && count_of(old(self).ready@, t) <= 1
                        && (old(self).tasks@[t].slot matches Some(c) && !c.ready_now(old(self).timers))
                        ==> (self.tasks@[t] == old(self).tasks@[t] && count_of(self.ready@, t)
                        == count_of(old(self).ready@, t)) || (count_of(self.ready@, t) == 0
                        && self.tasks@[t].slot is Some),
                old(self).queued_all_ready() ==> self.timers == old(self).timers && (forall|t: int|
                    0 <= t < old(self).tasks@.len() ==> self.tasks@[t].slot is None
                        || self.tasks@[t] == old(self).tasks@[t]),
            decreases self.ready@.len(),
        {
            let ghost prev = *self;
            let _p = self.step();
            proof {
                let pr = prev.ready@;
                let front = pr[0] as int;
                assert(count_of(pr, front) == 1 + count_of(pr.drop_first(), front));
                assert(forall|t: int|
                    t != front ==> count_of(pr, t) == count_of(pr.drop_first(), t));
                assert(count_of(old(self).ready@, front) > 0);
                lemma_table_evolves_trans(old(self).timers, prev.timers, self.timers);
                assert(self.dequeued@ + self.ready@ =~= prev.dequeued@ + pr);
                assert(run_waker_provenance(old(self).timers, self.timers, old(self).ready@)) by {
                    assert forall|i: int|
                        0 <= i < self.timers.cells@.len() implies (match (#[trigger] self.timers.cells@[i]).waker {
                        Some(stored) => (i < old(self).timers.cells@.len()
                            && old(self).timers.cells@[i].waker == Some(stored)) || count_of(
                            old(self).ready@,
                            stored.task_id as int,
                        ) > 0,
                        None => true,
                    }) by {
                        match self.timers.cells@[i].waker {
                            Option::Some(stored) => {
                                if !(i < prev.timers.cells@.len() && prev.timers.cells@[i].waker
                                    == Some(stored)) {
                                    assert(stored == (WakeHandle { task_id: pr[0] }));
                                }
                            },
                            Option::None => {},
                        }
                    }
                }
                assert forall|t: int|
                    0 <= t < old(self).tasks@.len() && count_of(old(self).ready@, t) >= 1
                        && (old(self).tasks@[t].slot matches Some(c) && c.ready_now(
                        old(self).timers,
                    )) implies (self.tasks@[t] == old(self).tasks@[t] && count_of(self.ready@, t)
                    == count_of(old(self).ready@, t)) || (self.tasks@[t].slot is None
                    && self.tasks@[t].polls@ == old(self).tasks@[t].polls@ + 1) by {
                    if t == front && prev.tasks@[t] == old(self).tasks@[t] {
                        match old(self).tasks@[t].slot {
                            Option::Some(c) => {
                                c.ready_now_stable(old(self).timers, prev.timers);
                            },
                            Option::None => {},
                        }
                    }
                }
                assert forall|t: int|
                    0 <= t < old(self).tasks@.len() && count_of(old(self).ready@, t) <= 1
                        && (old(self).tasks@[t].slot matches Some(c) && !c.ready_now(
                        old(self).timers,
                    )) implies (self.tasks@[t] == old(self).tasks@[t] && count_of(self.ready@, t)
                    == count_of(old(self).ready@, t)) || (count_of(self.ready@, t) == 0
                    && self.tasks@[t].slot is Some) by {
                    if t == front && prev.tasks@[t] == old(self).tasks@[t] {
                        match old(self).tasks@[t].slot {
                            Option::Some(c) => {
                                c.ready_now_stable(old(self).timers, prev.timers);
                                match _p {
                                    Option::Some(q) => match q {
                                        Poll::Ready(u) => {
                                            assert(_p == Some(Poll::<()>::Ready(())));
                                        },
                                        Poll::Pending => {
                                            assert(_p == Some(Poll::<()>::Pending));
                                        },
                                    },
                                    Option::None => {},
                                }
                            },
                            Option::None => {},
                        }
                    }
                }
                if old(self).queued_all_ready() {
                    assert(prev.timers == old(self).timers);
                    assert(self.timers == old(self).timers);
                }
            }
        }
        proof {
            assert(self.dequeued@ + self.ready@ =~= self.dequeued@);
            assert(forall|t: int| count_of(self.ready@, t) == 0);
        }
        if self.spawners == 0 && !self.timers.holds_live_waker() {
            ExecStatus::Stopped
        } else {
            ExecStatus::Idle
        }
    }

    /// Delivers a timer's one-shot completion event: marks the record as
    /// complete and, if a poll had stored a wake handle there, invokes it so
    /// that the parked task is re-enqueued. Fails exactly when there was a
    /// handle to wake and the ready queue is at capacity.
    pub fn fire_timer(&mut self, id: usize, now: u64) -> (r: Result<(), QueueOverflow>)
        requires
            old(self).wf(),
            id < old(self).timers.cells@.len(),
            now >= old(self).timers.cells@[id as int].deadline,
            !old(self).timers.cells@[id as int].completed,
        ensures
            final(self).wf(),
            final(self).tasks@ == old(self).tasks@,
            final(self).capacity == old(self).capacity,
            final(self).spawners == old(self).spawners,
            final(self).dequeued@ == old(self).dequeued@,
            final(self).timers.cells@ == old(self).timers.cells@.update(
                id as int,
                (TimerCell {
                    completed: true,
                    waker: None,
                    deadline: old(self).timers.cells@[id as int].deadline,
                    fired_at: Ghost(Some(now)),
                }),
            ),
            (match old(self).timers.cells@[id as int].waker {
                Some(w) => {
                    &&& ((r is Ok) == (old(self).ready@.len() < old(self).capacity))
                    &&& (r is Ok ==> final(self).ready@ == old(self).ready@.push(w.task_id))
                    &&& (r is Err ==> final(self).ready@ == old(self).ready@)
                },
                None => r is Ok && final(self).ready@ == old(self).ready@,
            }),
    {
        proof {
            assert(old(self).timers.wakers_bounded(old(self).tasks@.len() as int));
        }
        let w = self.timers.fire(id, now);
        match w {
            Some(handle) => self.wake(handle),
            None => Ok(()),
        }
    }

    /// Records that a spawner handle was cloned, and hands out the clone.
    pub fn clone_spawner(&mut self, _spawner: &Spawner) -> (s: Spawner)
        requires
            old(self).spawners >= 1,
            old(self).spawners < usize::MAX,
        ensures
            final(self).spawners == old(self).spawners + 1,
            final(self).tasks@ == old(self).tasks@,
            final(self).ready@ == old(self).ready@,
            final(self).capacity == old(self).capacity,
            final(self).timers == old(self).timers,
            final(self).dequeued@ == old(self).dequeued@,
            old(self).wf() ==> final(self).wf(),
    {
        self.spawners = self.spawners + 1;
        Spawner
    }

    /// Records that a spawner handle was dropped. Once the count reaches
    /// zero and no wake handle is stored anywhere, the scheduler is closed:
    /// `run` will report `Stopped` after draining the queue.
    pub fn drop_spawner(&mut self, _spawner: Spawner)
        requires
            old(self).spawners >= 1,
        ensures
            final(self).spawners == old(self).spawners - 1,
            final(self).tasks@ == old(self).tasks@,
            final(self).ready@ == old(self).ready@,
            final(self).capacity == old(self).capacity,
            final(self).timers == old(self).timers,
            final(self).dequeued@ == old(self).dequeued@,
            old(self).wf() ==> final(self).wf(),
    {
        self.spawners = self.spawners - 1;
    }
}

} // verus!
