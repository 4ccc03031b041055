//! The timer primitive: a suspendable computation that completes no earlier
//! than a configured deadline.
//!
//! Each timer owns one record in a [`TimerTable`]: a completion flag, the
//! configured deadline, and a slot for the wake handle captured at the time
//! of the most recent poll. Polling a timer whose record is not yet complete
//! overwrites the stored wake handle with the current one (the task driving
//! the computation may change between polls, so the old handle could be
//! stale) and reports `Pending`. The embedding fires the record once the
//! deadline has passed; firing marks it complete and surrenders the stored
//! wake handle, if any, so that the caller can re-enqueue the parked task.

use vstd::prelude::*;

use crate::executor::Computation;
use crate::executor::WakeHandle;
use crate::simple_future::Poll;

verus! {

/// The record shared between a timer's computation and its completion event:
/// whether the delay has elapsed, the wake handle stored by the most recent
/// poll, and the instant (on the embedding's clock) from which the timer may
/// fire. The ghost `fired_at` field records the instant at which the record
/// was actually fired, so that well-formedness can state that completion
/// never happens before the deadline.
pub struct TimerCell {
    pub completed: bool,
    pub waker: Option<WakeHandle>,
    pub deadline: u64,
    pub fired_at: Ghost<Option<u64>>,
}

/// All timer records of one scheduler, indexed by the identifier that each
/// [`TimerFuture`] carries.
pub struct TimerTable {
    pub cells: Vec<TimerCell>,
}

impl TimerTable {
    /// Every completed record was fired at or after its deadline and has
    /// surrendered its wake handle; an unfired record is not complete.
    pub open spec fn wf(&self) -> bool {
        forall|i: int|
            0 <= i < self.cells@.len() ==> {
                let c = #[trigger] self.cells@[i];
                &&& (c.completed <==> c.fired_at@ is Some)
                &&& (match c.fired_at@ {
                    Some(t) => t >= c.deadline,
                    None => true,
                })
                &&& (c.completed ==> c.waker is None)
            }
    }

    /// Every wake handle stored in the table refers to a task index below `n`.
    pub open spec fn wakers_bounded(&self, n: int) -> bool {
        forall|i: int|
            0 <= i < self.cells@.len() ==> (match (#[trigger] self.cells@[i]).waker {
                Some(w) => w.task_id < n,
                None => true,
            })
    }

    /// Some record still holds a wake handle: a live capability to re-enqueue
    /// a parked task.
    pub open spec fn holds_waker(&self) -> bool {
        exists|i: int| 0 <= i < self.cells@.len() && (#[trigger] self.cells@[i]).waker is Some
    }

    pub fn new() -> (t: TimerTable)
        ensures
            t.cells@.len() == 0,
            t.wf(),
            forall|n: int| t.wakers_bounded(n),
            !t.holds_waker(),
    {
        TimerTable { cells: Vec::new() }
    }

    pub fn num_timers(&self) -> (n: usize)
        ensures
            n == self.cells@.len(),
    {
        self.cells.len()
    }

    /// Registers a fresh timer record whose deadline lies `duration` ticks
    /// after `now`, and returns its identifier.
    pub fn create(&mut self, now: u64, duration: u64) -> (id: usize)
        requires
            now + duration <= u64::MAX,
        ensures
            id == old(self).cells@.len(),
            final(self).cells@ == old(self).cells@.push(
                (TimerCell {
                    completed: false,
                    waker: None,
                    deadline: (now + duration) as u64,
                    fired_at: Ghost(None),
                }),
            ),
            old(self).wf() ==> final(self).wf(),
            forall|n: int| old(self).wakers_bounded(n) ==> final(self).wakers_bounded(n),
            final(self).holds_waker() == old(self).holds_waker(),
    {
        let id = self.cells.len();
        self.cells.push(
            TimerCell { completed: false, waker: None, deadline: now + duration, fired_at: Ghost(None) },
        );
        proof {
            if old(self).holds_waker() {
                let i = choose|i: int|
                    0 <= i < old(self).cells@.len() && (#[trigger] old(self).cells@[i]).waker
                        is Some;
                assert(self.cells@[i].waker is Some);
            }
            if self.holds_waker() {
                let i = choose|i: int|
                    0 <= i < self.cells@.len() && (#[trigger] self.cells@[i]).waker is Some;
                assert(i < old(self).cells@.len());
                assert(old(self).cells@[i].waker is Some);
            }
        }
        id
    }

    pub fn is_completed(&self, id: usize) -> (b: bool)
        requires
            id < self.cells@.len(),
        ensures
            b == self.cells@[id as int].completed,
    {
        self.cells[id].completed
    }

    pub fn deadline(&self, id: usize) -> (d: u64)
        requires
            id < self.cells@.len(),
        ensures
            d == self.cells@[id as int].deadline,
    {
        self.cells[id].deadline
    }

    /// The one-shot completion event, delivered by the embedding once the
    /// deadline has passed on its clock: marks the record complete and
    /// surrenders the stored wake handle, if any, for the caller to invoke.
    pub fn fire(&mut self, id: usize, now: u64) -> (w: Option<WakeHandle>)
        requires
            old(self).wf(),
            id < old(self).cells@.len(),
            now >= old(self).cells@[id as int].deadline,
            !old(self).cells@[id as int].completed,
        ensures
            w == old(self).cells@[id as int].waker,
            final(self).cells@ == old(self).cells@.update(
                id as int,
                (TimerCell {
                    completed: true,
                    waker: None,
                    deadline: old(self).cells@[id as int].deadline,
                    fired_at: Ghost(Some(now)),
                }),
            ),
            final(self).wf(),
            forall|n: int| old(self).wakers_bounded(n) ==> final(self).wakers_bounded(n),
    {
        let deadline = self.cells[id].deadline;
        let w = self.cells[id].waker;
        self.cells[id] = TimerCell {
            completed: true,
            waker: None,
            deadline,
            fired_at: Ghost(Some(now)),
        };
        w
    }

    /// Stores the given wake handle in a not-yet-complete record, replacing
    /// whatever handle an earlier poll left there.
    fn park(&mut self, id: usize, waker: WakeHandle)
        requires
            old(self).wf(),
            id < old(self).cells@.len(),
            !old(self).cells@[id as int].completed,
        ensures
            final(self).cells@ == old(self).cells@.update(
                id as int,
                (TimerCell {
                    completed: false,
                    waker: Some(waker),
                    deadline: old(self).cells@[id as int].deadline,
                    fired_at: old(self).cells@[id as int].fired_at,
                }),
            ),
            final(self).wf(),
            forall|n: int|
                old(self).wakers_bounded(n) && waker.task_id < n ==> final(self).wakers_bounded(n),
    {
        let deadline = self.cells[id].deadline;
        let fired_at = self.cells[id].fired_at;
        self.cells[id] = TimerCell { completed: false, waker: Some(waker), deadline, fired_at };
    }

    /// The record the embedding should wait for next: the identifier and
    /// deadline of an uncompleted record with the earliest deadline, or
    /// `None` when every record has fired.
    pub fn next_unfired_deadline(&self) -> (r: Option<(usize, u64)>)
        ensures
            (r is None) <==> (forall|i: int|
                0 <= i < self.cells@.len() ==> (#[trigger] self.cells@[i]).completed),
            (match r {
                Some((id, d)) => {
                    &&& id < self.cells@.len()
                    &&& !self.cells@[id as int].completed
                    &&& d == self.cells@[id as int].deadline
                    &&& forall|i: int|
                        0 <= i < self.cells@.len() && !(#[trigger] self.cells@[i]).completed
                            ==> d <= self.cells@[i].deadline
                },
                None => true,
            }),
    {
        let mut best: Option<(usize, u64)> = None;
        let mut i: usize = 0;
        while i < self.cells.len()
            invariant
                0 <= i <= self.cells@.len(),
                (best is None) <==> (forall|j: int|
                    0 <= j < i ==> (#[trigger] self.cells@[j]).completed),
                (match best {
                    Some((id, d)) => {
                        &&& id < i
                        &&& !self.cells@[id as int].completed
                        &&& d == self.cells@[id as int].deadline
                        &&& forall|j: int|
                            0 <= j < i && !(#[trigger] self.cells@[j]).completed ==> d
                                <= self.cells@[j].deadline
                    },
                    None => true,
                }),
            decreases self.cells@.len() - i,
        {
            if !self.cells[i].completed {
                let d = self.cells[i].deadline;
                let better = match best {
                    Some((_, b)) => d < b,
                    None => true,
                };
                if better {
                    best = Some((i, d));
                }
            }
            i += 1;
        }
        best
    }

    /// Reports whether any record still holds a wake handle.
    pub fn holds_live_waker(&self) -> (b: bool)
        ensures
            b == self.holds_waker(),
    {
        let mut i: usize = 0;
        while i < self.cells.len()
            invariant
                0 <= i <= self.cells@.len(),
                forall|j: int| 0 <= j < i ==> (#[trigger] self.cells@[j]).waker is None,
            decreases self.cells@.len() - i,
        {
            if self.cells[i].waker.is_some() {
                return true;
            }
            i += 1;
        }
        false
    }
}

/// A suspendable computation that finishes once its timer record has fired.
pub struct TimerFuture {
    pub timer_id: usize,
}

impl TimerFuture {
    /// Constructs a timer that may complete no earlier than `duration` ticks
    /// after `now`, registering its record in the table. The embedding is
    /// responsible for delivering the matching `fire` event once the deadline
    /// has passed.
    pub fn new(timers: &mut TimerTable, now: u64, duration: u64) -> (t: TimerFuture)
        requires
            now + duration <= u64::MAX,
        ensures
            t.timer_id == old(timers).cells@.len(),
            final(timers).cells@ == old(timers).cells@.push(
                (TimerCell {
                    completed: false,
                    waker: None,
                    deadline: (now + duration) as u64,
                    fired_at: Ghost(None),
                }),
            ),
            old(timers).wf() ==> final(timers).wf(),
            forall|n: int| old(timers).wakers_bounded(n) ==> final(timers).wakers_bounded(n),
            final(timers).holds_waker() == old(timers).holds_waker(),
    {
        let timer_id = timers.create(now, duration);
        TimerFuture { timer_id }
    }

    /// One poll of the timer: reports `Ready` exactly when the record has
    /// already fired; otherwise stores the current wake handle in the record
    /// (overwriting any handle left by an earlier poll) and reports `Pending`.
    pub fn poll(&self, timers: &mut TimerTable, waker: WakeHandle) -> (p: Poll<()>)
        requires
            old(timers).wf(),
            self.timer_id < old(timers).cells@.len(),
        ensures
            final(timers).wf(),
            (p is Ready) == old(timers).cells@[self.timer_id as int].completed,
            old(timers).cells@[self.timer_id as int].completed ==> *final(timers) == *old(timers),
            !old(timers).cells@[self.timer_id as int].completed ==> final(timers).cells@ == old(timers).cells@.update(
                self.timer_id as int,
                (TimerCell {
                    completed: false,
                    waker: Some(waker),
                    deadline: old(timers).cells@[self.timer_id as int].deadline,
                    fired_at: old(timers).cells@[self.timer_id as int].fired_at,
                }),
            ),
            forall|n: int|
                old(timers).wakers_bounded(n) && waker.task_id < n
                    ==> final(timers).wakers_bounded(n),
    {
        if timers.is_completed(self.timer_id) {
            Poll::Ready(())
        } else {
            timers.park(self.timer_id, waker);
            Poll::Pending
        }
    }
}

/// A timer never completes early: in a well-formed table, a completed record
/// was fired at an instant no earlier than its configured deadline. Since
/// `TimerFuture::poll` reports `Ready` exactly when the record is complete, a
/// poll made before the record has been fired (in particular the first poll
/// of a fresh timer) reports `Pending`, and a poll that reports `Ready` does
/// so only once at least the configured delay lies between registration and
/// the fire instant.
pub proof fn lemma_timer_completes_no_earlier(timers: TimerTable, id: int)
    requires
        timers.wf(),
        0 <= id < timers.cells@.len(),
        timers.cells@[id].completed,
    ensures
        (match timers.cells@[id].fired_at@ {
            Some(at) => at >= timers.cells@[id].deadline,
            None => false,
        }),
{
}

impl Computation for TimerFuture {
    /// A timer finishes on the poll that finds its record fired.
    open spec fn ready_now(&self, timers: TimerTable) -> bool {
        self.timer_id < timers.cells@.len() && timers.cells@[self.timer_id as int].completed
    }

    proof fn ready_now_stable(&self, pre: TimerTable, post: TimerTable) {
    }

    fn advance(&mut self, timers: &mut TimerTable, waker: WakeHandle) -> (p: Poll<()>) {
        if self.timer_id < timers.num_timers() {
            self.poll(timers, waker)
        } else {
            // A timer that was never registered in this table can never
            // fire; park forever rather than touch another record.
            Poll::Pending
        }
    }
}

} // verus!
