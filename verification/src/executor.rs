//! The cooperative task executor.
//!
//! A task is an opaque suspendable computation that, when resumed, advances
//! as far as it can without blocking and then reports whether it finished.
//! The pool owns every task from spawn until completion; tasks run only when
//! the pool is explicitly driven, on the host runtime's thread, one at a
//! time — interleaved, never parallel.
//!
//! Per task the states are `Pending → Running → {Completed, Failed}`.
//! There is no cancellation state: a pool dropped before completion simply
//! discards its tasks, and effects already performed stay performed.

use vstd::prelude::*;

use crate::errors::Failure;

verus! {

/// The lifecycle state of one task.
#[derive(Clone, Copy, PartialEq, Eq, Structural, Debug)]
pub enum TaskState {
    /// Spawned, never yet resumed.
    Pending,
    /// Resumed at least once, not yet finished.
    Running,
    /// Finished with a value.
    Completed,
    /// Finished with an error.
    Failed,
}

/// What one resumption of a task reports.  A `Done` value is the task's
/// final outcome: the host-representable value it produced, or the error
/// that failed it.
#[derive(Clone, Copy, PartialEq, Eq, Debug)]
pub enum TaskPoll {
    /// The task cannot progress further until something external wakes it.
    Pending,
    /// The task finished with this outcome.
    Done(Result<u64, Failure>),
}

/// The one capability a task must offer the pool: resume, advance as far as
/// possible without blocking, and report done or pending.  Task bodies are
/// arbitrary user computations, so nothing further is promised here.
pub trait TaskStep {
    fn resume(&mut self) -> TaskPoll;
}

/// A task that suspends a fixed number of times before finishing with a
/// fixed outcome — the shape a timer or a counted channel receive takes.
#[derive(Clone, Copy, PartialEq, Eq, Debug)]
pub struct StepTask {
    /// How many more resumptions report `Pending` before the task is done.
    pub remaining: u64,
    /// The outcome the task finishes with.
    pub outcome: Result<u64, Failure>,
}

impl TaskStep for StepTask {
    fn resume(&mut self) -> TaskPoll {
        if self.remaining == 0 {
            TaskPoll::Done(self.outcome)
        } else {
            self.remaining = self.remaining - 1;
            TaskPoll::Pending
        }
    }
}

/// One slot of the pool.  The slot — not the task's address — is the
/// task's identity.
pub struct Slot<T> {
    /// The task itself, dropped once it finishes.
    pub task: Option<T>,
    /// Where the task stands in its lifecycle.
    pub state: TaskState,
    /// The final outcome, recorded when the task finishes.
    pub outcome: Option<Result<u64, Failure>>,
    /// The deferred result the task settles on completion, if any.
    pub deferred: Option<usize>,
    /// A failure of a task with no deferred result is written once to the
    /// diagnostic sink; this marks that it has been.
    pub reported: bool,
}

/// A finished slot: its task will never run again.
pub open spec fn slot_done<T>(s: Slot<T>) -> bool {
    s.state is Completed || s.state is Failed
}

/// Slot coherence: a live slot still holds its task and no outcome; a
/// finished slot holds its outcome — a value for `Completed`, an error for
/// `Failed` — and its task is gone.
pub open spec fn slot_wf<T>(s: Slot<T>) -> bool {
    &&& (s.state is Pending || s.state is Running) ==> s.task is Some && s.outcome is None
    &&& s.state is Completed ==> s.task is None && (s.outcome matches Some(r) && r is Ok)
    &&& s.state is Failed ==> s.task is None && (s.outcome matches Some(r) && r is Err)
}

/// How many of the slots are not yet finished.
pub open spec fn pending_in<T>(slots: Seq<Slot<T>>) -> int
    decreases slots.len(),
{
    if slots.len() == 0 {
        0
    } else {
        pending_in(slots.drop_last()) + (if slot_done(slots.last()) {
            0int
        } else {
            1int
        })
    }
}

proof fn lemma_pending_in_take_step<T>(slots: Seq<Slot<T>>, i: int)
    requires
        0 <= i < slots.len(),
    ensures
        pending_in(slots.take(i + 1)) == pending_in(slots.take(i)) + (if slot_done(slots[i]) {
            0int
        } else {
            1int
        }),
{
    assert(slots.take(i + 1).drop_last() =~= slots.take(i));
    assert(slots.take(i + 1).last() == slots[i]);
}

/// How many slots are unfinished depends on the states alone.
pub proof fn lemma_pending_in_same_states<T>(a: Seq<Slot<T>>, b: Seq<Slot<T>>)
    requires
        a.len() == b.len(),
        forall|i: int| 0 <= i < a.len() ==> (#[trigger] a[i]).state == b[i].state,
    ensures
        pending_in(a) == pending_in(b),
    decreases a.len(),
{
    if a.len() > 0 {
        lemma_pending_in_same_states(a.drop_last(), b.drop_last());
    }
}

proof fn lemma_pending_in_push<T>(slots: Seq<Slot<T>>, s: Slot<T>)
    ensures
        pending_in(slots.push(s)) == pending_in(slots) + (if slot_done(s) {
            0int
        } else {
            1int
        }),
{
    assert(slots.push(s).drop_last() =~= slots);
}

/// Record in a slot what one resumption of its task reported.  This is
/// the whole effect a poll result has: `Done` drops the task and fixes the
/// slot's final outcome as exactly the reported one — `Completed` for a
/// value, `Failed` for an error — while `Pending` leaves the task in place
/// to be resumed again.  The slot's deferred link and report mark are
/// never touched.
pub fn apply_poll<T>(slot: &mut Slot<T>, poll: TaskPoll)
    ensures
        poll matches TaskPoll::Done(r) ==> {
            &&& final(slot).outcome == Some(r)
            &&& final(slot).task is None
            &&& final(slot).state == (if r is Ok {
                TaskState::Completed
            } else {
                TaskState::Failed
            })
        },
        poll is Pending ==> {
            &&& final(slot).state is Running
            &&& final(slot).task == old(slot).task
            &&& final(slot).outcome == old(slot).outcome
        },
        final(slot).deferred == old(slot).deferred,
        final(slot).reported == old(slot).reported,
{
    match poll {
        TaskPoll::Pending => {
            slot.state = TaskState::Running;
        },
        TaskPoll::Done(r) => {
            slot.task = None;
            slot.outcome = Some(r);
            slot.state = match r {
                Ok(_) => TaskState::Completed,
                Err(_) => TaskState::Failed,
            };
        },
    }
}

/// The pool of live tasks.
pub struct Pool<T> {
    /// The slots, task identity `i` at index `i`; slots are never removed,
    /// so identities stay stable.
    pub slots: Vec<Slot<T>>,
}

impl<T: TaskStep> Pool<T> {
    /// Every slot is coherent.
    pub open spec fn wf(self) -> bool {
        forall|i: int| 0 <= i < self.slots@.len() ==> slot_wf(#[trigger] self.slots@[i])
    }

    /// An empty pool.
    pub fn new() -> (r: Pool<T>)
        ensures
            r.wf(),
            r.slots@.len() == 0,
    {
        Pool { slots: Vec::new() }
    }

    /// Insert a new task; always succeeds, and the task begins `Pending`.
    /// Returns the task's identity.  `deferred` links the task to the
    /// deferred result it settles on completion.
    pub fn spawn(&mut self, task: T, deferred: Option<usize>) -> (id: usize)
        requires
            old(self).wf(),
            old(self).slots@.len() < usize::MAX,
        ensures
            final(self).wf(),
            id == old(self).slots@.len(),
            final(self).slots@ == old(self).slots@.push(
                Slot { task: Some(task), state: TaskState::Pending, outcome: None, deferred, reported: false },
            ),
            pending_in(final(self).slots@) == pending_in(old(self).slots@) + 1,
    {
        let id: usize = self.slots.len();
        self.slots.push(Slot { task: Some(task), state: TaskState::Pending, outcome: None, deferred, reported: false });
        proof {
            lemma_pending_in_push(
                old(self).slots@,
                Slot { task: Some(task), state: TaskState::Pending, outcome: None, deferred, reported: false },
            );
        }
        id
    }

    /// How many tasks have not yet finished.
    pub fn pending_count(&self) -> (n: usize)
        requires
            self.wf(),
        ensures
            n == pending_in(self.slots@),
    {
        let mut n: usize = 0;
        let mut i: usize = 0;
        proof {
            assert(self.slots@.take(0) =~= Seq::<Slot<T>>::empty());
        }
        while i < self.slots.len()
            invariant
                i <= self.slots@.len(),
                n <= i,
                n == pending_in(self.slots@.take(i as int)),
            decreases self.slots@.len() - i,
        {
            let live = match self.slots[i].state {
                TaskState::Pending => true,
                TaskState::Running => true,
                TaskState::Completed => false,
                TaskState::Failed => false,
            };
            proof {
                lemma_pending_in_take_step(self.slots@, i as int);
            }
            if live {
                n = n + 1;
            }
            i = i + 1;
        }
        proof {
            assert(self.slots@.take(self.slots@.len() as int) =~= self.slots@);
        }
        n
    }

    /// Drive every unfinished task once around: each is resumed, advances
    /// as far as it can without blocking, and either finishes — its outcome
    /// is recorded and its task dropped — or stays resumable for the next
    /// round.  Nothing blocks, finished slots are never touched again, and
    /// every task's link to its deferred result is kept.  Returns the count
    /// of tasks still not finished.  Must run on the host runtime's thread.
    pub fn run_until_stalled(&mut self) -> (pending: usize)
        requires
            old(self).wf(),
        ensures
            final(self).wf(),
            final(self).slots@.len() == old(self).slots@.len(),
            forall|i: int|
                0 <= i < old(self).slots@.len() && slot_done(#[trigger] old(self).slots@[i])
                    ==> final(self).slots@[i] == old(self).slots@[i],
            forall|i: int|
                0 <= i < old(self).slots@.len() ==> (#[trigger] final(self).slots@[i]).deferred
                    == old(self).slots@[i].deferred,
            forall|i: int|
                0 <= i < old(self).slots@.len() ==> (#[trigger] final(self).slots@[i]).reported
                    == old(self).slots@[i].reported,
            forall|i: int|
                0 <= i < final(self).slots@.len() && !slot_done(#[trigger] final(self).slots@[i])
                    ==> final(self).slots@[i].state is Running,
            pending == pending_in(final(self).slots@),
    {
        let ghost snap = self.slots@;
        let mut i: usize = 0;
        while i < self.slots.len()
            invariant
                self.wf(),
                i <= self.slots@.len(),
                self.slots@.len() == snap.len(),
                forall|j: int| i <= j < snap.len() ==> #[trigger] self.slots@[j] == snap[j],
                forall|j: int|
                    0 <= j < snap.len() && slot_done(#[trigger] snap[j]) ==> self.slots@[j]
                        == snap[j],
                forall|j: int|
                    0 <= j < snap.len() ==> (#[trigger] self.slots@[j]).deferred
                        == snap[j].deferred,
                forall|j: int|
                    0 <= j < snap.len() ==> (#[trigger] self.slots@[j]).reported
                        == snap[j].reported,
                forall|j: int|
                    0 <= j < i && !slot_done(#[trigger] self.slots@[j]) ==> self.slots@[j].state
                        is Running,
            decreases self.slots@.len() - i,
        {
            let slot = &mut self.slots[i];
            match slot.state {
                TaskState::Completed => {},
                TaskState::Failed => {},
                TaskState::Pending | TaskState::Running => {
                    let poll = match slot.task.as_mut() {
                        Some(t) => t.resume(),
                        None => {
                            proof {
                                assert(slot_wf(snap[i as int]));
                                assert(false);
                            }
                            TaskPoll::Pending
                        },
                    };
                    apply_poll(slot, poll);
                },
            }
            i = i + 1;
        }
        self.pending_count()
    }
}

} // verus!
