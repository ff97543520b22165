//! The wake token of the dedicated notifier thread.
//!
//! Exactly one notifier thread owns the parking side of the token; any other
//! thread may wake it, at any time, any number of times.  The token is a
//! two-flag state machine: `pending` records a wake that has not yet been
//! observed, `parked` records that the notifier is blocked.  Waking an
//! already-woken token is a no-op, and a wake that arrives before the
//! notifier parks is observed by the next wait — a wake is never lost.
//!
//! The blocking itself (parking the OS thread and unparking it again) is the
//! caller's business; this module decides, for every interleaving of wake
//! and wait steps, whether the notifier must block and whether a waker must
//! unpark it.

use vstd::prelude::*;

verus! {

/// The state of the wake token.
#[derive(Clone, Copy, PartialEq, Eq, Structural, Debug)]
pub struct ThreadNotify {
    /// A wake has arrived and no wait has observed it yet.
    pub pending: bool,
    /// The notifier thread is blocked, waiting to be unparked.
    pub parked: bool,
}

/// What a single wait step tells the notifier thread to do.
#[derive(Clone, Copy, PartialEq, Eq, Structural, Debug)]
pub enum WaitOutcome {
    /// A wake was pending: it is now observed and the notifier runs.
    Woken,
    /// No wake was pending: the notifier must block until unparked, then
    /// take another wait step.
    Parked,
}

/// One operation on the token, for reasoning about whole histories.
#[derive(Clone, Copy, PartialEq, Eq, Structural, Debug)]
pub enum NotifyOp {
    Wake,
    Wait,
}

/// The state a wake step leaves behind.
pub open spec fn spec_wake(s: ThreadNotify) -> ThreadNotify {
    ThreadNotify { pending: true, parked: s.parked }
}

/// Whether a wake step must unpark the notifier thread: only the wake that
/// turns `pending` on carries the unpark; later wakes are no-ops.
pub open spec fn spec_wake_unparks(s: ThreadNotify) -> bool {
    !s.pending
}

/// The state a wait step leaves behind.
pub open spec fn spec_wait(s: ThreadNotify) -> ThreadNotify {
    if s.pending {
        ThreadNotify { pending: false, parked: false }
    } else {
        ThreadNotify { pending: false, parked: true }
    }
}

/// Whether a wait step observes a wake.
pub open spec fn spec_wait_observes(s: ThreadNotify) -> bool {
    s.pending
}

/// The state after a whole history of operations.
pub open spec fn run_ops(s: ThreadNotify, ops: Seq<NotifyOp>) -> ThreadNotify
    decreases ops.len(),
{
    if ops.len() == 0 {
        s
    } else {
        let prev = run_ops(s, ops.drop_last());
        match ops.last() {
            NotifyOp::Wake => spec_wake(prev),
            NotifyOp::Wait => spec_wait(prev),
        }
    }
}

/// How many wait steps of a history observed a wake.
pub open spec fn observed_count(s: ThreadNotify, ops: Seq<NotifyOp>) -> nat
    decreases ops.len(),
{
    if ops.len() == 0 {
        0
    } else {
        let prev = run_ops(s, ops.drop_last());
        let here: nat = match ops.last() {
            NotifyOp::Wake => 0,
            NotifyOp::Wait => if spec_wait_observes(prev) { 1nat } else { 0 },
        };
        observed_count(s, ops.drop_last()) + here
    }
}

impl ThreadNotify {
    /// A fresh token: nothing pending, nobody parked.
    pub fn new() -> (r: ThreadNotify)
        ensures
            !r.pending,
            !r.parked,
    {
        ThreadNotify { pending: false, parked: false }
    }

    /// Record a wake.  May be called from any thread, at any time, any
    /// number of times.  Returns whether the caller must unpark the
    /// notifier thread; waking an already-woken token asks for nothing.
    pub fn wake(&mut self) -> (unpark: bool)
        ensures
            *final(self) == spec_wake(*old(self)),
            unpark == spec_wake_unparks(*old(self)),
            final(self).pending,
    {
        let was_pending = self.pending;
        self.pending = true;
        !was_pending
    }

    /// One step of `wait_for_wake`, taken by the notifier thread.  If a
    /// wake is pending it is observed and the notifier proceeds; otherwise
    /// the notifier is told to block and try again once unparked.
    pub fn wait_step(&mut self) -> (r: WaitOutcome)
        ensures
            *final(self) == spec_wait(*old(self)),
            r == (if spec_wait_observes(*old(self)) {
                WaitOutcome::Woken
            } else {
                WaitOutcome::Parked
            }),
            old(self).pending ==> r is Woken,
            !final(self).pending,
    {
        if self.pending {
            self.pending = false;
            self.parked = false;
            WaitOutcome::Woken
        } else {
            self.parked = true;
            WaitOutcome::Parked
        }
    }
}

/// No lost wakeup: after any history that leaves a wake pending, the very
/// next wait step observes it — it returns without parking, and the
/// history's observation count grows by one.
pub proof fn lemma_no_lost_wakeup(s: ThreadNotify, ops: Seq<NotifyOp>)
    requires
        run_ops(s, ops).pending,
    ensures
        spec_wait_observes(run_ops(s, ops)),
        observed_count(s, ops.push(NotifyOp::Wait)) == observed_count(s, ops) + 1,
        !run_ops(s, ops.push(NotifyOp::Wait)).parked,
{
    assert(ops.push(NotifyOp::Wait).drop_last() =~= ops);
}

/// A wake always leaves the token pending, whatever came before; so by
/// `lemma_no_lost_wakeup` every wake is observed by the next wait step.
pub proof fn lemma_wake_pends(s: ThreadNotify, ops: Seq<NotifyOp>)
    ensures
        run_ops(s, ops.push(NotifyOp::Wake)).pending,
{
    assert(ops.push(NotifyOp::Wake).drop_last() =~= ops);
}

/// Waking is idempotent: a second wake changes neither the state nor how
/// many wakes the history's waits observe.
pub proof fn lemma_wake_idempotent(s: ThreadNotify, ops: Seq<NotifyOp>)
    ensures
        run_ops(s, ops.push(NotifyOp::Wake).push(NotifyOp::Wake)) == run_ops(
            s,
            ops.push(NotifyOp::Wake),
        ),
        observed_count(s, ops.push(NotifyOp::Wake).push(NotifyOp::Wake)) == observed_count(
            s,
            ops.push(NotifyOp::Wake),
        ),
{
    let one = ops.push(NotifyOp::Wake);
    let two = one.push(NotifyOp::Wake);
    assert(two.drop_last() =~= one);
    assert(one.drop_last() =~= ops);
}

} // verus!
