//! The composition of the coordination core.
//!
//! One runtime exists per host context.  Its parts never talk to each other
//! behind the caller's back; every cross-thread path folds into the host
//! invocation channel, and everything else happens on the host thread:
//!
//! * a worker thread that made a task runnable calls [`Runtime::wake`];
//! * the dedicated notifier thread turns an observed wake into a queued
//!   `RunTasks` message ([`Runtime::notifier_step`]);
//! * the host runtime grants the channel a dispatch, and
//!   [`Runtime::dispatch`] drives the pool, settles the deferred results of
//!   tasks that finished, writes diagnostics for fire-and-forget failures,
//!   and disarms the channel the moment no task remains — so an idle host
//!   process is free to exit;
//! * a worker thread that must drop a registry handle marshals the release
//!   through the channel ([`Runtime::release_remote`]) instead of touching
//!   the registry.

use vstd::prelude::*;

use crate::bridge::Bridge;
use crate::bridge::Deferred;
use crate::bridge::Settlement;
use crate::bridge::settlement_of;
use crate::channel::HostChannel;
use crate::channel::Invocation;
use crate::errors::ErrorKind;
use crate::errors::Failure;
use crate::executor::Pool;
use crate::executor::Slot;
use crate::executor::TaskState;
use crate::executor::TaskStep;
use crate::executor::pending_in;
use crate::executor::slot_done;
use crate::notify::ThreadNotify;
use crate::notify::WaitOutcome;
use crate::notify::spec_wait;
use crate::notify::spec_wait_observes;
use crate::notify::spec_wake;
use crate::notify::spec_wake_unparks;
use crate::registry::Entry;
use crate::registry::RootObjectType;
use crate::registry::Store;

verus! {

/// What one channel dispatch did.
#[derive(Clone, Copy, PartialEq, Eq, Structural, Debug)]
pub enum DispatchOutcome {
    /// Nothing was queued.
    Idle,
    /// A `RunTasks` message drove the pool; this many tasks are still
    /// unfinished.
    Ran(usize),
    /// A marshaled release was applied; `was_live` reports whether the
    /// handle still had a count to give back.
    Released { handle: usize, was_live: bool },
}

/// The per-context runtime: wake token, host invocation channel, task
/// pool, lifetime registry, result bridge, and the diagnostic sink that
/// fire-and-forget failures are written to.
pub struct Runtime<T, V> {
    /// The wake token shared with the notifier thread.
    pub notify: ThreadNotify,
    /// The one cross-thread path into the host.
    pub channel: HostChannel,
    /// The task pool, driven only by dispatch.
    pub pool: Pool<T>,
    /// The lifetime registry.
    pub store: Store<V>,
    /// The result bridge.
    pub bridge: Bridge,
    /// Diagnostics, oldest first: one entry per fire-and-forget task
    /// failure, per corrupt marshaled release, and per reported failure of
    /// the bridging machinery.
    pub diagnostics: Vec<Failure>,
}

impl<T: TaskStep, V> Runtime<T, V> {
    /// Every task's deferred link names an existing deferred, and no two
    /// tasks settle the same deferred.
    pub open spec fn links_wf(self) -> bool {
        &&& forall|i: int|
            0 <= i < self.pool.slots@.len() ==> ((#[trigger] self.pool.slots@[i]).deferred matches
            Some(d) ==> d < self.bridge.deferreds@.len())
        &&& forall|i: int, j: int|
            0 <= i < self.pool.slots@.len() && 0 <= j < self.pool.slots@.len() && i != j && (
            #[trigger] self.pool.slots@[i]).deferred is Some ==> self.pool.slots@[i].deferred != (
            #[trigger] self.pool.slots@[j]).deferred
    }

    /// A finished task's deferred is settled, with exactly the task's
    /// outcome.
    pub open spec fn settled_wf(self) -> bool {
        forall|i: int|
            0 <= i < self.pool.slots@.len() && slot_done(#[trigger] self.pool.slots@[i]) ==> (
            self.pool.slots@[i].deferred matches Some(d) ==> self.bridge.deferreds@[d as int].settled
                == Some(settlement_of(self.pool.slots@[i].outcome->0)))
    }

    /// An unfinished task's deferred is still unsettled.
    pub open spec fn pending_unsettled_wf(self) -> bool {
        forall|i: int|
            0 <= i < self.pool.slots@.len() && !slot_done(#[trigger] self.pool.slots@[i]) ==> (
            self.pool.slots@[i].deferred matches Some(d) ==> self.bridge.deferreds@[d as int].settled
                is None)
    }

    /// A failed fire-and-forget task has been written to the diagnostic
    /// sink.
    pub open spec fn reported_wf(self) -> bool {
        forall|i: int|
            0 <= i < self.pool.slots@.len() && (#[trigger] self.pool.slots@[i]).state is Failed
                && self.pool.slots@[i].deferred is None ==> self.pool.slots@[i].reported
    }

    /// The runtime's well-formedness: each part coherent, and the parts'
    /// cross-references coherent with one another.
    pub open spec fn wf(self) -> bool {
        &&& self.pool.wf()
        &&& self.store.wf()
        &&& self.bridge.wf()
        &&& self.links_wf()
        &&& self.settled_wf()
        &&& self.pending_unsettled_wf()
        &&& self.reported_wf()
    }

    /// A fresh runtime: no tasks, nothing registered, channel disarmed —
    /// the host process is free to exit — and the wake token quiet.
    pub fn new(kind: RootObjectType) -> (r: Runtime<T, V>)
        ensures
            r.wf(),
            !r.notify.pending,
            !r.notify.parked,
            !r.channel.armed,
            r.channel.queue@.len() == 0,
            r.pool.slots@.len() == 0,
            r.store.entries@.len() == 0,
            r.store.kind == kind,
            r.bridge.deferreds@.len() == 0,
            r.bridge.log@.len() == 0,
            r.diagnostics@.len() == 0,
    {
        Runtime {
            notify: ThreadNotify::new(),
            channel: HostChannel::new(),
            pool: Pool::new(),
            store: Store::new(kind),
            bridge: Bridge::new(),
            diagnostics: Vec::new(),
        }
    }

    /// Record a wake from any thread: the next notifier step will observe
    /// it.  Returns whether the caller must unpark the notifier thread.
    pub fn wake(&mut self) -> (unpark: bool)
        requires
            old(self).wf(),
        ensures
            final(self).wf(),
            final(self).notify == spec_wake(old(self).notify),
            unpark == spec_wake_unparks(old(self).notify),
            final(self).channel == old(self).channel,
            final(self).pool == old(self).pool,
            final(self).store == old(self).store,
            final(self).bridge == old(self).bridge,
            final(self).diagnostics == old(self).diagnostics,
    {
        self.notify.wake()
    }

    /// One step of the notifier thread's loop: observe a wake and queue a
    /// `RunTasks` dispatch, or find none and be told to park.
    pub fn notifier_step(&mut self) -> (r: WaitOutcome)
        requires
            old(self).wf(),
        ensures
            final(self).wf(),
            final(self).notify == spec_wait(old(self).notify),
            r == (if spec_wait_observes(old(self).notify) {
                WaitOutcome::Woken
            } else {
                WaitOutcome::Parked
            }),
            spec_wait_observes(old(self).notify) ==> final(self).channel.queue@ == old(self).channel.queue@.push(Invocation::RunTasks),
            !spec_wait_observes(old(self).notify) ==> final(self).channel.queue@ == old(self).channel.queue@,
            final(self).channel.armed == old(self).channel.armed,
            final(self).pool == old(self).pool,
            final(self).store == old(self).store,
            final(self).bridge == old(self).bridge,
            final(self).diagnostics == old(self).diagnostics,
    {
        let r = self.notify.wait_step();
        match r {
            WaitOutcome::Woken => self.channel.invoke(Invocation::RunTasks),
            WaitOutcome::Parked => {},
        }
        r
    }

    /// Marshal a release from a worker thread: the count is given back on
    /// the host thread, when the channel dispatches the message.  Worker
    /// threads must never touch the registry directly.
    pub fn release_remote(&mut self, h: usize)
        requires
            old(self).wf(),
        ensures
            final(self).wf(),
            final(self).channel.queue@ == old(self).channel.queue@.push(Invocation::Release(h)),
            final(self).channel.armed == old(self).channel.armed,
            final(self).notify == old(self).notify,
            final(self).pool == old(self).pool,
            final(self).store == old(self).store,
            final(self).bridge == old(self).bridge,
            final(self).diagnostics == old(self).diagnostics,
    {
        self.channel.invoke(Invocation::Release(h));
    }

    /// Insert a task into the pool, arm the channel first — a task may now
    /// be runnable, so the host process must not exit — and queue a
    /// dispatch to drive it.  A task linked to a deferred result must be
    /// the only task linked to it, and the deferred still unsettled.
    /// Returns the task's identity.
    pub fn spawn(&mut self, task: T, deferred: Option<usize>) -> (id: usize)
        requires
            old(self).wf(),
            old(self).pool.slots@.len() < usize::MAX,
            deferred matches Some(d) ==> {
                &&& d < old(self).bridge.deferreds@.len()
                &&& old(self).bridge.deferreds@[d as int].settled is None
                &&& forall|i: int|
                    0 <= i < old(self).pool.slots@.len() ==> (#[trigger] old(self).pool.slots@[i]).deferred != Some(d)
            },
        ensures
            final(self).wf(),
            id == old(self).pool.slots@.len(),
            final(self).pool.slots@ == old(self).pool.slots@.push(
                Slot {
                    task: Some(task),
                    state: TaskState::Pending,
                    outcome: None,
                    deferred,
                    reported: false,
                },
            ),
            final(self).channel.armed,
            final(self).channel.queue@ == old(self).channel.queue@.push(Invocation::RunTasks),
            final(self).notify == old(self).notify,
            final(self).store == old(self).store,
            final(self).bridge == old(self).bridge,
            final(self).diagnostics == old(self).diagnostics,
    {
        self.channel.arm();
        let id: usize = self.pool.spawn(task, deferred);
        self.channel.invoke(Invocation::RunTasks);
        id
    }

    /// Construct a deferred result: its two resolution callbacks go into
    /// the registry under fresh handles with count 1, and the deferred
    /// starts unsettled.  Returns the deferred's identity.  Must run on
    /// the host thread.
    pub fn create_deferred(&mut self, resolver: V, rejecter: V) -> (d: usize)
        requires
            old(self).wf(),
            old(self).store.entries@.len() + 1 < usize::MAX,
            old(self).bridge.deferreds@.len() < usize::MAX,
        ensures
            final(self).wf(),
            d == old(self).bridge.deferreds@.len(),
            final(self).store.entries@ == old(self).store.entries@.push(
                Entry { val: Some(resolver), count: 1u64 },
            ).push(Entry { val: Some(rejecter), count: 1u64 }),
            final(self).bridge.deferreds@ == old(self).bridge.deferreds@.push(
                Deferred {
                    resolver: old(self).store.entries@.len() as usize,
                    rejecter: (old(self).store.entries@.len() + 1) as usize,
                    settled: None,
                },
            ),
            final(self).bridge.log@ == old(self).bridge.log@,
            final(self).notify == old(self).notify,
            final(self).channel == old(self).channel,
            final(self).pool == old(self).pool,
            final(self).diagnostics == old(self).diagnostics,
            final(self).store.kind == old(self).store.kind,
    {
        self.bridge.create_deferred(&mut self.store, resolver, rejecter)
    }

    /// Create a deferred result and spawn the task that will settle it:
    /// the promise-returning spawn.  Returns the deferred's identity and
    /// the task's identity.
    pub fn spawn_promise(&mut self, task: T, resolver: V, rejecter: V) -> (ids: (usize, usize))
        requires
            old(self).wf(),
            old(self).pool.slots@.len() < usize::MAX,
            old(self).store.entries@.len() + 1 < usize::MAX,
            old(self).bridge.deferreds@.len() < usize::MAX,
        ensures
            final(self).wf(),
            ids.0 == old(self).bridge.deferreds@.len(),
            ids.1 == old(self).pool.slots@.len(),
            final(self).bridge.deferreds@ == old(self).bridge.deferreds@.push(
                Deferred {
                    resolver: old(self).store.entries@.len() as usize,
                    rejecter: (old(self).store.entries@.len() + 1) as usize,
                    settled: None,
                },
            ),
            final(self).store.entries@ == old(self).store.entries@.push(
                Entry { val: Some(resolver), count: 1u64 },
            ).push(Entry { val: Some(rejecter), count: 1u64 }),
            final(self).pool.slots@ == old(self).pool.slots@.push(
                Slot {
                    task: Some(task),
                    state: TaskState::Pending,
                    outcome: None,
                    deferred: Some(old(self).bridge.deferreds@.len() as usize),
                    reported: false,
                },
            ),
            final(self).channel.armed,
            final(self).channel.queue@ == old(self).channel.queue@.push(Invocation::RunTasks),
            final(self).notify == old(self).notify,
            final(self).bridge.log@ == old(self).bridge.log@,
            final(self).diagnostics == old(self).diagnostics,
    {
        let d: usize = self.create_deferred(resolver, rejecter);
        let id = self.spawn(task, Some(d));
        (d, id)
    }

    /// Deliver the next channel message on the host thread.
    ///
    /// * Nothing queued: nothing happens.
    /// * A marshaled release: the handle gives one count back; a release
    ///   of a dead handle is registry corruption — reported once to the
    ///   diagnostic sink and abandoned, never retried.
    /// * `RunTasks`: every unfinished task is driven as far as it can go;
    ///   each task that finished has its deferred result settled — with
    ///   its value if it completed, with its error if it failed — and its
    ///   callback handles released, while a failed fire-and-forget task is
    ///   written once to the diagnostic sink.  If no task remains
    ///   unfinished the channel is disarmed, freeing the host process to
    ///   exit; otherwise its armed state is untouched.
    pub fn dispatch(&mut self) -> (r: DispatchOutcome)
        requires
            old(self).wf(),
        ensures
            final(self).wf(),
            old(self).channel.queue@.len() == 0 ==> {
                &&& r is Idle
                &&& final(self).channel.queue@ == old(self).channel.queue@
                &&& final(self).channel.armed == old(self).channel.armed
                &&& final(self).notify == old(self).notify
                &&& final(self).pool == old(self).pool
                &&& final(self).store == old(self).store
                &&& final(self).bridge == old(self).bridge
                &&& final(self).diagnostics == old(self).diagnostics
            },
            old(self).channel.queue@.len() > 0 ==> final(self).channel.queue@ == old(self).channel.queue@.drop_first(),
            old(self).channel.queue@.len() > 0 ==> (old(self).channel.queue@[0] matches
                Invocation::Release(h) ==> {
                &&& r == (DispatchOutcome::Released {
                    handle: h,
                    was_live: old(self).store.live(h as int),
                })
                &&& final(self).store.entries@ == Store::<V>::release_applied(
                    old(self).store.entries@,
                    h as int,
                )
                &&& final(self).store.kind == old(self).store.kind
                &&& final(self).pool == old(self).pool
                &&& final(self).bridge == old(self).bridge
                &&& final(self).notify == old(self).notify
                &&& final(self).channel.armed == old(self).channel.armed
                &&& (old(self).store.live(h as int) ==> final(self).diagnostics@ == old(self).diagnostics@)
                &&& (!old(self).store.live(h as int) ==> final(self).diagnostics@ == old(self).diagnostics@.push(Failure::Bridge(ErrorKind::HandleNotFound)))
            }),
            (old(self).channel.queue@.len() > 0 && old(self).channel.queue@[0] is RunTasks) ==> {
                &&& r matches DispatchOutcome::Ran(p) && {
                    &&& p == pending_in(final(self).pool.slots@)
                    &&& (p == 0 ==> !final(self).channel.armed)
                    &&& (p > 0 ==> final(self).channel.armed == old(self).channel.armed)
                }
                &&& final(self).notify == old(self).notify
                &&& final(self).pool.slots@.len() == old(self).pool.slots@.len()
                &&& forall|i: int|
                    0 <= i < old(self).pool.slots@.len() && slot_done(
                        #[trigger] old(self).pool.slots@[i],
                    ) ==> {
                        &&& final(self).pool.slots@[i].state == old(self).pool.slots@[i].state
                        &&& final(self).pool.slots@[i].outcome == old(self).pool.slots@[i].outcome
                    }
                &&& forall|i: int|
                    0 <= i < old(self).pool.slots@.len() ==> (#[trigger] final(self).pool.slots@[i]).deferred == old(self).pool.slots@[i].deferred
                &&& forall|i: int|
                    0 <= i < final(self).pool.slots@.len() && !slot_done(
                        #[trigger] final(self).pool.slots@[i],
                    ) ==> final(self).pool.slots@[i].state is Running
                &&& final(self).bridge.deferreds@.len() == old(self).bridge.deferreds@.len()
                &&& forall|d: int|
                    0 <= d < old(self).bridge.deferreds@.len() ==> ((#[trigger] old(self).bridge.deferreds@[d]).settled matches Some(s) ==> final(self).bridge.deferreds@[d].settled == Some(s))
                &&& forall|i: int|
                    0 <= i < final(self).pool.slots@.len() && slot_done(
                        #[trigger] final(self).pool.slots@[i],
                    ) ==> (final(self).pool.slots@[i].deferred matches Some(d) ==> final(self).bridge.deferreds@[d as int].settled is Some)
                &&& final(self).bridge.log@ == old(self).bridge.log@ + settlements_due(
                    final(self).pool.slots@,
                    old(self).bridge.deferreds@,
                )
                &&& final(self).diagnostics@ == old(self).diagnostics@ + diagnostics_due(
                    final(self).pool.slots@,
                    old(self).pool.slots@,
                )
                &&& final(self).store.entries@.len() == old(self).store.entries@.len()
                &&& final(self).store.kind == old(self).store.kind
            },
    {
        let msg = self.channel.dispatch_next();
        match msg {
            None => DispatchOutcome::Idle,
            Some(Invocation::Release(h)) => {
                let was_live = self.store.release_checked(h);
                if !was_live {
                    self.diagnostics.push(Failure::Bridge(ErrorKind::HandleNotFound));
                }
                DispatchOutcome::Released { handle: h, was_live }
            },
            Some(Invocation::RunTasks) => {
                let pending = self.pool.run_until_stalled();
                let ghost mid = self.pool.slots@;
                let ghost mid_defs = self.bridge.deferreds@;
                self.settle_finished();
                proof {
                    crate::executor::lemma_pending_in_same_states(mid, self.pool.slots@);
                    lemma_settlements_due_congruent(mid, self.pool.slots@, mid_defs);
                    lemma_diagnostics_due_congruent(
                        mid,
                        mid,
                        self.pool.slots@,
                        old(self).pool.slots@,
                    );
                }
                if pending == 0 {
                    self.channel.disarm();
                }
                DispatchOutcome::Ran(pending)
            },
        }
    }

    /// The settlement pass of a dispatch: every finished task's deferred
    /// result is settled with the task's outcome, and every failed
    /// fire-and-forget task is written once to the diagnostic sink.
    fn settle_finished(&mut self)
        requires
            old(self).pool.wf(),
            old(self).store.wf(),
            old(self).bridge.wf(),
            old(self).links_wf(),
            old(self).pending_unsettled_wf(),
            forall|i: int|
                0 <= i < old(self).pool.slots@.len() && slot_done(#[trigger] old(self).pool.slots@[i])
                    ==> (old(self).pool.slots@[i].deferred matches Some(d) ==> (old(self).bridge.deferreds@[d as int].settled is Some ==> old(self).bridge.deferreds@[d as int].settled == Some(
                    settlement_of(old(self).pool.slots@[i].outcome->0),
                ))),
        ensures
            final(self).wf(),
            final(self).notify == old(self).notify,
            final(self).channel == old(self).channel,
            final(self).pool.slots@.len() == old(self).pool.slots@.len(),
            forall|i: int|
                0 <= i < old(self).pool.slots@.len() ==> {
                    &&& (#[trigger] final(self).pool.slots@[i]).task == old(self).pool.slots@[i].task
                    &&& final(self).pool.slots@[i].state == old(self).pool.slots@[i].state
                    &&& final(self).pool.slots@[i].outcome == old(self).pool.slots@[i].outcome
                    &&& final(self).pool.slots@[i].deferred == old(self).pool.slots@[i].deferred
                },
            final(self).bridge.deferreds@.len() == old(self).bridge.deferreds@.len(),
            forall|d: int|
                0 <= d < old(self).bridge.deferreds@.len() ==> ((#[trigger] old(self).bridge.deferreds@[d]).settled matches Some(s) ==> final(self).bridge.deferreds@[d].settled
                    == Some(s)),
            final(self).bridge.log@ == old(self).bridge.log@ + settlements_due(
                old(self).pool.slots@,
                old(self).bridge.deferreds@,
            ),
            final(self).diagnostics@ == old(self).diagnostics@ + diagnostics_due(
                old(self).pool.slots@,
                old(self).pool.slots@,
            ),
            final(self).store.entries@.len() == old(self).store.entries@.len(),
            final(self).store.kind == old(self).store.kind,
    {
        let ghost ps = self.pool.slots@;
        let ghost bs = self.bridge.deferreds@;
        let ghost logs = self.bridge.log@;
        let ghost diags = self.diagnostics@;
        let ghost stlen = self.store.entries@.len();
        let mut i: usize = 0;
        proof {
            assert(self.bridge.log@ =~= logs + settlements_due(ps.take(0), bs));
            assert(self.diagnostics@ =~= diags + diagnostics_due(ps.take(0), ps.take(0)));
        }
        while i < self.pool.slots.len()
            invariant
                self.pool.wf(),
                self.store.wf(),
                self.bridge.wf(),
                i <= ps.len(),
                self.pool.slots@.len() == ps.len(),
                self.bridge.deferreds@.len() == bs.len(),
                self.store.entries@.len() == stlen,
                self.store.kind == old(self).store.kind,
                self.channel == old(self).channel,
                self.notify == old(self).notify,
                self.bridge.log@ == logs + settlements_due(ps.take(i as int), bs),
                self.diagnostics@ == diags + diagnostics_due(
                    ps.take(i as int),
                    ps.take(i as int),
                ),
                forall|j: int|
                    i <= j < ps.len() && slot_done(#[trigger] self.pool.slots@[j]) ==> (
                    self.pool.slots@[j].deferred matches Some(d) ==> (
                    self.bridge.deferreds@[d as int].settled is Some ==> bs[d as int].settled
                        is Some)),
                forall|j: int|
                    0 <= j < ps.len() ==> {
                        &&& (#[trigger] self.pool.slots@[j]).task == ps[j].task
                        &&& self.pool.slots@[j].state == ps[j].state
                        &&& self.pool.slots@[j].outcome == ps[j].outcome
                        &&& self.pool.slots@[j].deferred == ps[j].deferred
                    },
                forall|j: int|
                    i <= j < ps.len() ==> (#[trigger] self.pool.slots@[j]).reported
                        == ps[j].reported,
                forall|j: int|
                    0 <= j < ps.len() ==> ((#[trigger] ps[j]).reported
                        ==> self.pool.slots@[j].reported),
                forall|d: int|
                    0 <= d < bs.len() ==> {
                        &&& (#[trigger] self.bridge.deferreds@[d]).resolver == bs[d].resolver
                        &&& self.bridge.deferreds@[d].rejecter == bs[d].rejecter
                    },
                forall|d: int|
                    0 <= d < bs.len() ==> ((#[trigger] bs[d]).settled matches Some(s)
                        ==> self.bridge.deferreds@[d].settled == Some(s)),
                self.links_wf(),
                self.pending_unsettled_wf(),
                forall|j: int|
                    0 <= j < ps.len() && slot_done(#[trigger] self.pool.slots@[j]) ==> (
                    self.pool.slots@[j].deferred matches Some(d) ==> (
                    self.bridge.deferreds@[d as int].settled is Some
                        ==> self.bridge.deferreds@[d as int].settled == Some(
                        settlement_of(self.pool.slots@[j].outcome->0),
                    ))),
                forall|j: int|
                    0 <= j < i && slot_done(#[trigger] self.pool.slots@[j]) ==> (
                    self.pool.slots@[j].deferred matches Some(d)
                        ==> self.bridge.deferreds@[d as int].settled == Some(
                        settlement_of(self.pool.slots@[j].outcome->0),
                    )),
                forall|j: int|
                    0 <= j < i && (#[trigger] self.pool.slots@[j]).state is Failed
                        && self.pool.slots@[j].deferred is None ==> self.pool.slots@[j].reported,
            decreases ps.len() - i,
        {
            let is_done = match self.pool.slots[i].state {
                TaskState::Completed => true,
                TaskState::Failed => true,
                TaskState::Pending => false,
                TaskState::Running => false,
            };
            if is_done {
                let out = match self.pool.slots[i].outcome {
                    Some(o) => o,
                    None => vstd::pervasive::unreached(),
                };
                match self.pool.slots[i].deferred {
                    Some(d) => {
                        let unsettled = match self.bridge.deferreds[d].settled {
                            None => true,
                            Some(_) => false,
                        };
                        if unsettled {
                            self.bridge.settle(&mut self.store, d, out);
                        }
                    },
                    None => {
                        let failed = match self.pool.slots[i].state {
                            TaskState::Failed => true,
                            _ => false,
                        };
                        if failed && !self.pool.slots[i].reported {
                            let e = match out {
                                Err(e) => e,
                                Ok(_) => vstd::pervasive::unreached(),
                            };
                            self.diagnostics.push(e);
                            let slot = &mut self.pool.slots[i];
                            slot.reported = true;
                        }
                    },
                }
            }
            proof {
                lemma_settlements_due_take_step(ps, bs, i as int);
                lemma_diagnostics_due_take_step(ps, i as int);
                assert(self.bridge.log@ =~= logs + settlements_due(ps.take(i as int + 1), bs));
                assert(self.diagnostics@ =~= diags + diagnostics_due(
                    ps.take(i as int + 1),
                    ps.take(i as int + 1),
                ));
            }
            i = i + 1;
        }
        proof {
            assert(ps.take(ps.len() as int) =~= ps);
        }
    }

    /// Write one failure of the bridging machinery to the diagnostic sink.
    /// Such a failure — the host refusing a dispatch, above all — is fatal
    /// to its in-flight operation: it is reported here once and the
    /// operation is abandoned, never retried.
    pub fn report_failure(&mut self, f: Failure)
        requires
            old(self).wf(),
        ensures
            final(self).wf(),
            final(self).diagnostics@ == old(self).diagnostics@.push(f),
            final(self).notify == old(self).notify,
            final(self).channel == old(self).channel,
            final(self).pool == old(self).pool,
            final(self).store == old(self).store,
            final(self).bridge == old(self).bridge,
    {
        self.diagnostics.push(f);
    }
}

/// The settlements one slot owes at the start of a settlement pass: a
/// finished task linked to a still-unsettled deferred settles it with
/// exactly the task's outcome; every other slot owes none.
pub open spec fn settlement_contribution<T>(s: Slot<T>, deferreds: Seq<Deferred>) -> Seq<
    (usize, Settlement),
> {
    if slot_done(s) {
        match (s.deferred, s.outcome) {
            (Some(d), Some(r)) => if d < deferreds.len() && deferreds[d as int].settled is None {
                seq![(d, settlement_of(r))]
            } else {
                Seq::empty()
            },
            _ => Seq::empty(),
        }
    } else {
        Seq::empty()
    }
}

/// Exactly what a settlement pass appends to the settlement log: the
/// settlements the slots owe, in slot order.  `deferreds` is the bridge
/// state at the start of the pass.
pub open spec fn settlements_due<T>(slots: Seq<Slot<T>>, deferreds: Seq<Deferred>) -> Seq<
    (usize, Settlement),
>
    decreases slots.len(),
{
    if slots.len() == 0 {
        Seq::empty()
    } else {
        settlements_due(slots.drop_last(), deferreds) + settlement_contribution(
            slots.last(),
            deferreds,
        )
    }
}

/// The diagnostic one slot owes at the start of a settlement pass: a
/// failed task with no deferred result, not yet reported, owes its error;
/// every other slot owes none.
pub open spec fn diagnostic_contribution<T>(s: Slot<T>, already_reported: bool) -> Seq<Failure> {
    if s.state is Failed && s.deferred is None && !already_reported {
        match s.outcome {
            Some(Err(f)) => seq![f],
            _ => Seq::empty(),
        }
    } else {
        Seq::empty()
    }
}

/// Exactly what a settlement pass appends to the diagnostic sink: the
/// errors of the slots' unreported fire-and-forget failures, in slot
/// order.  `now` gives each slot's state and outcome; `before` gives
/// whether it was already reported at the start of the pass.
pub open spec fn diagnostics_due<T>(now: Seq<Slot<T>>, before: Seq<Slot<T>>) -> Seq<Failure>
    decreases now.len(),
{
    if now.len() == 0 || now.len() != before.len() {
        Seq::empty()
    } else {
        diagnostics_due(now.drop_last(), before.drop_last()) + diagnostic_contribution(
            now.last(),
            before.last().reported,
        )
    }
}

proof fn lemma_settlements_due_take_step<T>(slots: Seq<Slot<T>>, deferreds: Seq<Deferred>, i: int)
    requires
        0 <= i < slots.len(),
    ensures
        settlements_due(slots.take(i + 1), deferreds) == settlements_due(slots.take(i), deferreds)
            + settlement_contribution(slots[i], deferreds),
{
    assert(slots.take(i + 1).drop_last() =~= slots.take(i));
    assert(slots.take(i + 1).last() == slots[i]);
}

proof fn lemma_diagnostics_due_take_step<T>(slots: Seq<Slot<T>>, i: int)
    requires
        0 <= i < slots.len(),
    ensures
        diagnostics_due(slots.take(i + 1), slots.take(i + 1)) == diagnostics_due(
            slots.take(i),
            slots.take(i),
        ) + diagnostic_contribution(slots[i], slots[i].reported),
{
    assert(slots.take(i + 1).drop_last() =~= slots.take(i));
    assert(slots.take(i + 1).last() == slots[i]);
}

/// What a pass owes in settlements reads only each slot's state, link and
/// outcome, never its report mark.
proof fn lemma_settlements_due_congruent<T>(
    a: Seq<Slot<T>>,
    b: Seq<Slot<T>>,
    deferreds: Seq<Deferred>,
)
    requires
        a.len() == b.len(),
        forall|i: int|
            0 <= i < a.len() ==> {
                &&& (#[trigger] a[i]).state == b[i].state
                &&& a[i].deferred == b[i].deferred
                &&& a[i].outcome == b[i].outcome
            },
    ensures
        settlements_due(a, deferreds) == settlements_due(b, deferreds),
    decreases a.len(),
{
    if a.len() > 0 {
        lemma_settlements_due_congruent(a.drop_last(), b.drop_last(), deferreds);
        assert(settlement_contribution(a.last(), deferreds) == settlement_contribution(
            b.last(),
            deferreds,
        ));
    }
}

/// What a pass owes in diagnostics reads each slot's state, link and
/// outcome from `now` and only the report mark from `before`.
proof fn lemma_diagnostics_due_congruent<T>(
    a_now: Seq<Slot<T>>,
    a_before: Seq<Slot<T>>,
    b_now: Seq<Slot<T>>,
    b_before: Seq<Slot<T>>,
)
    requires
        a_now.len() == a_before.len(),
        b_now.len() == b_before.len(),
        a_now.len() == b_now.len(),
        forall|i: int|
            0 <= i < a_now.len() ==> {
                &&& (#[trigger] a_now[i]).state == b_now[i].state
                &&& a_now[i].deferred == b_now[i].deferred
                &&& a_now[i].outcome == b_now[i].outcome
            },
        forall|i: int|
            0 <= i < a_before.len() ==> (#[trigger] a_before[i]).reported == b_before[i].reported,
    ensures
        diagnostics_due(a_now, a_before) == diagnostics_due(b_now, b_before),
    decreases a_now.len(),
{
    if a_now.len() > 0 {
        lemma_diagnostics_due_congruent(
            a_now.drop_last(),
            a_before.drop_last(),
            b_now.drop_last(),
            b_before.drop_last(),
        );
        assert(diagnostic_contribution(a_now.last(), a_before.last().reported)
            == diagnostic_contribution(b_now.last(), b_before.last().reported));
    }
}

} // verus!
