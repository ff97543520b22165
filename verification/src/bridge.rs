//! The result bridge.
//!
//! A deferred result is a host-visible promise of a future value, paired
//! with two single-use resolution callbacks — one for success, one for
//! failure.  Both callbacks are stored in the lifetime registry the moment
//! the deferred is created, so the host collector cannot reclaim them while
//! the task runs, and both are released as soon as the deferred settles.
//!
//! A deferred settles exactly once: the settle operation demands an
//! unsettled deferred, so a second settlement is a contract violation, not
//! a runtime event.  If the owning task is abandoned before completion the
//! callbacks simply stay registered until process teardown — an accepted
//! leak on abnormal abandonment, never a crash.

use vstd::prelude::*;

use crate::errors::ErrorKind;
use crate::errors::Failure;
use crate::registry::Entry;
use crate::registry::Store;

verus! {

/// How a deferred result settled.
#[derive(Clone, Copy, PartialEq, Eq, Structural, Debug)]
pub enum Settlement {
    /// The success callback was invoked with this host value.
    Resolved(u64),
    /// The failure callback was invoked with this failure.
    Rejected(Failure),
}

/// The settlement a task outcome maps to: a value resolves, an error
/// rejects.
pub open spec fn settlement_of(r: Result<u64, Failure>) -> Settlement {
    match r {
        Ok(v) => Settlement::Resolved(v),
        Err(e) => Settlement::Rejected(e),
    }
}

/// One deferred result.
#[derive(Clone, Copy, PartialEq, Eq, Structural, Debug)]
pub struct Deferred {
    /// Registry handle of the success callback.
    pub resolver: usize,
    /// Registry handle of the failure callback.
    pub rejecter: usize,
    /// How the deferred settled, once it has.
    pub settled: Option<Settlement>,
}

/// The bridge: every deferred created so far, and the settlements in the
/// order they were observed.
#[derive(PartialEq, Eq, Debug)]
pub struct Bridge {
    /// Deferred `d` at index `d`; never removed.
    pub deferreds: Vec<Deferred>,
    /// The observed settlements, oldest first.
    pub log: Vec<(usize, Settlement)>,
}

impl Bridge {
    /// Each deferred keeps its two callbacks under distinct handles.
    pub open spec fn wf(self) -> bool {
        forall|d: int|
            0 <= d < self.deferreds@.len() ==> (#[trigger] self.deferreds@[d]).resolver
                != self.deferreds@[d].rejecter
    }

    /// A bridge with no deferreds and nothing settled.
    pub fn new() -> (r: Bridge)
        ensures
            r.wf(),
            r.deferreds@.len() == 0,
            r.log@.len() == 0,
    {
        Bridge { deferreds: Vec::new(), log: Vec::new() }
    }

    /// Construct a deferred result: store its two resolution callbacks in
    /// the registry, each under a fresh handle with count 1, and record the
    /// deferred as unsettled.  Returns the deferred's identity.  Must run
    /// on the host thread.
    pub fn create_deferred<V>(&mut self, store: &mut Store<V>, resolver: V, rejecter: V) -> (d:
        usize)
        requires
            old(self).wf(),
            old(store).wf(),
            old(store).entries@.len() + 1 < usize::MAX,
            old(self).deferreds@.len() < usize::MAX,
        ensures
            final(self).wf(),
            final(store).wf(),
            d == old(self).deferreds@.len(),
            final(store).entries@ == old(store).entries@.push(
                Entry { val: Some(resolver), count: 1u64 },
            ).push(Entry { val: Some(rejecter), count: 1u64 }),
            final(self).deferreds@ == old(self).deferreds@.push(
                Deferred {
                    resolver: old(store).entries@.len() as usize,
                    rejecter: (old(store).entries@.len() + 1) as usize,
                    settled: None,
                },
            ),
            final(self).log@ == old(self).log@,
            final(store).kind == old(store).kind,
    {
        let rh: usize = store.acquire(resolver);
        let jh: usize = store.acquire(rejecter);
        let d: usize = self.deferreds.len();
        self.deferreds.push(Deferred { resolver: rh, rejecter: jh, settled: None });
        d
    }

    /// Settle a deferred with a task's outcome: record the one settlement —
    /// a resolution for a value, a rejection for an error — and release
    /// both callback handles, which the registry tombstones if this was
    /// their last count.  The deferred must still be unsettled: settling
    /// twice is a programming error this contract makes unreachable.  Must
    /// run on the host thread.
    pub fn settle<V>(&mut self, store: &mut Store<V>, d: usize, outcome: Result<u64, Failure>)
        requires
            old(self).wf(),
            old(store).wf(),
            d < old(self).deferreds@.len(),
            old(self).deferreds@[d as int].settled is None,
        ensures
            final(self).wf(),
            final(store).wf(),
            final(self).deferreds@ == old(self).deferreds@.update(
                d as int,
                Deferred {
                    resolver: old(self).deferreds@[d as int].resolver,
                    rejecter: old(self).deferreds@[d as int].rejecter,
                    settled: Some(settlement_of(outcome)),
                },
            ),
            final(self).log@ == old(self).log@.push((d, settlement_of(outcome))),
            final(store).entries@ == Store::<V>::release_applied(
                Store::<V>::release_applied(
                    old(store).entries@,
                    old(self).deferreds@[d as int].resolver as int,
                ),
                old(self).deferreds@[d as int].rejecter as int,
            ),
            final(store).kind == old(store).kind,
    {
        let resolver: usize = self.deferreds[d].resolver;
        let rejecter: usize = self.deferreds[d].rejecter;
        let s = match outcome {
            Ok(v) => Settlement::Resolved(v),
            Err(e) => Settlement::Rejected(e),
        };
        let slot = &mut self.deferreds[d];
        slot.settled = Some(s);
        proof {
            assert(self.deferreds@ =~= old(self).deferreds@.update(
                d as int,
                Deferred { resolver, rejecter, settled: Some(settlement_of(outcome)) },
            ));
        }
        self.log.push((d, s));
        let _ = store.release_checked(resolver);
        let _ = store.release_checked(rejecter);
    }
}

/// The outcome a task hands the pool once the attempt to represent its
/// native value in the host value model is in: a converted value resolves
/// the deferred; a value the host model cannot represent rejects it with
/// `ConversionFailed`; a native error rejects it with that error.  The
/// conversion attempt itself is the host boundary's business — this
/// function is verified for every answer the boundary can give.
pub fn converted_outcome(native: Result<u64, Failure>, converted: Option<u64>) -> (r: Result<
    u64,
    Failure,
>)
    ensures
        native is Ok ==> (converted matches Some(v) ==> r == Ok::<u64, Failure>(v)),
        native is Ok && converted is None ==> r == Err::<u64, Failure>(
            Failure::Bridge(ErrorKind::ConversionFailed),
        ),
        native matches Err(e) ==> r == Err::<u64, Failure>(e),
{
    match native {
        Ok(_) => match converted {
            Some(v) => Ok(v),
            None => Err(Failure::Bridge(ErrorKind::ConversionFailed)),
        },
        Err(e) => Err(e),
    }
}

/// A settlement is possible only while the deferred is unsettled; this is
/// what [`Bridge::settle`] demands of every caller.  Well-formedness of a
/// history of attempted settlements of one deferred.
pub open spec fn settle_wf(events: Seq<Settlement>) -> bool
    decreases events.len(),
{
    if events.len() == 0 {
        true
    } else {
        settle_wf(events.drop_last()) && settle_run(events.drop_last()) is None
    }
}

/// How one deferred stands after a history of settlements: the first one
/// sticks.
pub open spec fn settle_run(events: Seq<Settlement>) -> Option<Settlement>
    decreases events.len(),
{
    if events.len() == 0 {
        None
    } else if settle_run(events.drop_last()) is None {
        Some(events.last())
    } else {
        settle_run(events.drop_last())
    }
}

/// Single settlement: under the bridge's contract a deferred settles at
/// most once — no history of permitted settlements holds two — and the one
/// settlement, if any, is exactly the first event.  (That a task driven to
/// completion settles its deferred at least once is the dispatch
/// contract's business; see [`crate::runtime`].)
pub proof fn lemma_single_settlement(events: Seq<Settlement>)
    requires
        settle_wf(events),
    ensures
        events.len() <= 1,
        events.len() == 1 ==> settle_run(events) == Some(events[0]),
    decreases events.len(),
{
    if events.len() > 1 {
        let front = events.drop_last();
        lemma_single_settlement(front);
        assert(settle_run(front) is Some);
    }
}

} // verus!
