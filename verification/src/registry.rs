//! The reference-counted lifetime registry.
//!
//! The host runtime reclaims an object the moment the call that produced it
//! returns, unless something keeps a strong reference.  The registry is that
//! something: a process-wide, append-only store of host objects, each under
//! an integer handle with a strong-reference count.  An entry lives from
//! `acquire` until its count reaches zero; while it lives, the host
//! collector must not reclaim the object.
//!
//! Handle space is append-only: a slot is never compacted away (compaction
//! would shift every other handle) and never reused.  Releasing the last
//! count replaces the slot's value with a tombstone and leaves the slot in
//! place, so a later lookup of the dead handle fails with
//! [`ErrorKind::HandleNotFound`] instead of reading a stranger's object.
//!
//! All mutation happens on the host thread; a worker thread that must
//! release a handle marshals the release through the host invocation
//! channel instead (see [`crate::runtime`]).

use vstd::prelude::*;

use crate::errors::ErrorKind;

verus! {

/// The kind of host object the registry's backing store is rooted in.
#[derive(Clone, Copy, PartialEq, Eq, Structural, Debug)]
pub enum RootObjectType {
    Object,
    Array,
}

/// One slot of the registry: the stored object, or a tombstone once the
/// count has reached zero.
#[derive(PartialEq, Eq, Debug)]
pub struct Entry<V> {
    /// The stored object; `None` is the tombstone.
    pub val: Option<V>,
    /// Strong references still outstanding.
    pub count: u64,
}

/// The registry: a growable store whose indices are the handles.
#[derive(PartialEq, Eq, Debug)]
pub struct Store<V> {
    /// What the backing store is rooted in on the host side.
    pub kind: RootObjectType,
    /// The slots, handle `h` at index `h`; never compacted.
    pub entries: Vec<Entry<V>>,
}

impl<V> Store<V> {
    /// A slot holds an object exactly while references to it are
    /// outstanding.
    pub open spec fn wf(self) -> bool {
        forall|h: int|
            0 <= h < self.entries@.len() ==> ((#[trigger] self.entries@[h].count > 0)
                <==> self.entries@[h].val is Some)
    }

    /// A handle is live: issued, and its count has not reached zero.
    pub open spec fn live(self, h: int) -> bool {
        0 <= h < self.entries@.len() && self.entries@[h].count > 0
    }

    /// The counts of all issued handles, in handle order.
    pub open spec fn counts(self) -> Seq<int> {
        self.entries@.map_values(|e: Entry<V>| e.count as int)
    }

    /// An empty registry rooted in a host object of the given kind.
    pub fn new(kind: RootObjectType) -> (r: Store<V>)
        ensures
            r.wf(),
            r.entries@.len() == 0,
            r.kind == kind,
    {
        Store { kind, entries: Vec::new() }
    }

    /// How many handles have ever been issued.
    pub fn issued(&self) -> (n: usize)
        ensures
            n == self.entries@.len(),
    {
        self.entries.len()
    }

    /// The count of a handle; `None` if the handle was never issued.
    pub fn count_of(&self, h: usize) -> (r: Option<u64>)
        ensures
            h < self.entries@.len() ==> r == Some(self.entries@[h as int].count),
            h >= self.entries@.len() ==> r is None,
    {
        if h < self.entries.len() {
            Some(self.entries[h].count)
        } else {
            None
        }
    }

    /// Store `v` under a fresh handle with count 1.  Handles are issued in
    /// order: the fresh handle is the number of handles issued before it.
    /// Must run on the host thread.
    pub fn acquire(&mut self, v: V) -> (h: usize)
        requires
            old(self).wf(),
            old(self).entries@.len() < usize::MAX,
        ensures
            final(self).wf(),
            h == old(self).entries@.len(),
            final(self).entries@ == old(self).entries@.push(
                Entry { val: Some(v), count: 1u64 },
            ),
            final(self).counts() == old(self).counts().push(1),
            final(self).live(h as int),
            final(self).kind == old(self).kind,
    {
        let h: usize = self.entries.len();
        self.entries.push(Entry { val: Some(v), count: 1 });
        proof {
            assert(self.counts() =~= old(self).counts().push(1));
        }
        h
    }

    /// Add one strong reference to a live handle; the caller now owns one
    /// more release.
    pub fn retain(&mut self, h: usize)
        requires
            old(self).wf(),
            old(self).live(h as int),
            old(self).entries@[h as int].count < u64::MAX,
        ensures
            final(self).wf(),
            final(self).entries@ == old(self).entries@.update(
                h as int,
                Entry {
                    val: old(self).entries@[h as int].val,
                    count: (old(self).entries@[h as int].count + 1) as u64,
                },
            ),
            final(self).counts() == old(self).counts().update(
                h as int,
                old(self).counts()[h as int] + 1,
            ),
            final(self).live(h as int),
            final(self).kind == old(self).kind,
    {
        let e = &mut self.entries[h];
        e.count = e.count + 1;
        proof {
            assert(self.entries@[h as int].val == old(self).entries@[h as int].val);
            assert(self.entries@ =~= old(self).entries@.update(
                h as int,
                Entry {
                    val: old(self).entries@[h as int].val,
                    count: (old(self).entries@[h as int].count + 1) as u64,
                },
            ));
            assert(self.counts() =~= old(self).counts().update(
                h as int,
                old(self).counts()[h as int] + 1,
            ));
        }
    }

    /// The live object under `h`, or `HandleNotFound` exactly when the
    /// handle was never issued or its count has reached zero
    /// (use-after-release).
    pub fn lookup(&self, h: usize) -> (r: Result<&V, ErrorKind>)
        requires
            self.wf(),
        ensures
            r is Ok <==> self.live(h as int),
            r matches Ok(v) ==> Some(*v) == self.entries@[h as int].val,
            r matches Err(e) ==> e == ErrorKind::HandleNotFound,
    {
        if h < self.entries.len() && self.entries[h].count > 0 {
            match &self.entries[h].val {
                Some(v) => Ok(v),
                None => Err(ErrorKind::HandleNotFound),
            }
        } else {
            Err(ErrorKind::HandleNotFound)
        }
    }

    /// Give back one strong reference of a live handle.  At count zero the
    /// slot becomes a tombstone: the object is dropped and the handle is
    /// dead from now on.  Must run on the host thread; a worker thread
    /// sends [`crate::channel::Invocation::Release`] instead.
    pub fn release(&mut self, h: usize)
        requires
            old(self).wf(),
            old(self).live(h as int),
        ensures
            final(self).wf(),
            final(self).entries@ == old(self).entries@.update(
                h as int,
                Entry {
                    val: if old(self).entries@[h as int].count == 1 {
                        None
                    } else {
                        old(self).entries@[h as int].val
                    },
                    count: (old(self).entries@[h as int].count - 1) as u64,
                },
            ),
            final(self).counts() == old(self).counts().update(
                h as int,
                old(self).counts()[h as int] - 1,
            ),
            final(self).live(h as int) <==> old(self).entries@[h as int].count > 1,
            final(self).kind == old(self).kind,
    {
        let e = &mut self.entries[h];
        e.count = e.count - 1;
        if e.count == 0 {
            e.val = None;
        }
        proof {
            assert(self.entries@ =~= old(self).entries@.update(
                h as int,
                Entry {
                    val: if old(self).entries@[h as int].count == 1 {
                        None
                    } else {
                        old(self).entries@[h as int].val
                    },
                    count: (old(self).entries@[h as int].count - 1) as u64,
                },
            ));
            assert(self.counts() =~= old(self).counts().update(
                h as int,
                old(self).counts()[h as int] - 1,
            ));
        }
    }

    /// What a release-if-live leaves of the slots: one count fewer under
    /// `h`, with a tombstone at zero; unissued and dead handles change
    /// nothing.
    pub open spec fn release_applied(entries: Seq<Entry<V>>, h: int) -> Seq<Entry<V>> {
        if 0 <= h < entries.len() && entries[h].count > 0 {
            entries.update(
                h,
                Entry {
                    val: if entries[h].count == 1 {
                        None
                    } else {
                        entries[h].val
                    },
                    count: (entries[h].count - 1) as u64,
                },
            )
        } else {
            entries
        }
    }

    /// Release if the handle is still live; report whether it was.  The
    /// bridging machinery uses this on marshaled releases, where a corrupt
    /// or doubly-sent message must be reported and abandoned, not retried.
    pub fn release_checked(&mut self, h: usize) -> (was_live: bool)
        requires
            old(self).wf(),
        ensures
            final(self).wf(),
            was_live == old(self).live(h as int),
            final(self).entries@ == Store::release_applied(old(self).entries@, h as int),
            final(self).kind == old(self).kind,
    {
        if h < self.entries.len() && self.entries[h].count > 0 {
            self.release(h);
            true
        } else {
            false
        }
    }
}

/// One operation of a registry history, for reasoning about whole
/// histories.  `Acquire` issues the next handle in order; `Retain` and
/// `Release` name the handle they touch.
pub enum RegOp {
    Acquire,
    Retain(int),
    Release(int),
}

/// A handle is live in a sequence of counts.
pub open spec fn live_counts(counts: Seq<int>, h: int) -> bool {
    0 <= h < counts.len() && counts[h] > 0
}

/// How one operation steps the counts.  This is exactly how the executable
/// operations step [`Store::counts`]: `acquire` pushes a fresh count of 1,
/// `retain` adds one, `release` takes one away.
pub open spec fn reg_apply(counts: Seq<int>, op: RegOp) -> Seq<int> {
    match op {
        RegOp::Acquire => counts.push(1),
        RegOp::Retain(h) => counts.update(h, counts[h] + 1),
        RegOp::Release(h) => counts.update(h, counts[h] - 1),
    }
}

/// The counts after a whole history, starting from an empty registry.
pub open spec fn reg_run(ops: Seq<RegOp>) -> Seq<int>
    decreases ops.len(),
{
    if ops.len() == 0 {
        Seq::empty()
    } else {
        reg_apply(reg_run(ops.drop_last()), ops.last())
    }
}

/// A history is well formed when every retain and release touches a handle
/// that is live at that moment — what the executable operations' `requires`
/// demand of their callers.
pub open spec fn reg_wf(ops: Seq<RegOp>) -> bool
    decreases ops.len(),
{
    if ops.len() == 0 {
        true
    } else {
        reg_wf(ops.drop_last()) && match ops.last() {
            RegOp::Acquire => true,
            RegOp::Retain(h) => live_counts(reg_run(ops.drop_last()), h),
            RegOp::Release(h) => live_counts(reg_run(ops.drop_last()), h),
        }
    }
}

/// How many operations of the history granted a reference to handle `h`:
/// the acquire that issued it plus every retain of it.
pub open spec fn grabs(ops: Seq<RegOp>, h: int) -> int
    decreases ops.len(),
{
    if ops.len() == 0 {
        0
    } else {
        grabs(ops.drop_last(), h) + (match ops.last() {
            RegOp::Acquire => if reg_run(ops.drop_last()).len() == h {
                1int
            } else {
                0int
            },
            RegOp::Retain(g) => if g == h {
                1int
            } else {
                0int
            },
            RegOp::Release(_) => 0int,
        })
    }
}

/// How many operations of the history released handle `h`.
pub open spec fn releases(ops: Seq<RegOp>, h: int) -> int
    decreases ops.len(),
{
    if ops.len() == 0 {
        0
    } else {
        releases(ops.drop_last(), h) + (match ops.last() {
            RegOp::Release(g) => if g == h {
                1int
            } else {
                0int
            },
            _ => 0int,
        })
    }
}

/// A handle not yet issued has been granted and released by nothing.
proof fn lemma_unissued_untouched(ops: Seq<RegOp>, h: int)
    requires
        reg_wf(ops),
        h >= reg_run(ops).len(),
    ensures
        grabs(ops, h) == 0,
        releases(ops, h) == 0,
    decreases ops.len(),
{
    if ops.len() > 0 {
        let front = ops.drop_last();
        match ops.last() {
            RegOp::Acquire => {
                lemma_unissued_untouched(front, h);
            },
            RegOp::Retain(g) => {
                lemma_unissued_untouched(front, h);
            },
            RegOp::Release(g) => {
                lemma_unissued_untouched(front, h);
            },
        }
    }
}

/// Refcount correctness: in every well-formed history, the count of an
/// issued handle is exactly the references granted minus the releases, and
/// the handle is live — `lookup` succeeds — precisely while the releases
/// observed so far are fewer than the acquire and retains observed so far.
pub proof fn lemma_refcount_correctness(ops: Seq<RegOp>, h: int)
    requires
        reg_wf(ops),
        0 <= h < reg_run(ops).len(),
    ensures
        reg_run(ops)[h] == grabs(ops, h) - releases(ops, h),
        live_counts(reg_run(ops), h) <==> releases(ops, h) < grabs(ops, h),
    decreases ops.len(),
{
    let front = ops.drop_last();
    match ops.last() {
        RegOp::Acquire => {
            if h == reg_run(front).len() {
                lemma_unissued_untouched(front, h);
            } else {
                lemma_refcount_correctness(front, h);
            }
        },
        RegOp::Retain(g) => {
            lemma_refcount_correctness(front, h);
        },
        RegOp::Release(g) => {
            lemma_refcount_correctness(front, h);
        },
    }
}

} // verus!
