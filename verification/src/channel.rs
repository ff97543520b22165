//! The host invocation channel.
//!
//! The host runtime offers exactly one primitive that is safe to call from
//! another thread: a registered callback dispatch.  Every cross-thread
//! effect of the system — waking the executor, releasing a registry handle
//! from a worker thread — is therefore a message on this channel, delivered
//! on the host thread, exactly once per message, in the order the messages
//! were issued.
//!
//! While the channel is armed it alone keeps the host process alive; once
//! the executor reports that no task remains runnable it is disarmed and the
//! process may exit.

use vstd::prelude::*;

verus! {

/// A message scheduled to run on the host runtime's thread.
#[derive(Clone, Copy, PartialEq, Eq, Structural, Debug)]
pub enum Invocation {
    /// Drive the task pool until no task can make progress.
    RunTasks,
    /// Release one reference count of the given registry handle; sent by
    /// worker threads, which must not touch the registry directly.
    Release(usize),
}

/// The channel: its armed flag and the messages not yet delivered,
/// front first.
#[derive(PartialEq, Eq, Debug)]
pub struct HostChannel {
    /// While armed, the host process must not exit.
    pub armed: bool,
    /// Messages issued and not yet dispatched, in issue order.
    pub queue: Vec<Invocation>,
}

impl HostChannel {
    /// A fresh channel: disarmed, nothing queued.
    pub fn new() -> (r: HostChannel)
        ensures
            !r.armed,
            r.queue@ == Seq::<Invocation>::empty(),
    {
        HostChannel { armed: false, queue: Vec::new() }
    }

    /// Schedule `msg` to run on the host thread.  Callable from any thread;
    /// each call is delivered exactly once, after everything already queued.
    pub fn invoke(&mut self, msg: Invocation)
        ensures
            final(self).queue@ == old(self).queue@.push(msg),
            final(self).armed == old(self).armed,
    {
        self.queue.push(msg);
    }

    /// Keep the host process alive while work may still occur.
    pub fn arm(&mut self)
        ensures
            final(self).armed,
            final(self).queue@ == old(self).queue@,
    {
        self.armed = true;
    }

    /// Let the host process exit; queued messages are still delivered.
    pub fn disarm(&mut self)
        ensures
            !final(self).armed,
            final(self).queue@ == old(self).queue@,
    {
        self.armed = false;
    }

    /// Deliver the next message: the oldest one still queued, if any.
    /// Messages leave in the order `invoke` issued them and each leaves
    /// exactly once.
    pub fn dispatch_next(&mut self) -> (r: Option<Invocation>)
        ensures
            old(self).queue@.len() == 0 ==> {
                &&& r is None
                &&& final(self).queue@ == old(self).queue@
            },
            old(self).queue@.len() > 0 ==> {
                &&& r == Some(old(self).queue@[0])
                &&& final(self).queue@ == old(self).queue@.drop_first()
            },
            final(self).armed == old(self).armed,
    {
        if self.queue.len() == 0 {
            None
        } else {
            let msg = self.queue.remove(0);
            Some(msg)
        }
    }
}

/// One operation on the channel, for reasoning about whole histories:
/// exactly the transitions of [`HostChannel::invoke`] and
/// [`HostChannel::dispatch_next`].
pub enum ChanOp {
    Invoke(Invocation),
    Dispatch,
}

/// The channel a history leaves behind: the messages still queued, and
/// the messages delivered so far, each oldest first.
pub open spec fn chan_run(ops: Seq<ChanOp>) -> (Seq<Invocation>, Seq<Invocation>)
    decreases ops.len(),
{
    if ops.len() == 0 {
        (Seq::empty(), Seq::empty())
    } else {
        let prev = chan_run(ops.drop_last());
        match ops.last() {
            ChanOp::Invoke(m) => (prev.0.push(m), prev.1),
            ChanOp::Dispatch => if prev.0.len() > 0 {
                (prev.0.drop_first(), prev.1.push(prev.0[0]))
            } else {
                prev
            },
        }
    }
}

/// The messages a history has issued, oldest first.
pub open spec fn chan_issued(ops: Seq<ChanOp>) -> Seq<Invocation>
    decreases ops.len(),
{
    if ops.len() == 0 {
        Seq::empty()
    } else {
        match ops.last() {
            ChanOp::Invoke(m) => chan_issued(ops.drop_last()).push(m),
            ChanOp::Dispatch => chan_issued(ops.drop_last()),
        }
    }
}

/// Exactly-once, in-order delivery: after any history of invokes and
/// dispatches — racing callers included, since the channel serializes
/// every cross-thread effect into one history — the messages delivered so
/// far followed by the messages still queued are exactly the messages
/// issued, in issue order.  Nothing is lost, nothing is delivered twice,
/// nothing is reordered.
pub proof fn lemma_exactly_once_delivery(ops: Seq<ChanOp>)
    ensures
        chan_run(ops).1 + chan_run(ops).0 == chan_issued(ops),
    decreases ops.len(),
{
    if ops.len() > 0 {
        let front = ops.drop_last();
        lemma_exactly_once_delivery(front);
        let q = chan_run(front).0;
        let del = chan_run(front).1;
        match ops.last() {
            ChanOp::Invoke(m) => {
                assert(del + q.push(m) =~= (del + q).push(m));
            },
            ChanOp::Dispatch => {
                if q.len() > 0 {
                    assert(del.push(q[0]) + q.drop_first() =~= del + q);
                }
            },
        }
    }
}

} // verus!
