//! Error kinds of the bridging machinery.

use vstd::prelude::*;

verus! {

/// The failures the coordination core can report.
///
/// * `ChannelDispatchFailed` — the host runtime refused or could not schedule
///   a dispatch; fatal to the in-flight operation, which is abandoned.
/// * `HandleNotFound` — a registry lookup after the handle's count reached
///   zero; recoverable, propagated to the caller.
/// * `DoubleSettle` — a deferred result was asked to settle twice; a
///   programming error, unreachable through this crate's contracts.
/// * `ConversionFailed` — a task's output could not be represented in the
///   host value model; delivered as a rejection of the associated deferred
///   result.
#[derive(Clone, Copy, PartialEq, Eq, Structural, Debug)]
pub enum ErrorKind {
    ChannelDispatchFailed,
    HandleNotFound,
    DoubleSettle,
    ConversionFailed,
}

/// A task's failure outcome.  A task body fails with its own error value
/// — an arbitrary host object, carried here as its place in the host value
/// model — which the four kinds above do not enumerate; the bridging
/// machinery fails a task with one of those kinds.
#[derive(Clone, Copy, PartialEq, Eq, Structural, Debug)]
pub enum Failure {
    /// The task body's own error value.
    Body(u64),
    /// The bridging machinery failed the task.
    Bridge(ErrorKind),
}

impl ErrorKind {
    /// A short diagnostic text for the error kind.
    pub fn message(&self) -> (r: &'static str)
        ensures
            self is ChannelDispatchFailed ==> r@ == "host channel dispatch failed"@,
            self is HandleNotFound ==> r@ == "handle not found"@,
            self is DoubleSettle ==> r@ == "deferred result settled twice"@,
            self is ConversionFailed ==> r@ == "conversion to host value failed"@,
    {
        match self {
            ErrorKind::ChannelDispatchFailed => "host channel dispatch failed",
            ErrorKind::HandleNotFound => "handle not found",
            ErrorKind::DoubleSettle => "deferred result settled twice",
            ErrorKind::ConversionFailed => "conversion to host value failed",
        }
    }
}

} // verus!
