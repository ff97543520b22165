//! Single-use callables.
//!
//! A deferred result's resolution callbacks must be invoked exactly once.
//! The host side hands such a callback around as an ordinary repeatable
//! function, so the crate wraps a call-at-most-once value: the wrapped
//! function is consumed by its first call, and the contracts rule a second
//! call out instead of panicking on it.

use vstd::prelude::*;

verus! {

/// A function-like value that may be called at most once.
pub struct OnceFn<F> {
    /// The wrapped function, gone once called.
    pub f: Option<F>,
}

/// Wrap a call-once function for a caller that expects to hold it like a
/// repeatable one.  The wrapper's contracts make a second call impossible
/// rather than a runtime error.
pub fn to_fn<F>(f: F) -> (r: OnceFn<F>)
    ensures
        r.f == Some(f),
{
    OnceFn { f: Some(f) }
}

impl<F> OnceFn<F> {
    /// The single permitted call has already happened.
    pub open spec fn consumed(self) -> bool {
        self.f is None
    }

    /// Whether the wrapped function is still available to call.
    pub fn is_callable(&self) -> (r: bool)
        ensures
            r == !self.consumed(),
    {
        match self.f {
            Some(_) => true,
            None => false,
        }
    }

    /// Take the wrapped function out; at most one caller ever receives it.
    pub fn take_inner(&mut self) -> (r: Option<F>)
        ensures
            final(self).consumed(),
            r == old(self).f,
    {
        let mut g: Option<F> = None;
        core::mem::swap(&mut self.f, &mut g);
        g
    }

    /// Invoke the wrapped function, consuming it: a second call is excluded
    /// by contract, not punished at runtime.
    pub fn call_once_with<A, R>(&mut self, a: A) -> (r: R) where F: FnOnce(A) -> R
        requires
            old(self).f matches Some(g) && call_requires(g, (a,)),
        ensures
            final(self).consumed(),
            call_ensures(old(self).f->0, (a,), r),
    {
        let mut g: Option<F> = None;
        core::mem::swap(&mut self.f, &mut g);
        match g {
            Some(g) => g(a),
            None => vstd::pervasive::unreached(),
        }
    }
}

} // verus!
