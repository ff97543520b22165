//! A single-threaded cooperative task runtime for embedding native
//! asynchronous work inside a foreign, single-threaded, garbage-collected
//! host runtime.
//!
//! Every observable effect of the system happens on the host runtime's own
//! thread.  Worker threads never touch host state directly: they fold their
//! effects into messages on a single host invocation channel.  The crate
//! verifies the coordination core:
//!
//! * [`notify`] — the wake token that a dedicated notifier thread parks on;
//!   waking is idempotent and a wake is never lost.
//! * [`channel`] — the host invocation channel: a FIFO message queue plus the
//!   armed flag that keeps the host process alive while work is pending.
//! * [`executor`] — the cooperative task pool that advances tasks only when
//!   explicitly driven, on the host thread.
//! * [`registry`] — the reference-counted lifetime registry that extends
//!   native ownership over host-owned objects.
//! * [`bridge`] — deferred results settled exactly once, as a resolution or
//!   a rejection.
//! * [`runtime`] — the composition of all of the above.
//! * [`once`] — call-at-most-once wrappers for single-use callbacks; and
//!   [`errors`] — the error kinds of the bridging machinery.

pub mod bridge;
pub mod channel;
pub mod errors;
pub mod executor;
pub mod notify;
pub mod once;
pub mod registry;
pub mod runtime;
