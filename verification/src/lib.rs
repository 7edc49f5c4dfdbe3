//! A cooperative mutual-exclusion primitive for suspendable tasks.
//!
//! A [`mutex::Mutex`] owns a protected payload, a held/free store, and an
//! ordered registry of pending waiters. A task that wants exclusive access
//! obtains a [`mutex::LockFuture`] from [`mutex::Mutex::lock`] and polls it:
//! each poll either acquires the store and yields a [`mutex::MutexRef`]
//! (the guard), or records the task's resumption token in the registry so
//! that a later release can wake it. Dropping a guard is modeled by
//! [`mutex::MutexRef::release`], which frees the store and hands back at most
//! one queued waiter to resume.

pub mod registry;
pub mod mutex;
pub mod laws;

pub use mutex::LockFuture;
pub use mutex::Mutex;
pub use mutex::MutexRef;
pub use mutex::PollOutcome;
pub use mutex::PollingRequest;
pub use mutex::TickOutcome;
pub use registry::WaiterEntry;
pub use registry::WaiterRegistry;
