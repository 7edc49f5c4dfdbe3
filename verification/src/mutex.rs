//! The mutex itself: a protected payload behind a held/free store, the
//! suspendable lock request, and the guard that releases the store and wakes
//! one queued waiter.

use vstd::prelude::*;

use crate::registry::distinct_ids;
use crate::registry::register_spec;
use crate::registry::WaiterEntry;
use crate::registry::WaiterRegistry;

verus! {

/// A cooperative mutual-exclusion primitive.
///
/// The payload lives in `value` while the store is free; a successful
/// acquisition moves it into the returned guard and marks the store held, so
/// at most one guard can carry the payload at any instant. The registry
/// holds the waiters suspended on the store, and `next_waker_id` hands each
/// new lock request a fresh, monotonically increasing identifier.
#[derive(Debug)]
pub struct Mutex<T> {
    pub value: Option<T>,
    pub held: bool,
    pub registry: WaiterRegistry,
    pub next_waker_id: u32,
}

/// An exclusive, scope-bound view of the payload, produced only by a
/// successful acquisition. Releasing it puts the payload back, frees the
/// store, and reports at most one queued waiter to resume.
#[derive(Debug)]
pub struct MutexRef<T> {
    pub value: T,
}

/// One pending acquisition attempt: a suspendable, re-pollable request that
/// carries the stable waiter identifier assigned to it at creation.
#[derive(Clone, Copy, Debug, PartialEq, Eq, Structural)]
pub struct LockFuture {
    pub waker_id: u32,
}

/// The outcome of polling a lock request: either the guard, or a report
/// that the task was left suspended with its resumption token registered.
#[derive(Debug)]
pub enum PollOutcome<T> {
    Ready(MutexRef<T>),
    Pending,
}

/// The superseded acquisition strategy for hosts that cannot deliver a true
/// resumption callback: instead of registering a waiter, the request is
/// re-attempted on a fixed external tick until the store is found free. It
/// never touches the registry.
#[derive(Clone, Copy, Debug, PartialEq, Eq, Structural)]
pub struct PollingRequest {}

/// The outcome of one tick of a polling request: either the guard, or an
/// instruction to schedule another tick.
#[derive(Debug)]
pub enum TickOutcome<T> {
    Resolved(MutexRef<T>),
    Reschedule,
}

impl<T> Mutex<T> {
    /// Well-formedness: the payload is absent exactly while the store is
    /// held, registered identifiers are pairwise distinct, and every
    /// registered identifier was assigned by the counter.
    pub open spec fn wf(&self) -> bool {
        &&& self.held <==> self.value is None
        &&& distinct_ids(self.registry@)
        &&& forall|i: int|
            0 <= i < self.registry@.len() ==> (#[trigger] self.registry@[i]).id
                < self.next_waker_id
    }

    /// The pending waiters, in registration order.
    pub open spec fn waiters(&self) -> Seq<WaiterEntry> {
        self.registry@
    }

    /// A free mutex protecting `value`, with no pending waiters.
    pub fn new(value: T) -> (r: Mutex<T>)
        ensures
            r.wf(),
            !r.held,
            r.value == Some(value),
            r.waiters() == Seq::<WaiterEntry>::empty(),
            r.next_waker_id == 0,
    {
        Mutex {
            value: Some(value),
            held: false,
            registry: WaiterRegistry::empty(),
            next_waker_id: 0,
        }
    }

    /// Begins one acquisition: assigns the request a fresh waiter identifier
    /// and returns the request. The store, the payload and the registry are
    /// untouched; the request does nothing until it is polled.
    pub fn lock(&mut self) -> (r: LockFuture)
        requires
            old(self).wf(),
            old(self).next_waker_id < u32::MAX,
        ensures
            final(self).wf(),
            r.waker_id == old(self).next_waker_id,
            r.waker_id < final(self).next_waker_id,
            final(self).next_waker_id == old(self).next_waker_id + 1,
            final(self).held == old(self).held,
            final(self).value == old(self).value,
            final(self).waiters() == old(self).waiters(),
    {
        let id = self.next_waker_id;
        self.next_waker_id = id + 1;
        LockFuture { waker_id: id }
    }

    /// The non-suspending acquisition: a single probe of the store. On a free
    /// mutex it returns the guard at once; on a held mutex it returns
    /// nothing at once, and never touches the registry.
    pub fn try_lock(&mut self) -> (r: Option<MutexRef<T>>)
        requires
            old(self).wf(),
        ensures
            final(self).wf(),
            final(self).waiters() == old(self).waiters(),
            final(self).next_waker_id == old(self).next_waker_id,
            old(self).held ==> r is None && final(self).held
                && final(self).value == old(self).value,
            !old(self).held ==> r is Some && (r->0).value == old(self).value->0
                && final(self).held && final(self).value is None,
    {
        if self.held {
            None
        } else {
            self.held = true;
            let v = self.value.take();
            Some(MutexRef::new(v.unwrap()))
        }
    }
}

impl<T: core::default::Default> core::default::Default for Mutex<T> {
    /// A free mutex protecting the payload type's default value.
    fn default() -> (r: Mutex<T>)
        ensures
            r.wf(),
            !r.held,
            r.value is Some,
            r.waiters() == Seq::<WaiterEntry>::empty(),
            r.next_waker_id == 0,
    {
        Mutex::new(T::default())
    }
}

impl<T> MutexRef<T> {
    /// Wraps an exclusively held payload as a guard.
    pub fn new(value: T) -> (r: MutexRef<T>)
        ensures
            r.value == value,
    {
        MutexRef { value }
    }

    /// Reads the payload through the guard.
    pub fn get(&self) -> (r: &T)
        ensures
            r == self.value,
    {
        &self.value
    }

    /// Replaces the payload through the guard, returning the previous one.
    pub fn replace(&mut self, value: T) -> (r: T)
        ensures
            r == old(self).value,
            final(self).value == value,
    {
        let mut v = value;
        core::mem::swap(&mut self.value, &mut v);
        v
    }

    /// Ends the exclusive access: puts the payload back, frees the store, and
    /// removes the most recently registered waiter, if any, returning it so
    /// that the caller can fire its resumption callback. Exactly one waiter
    /// is handed out per release, however many are queued.
    pub fn release(self, m: &mut Mutex<T>) -> (woken: Option<WaiterEntry>)
        requires
            old(m).wf(),
            old(m).held,
        ensures
            final(m).wf(),
            !final(m).held,
            final(m).value == Some(self.value),
            final(m).next_waker_id == old(m).next_waker_id,
            old(m).waiters().len() == 0 ==> woken is None
                && final(m).waiters() == old(m).waiters(),
            old(m).waiters().len() > 0 ==> woken == Some(old(m).waiters().last())
                && final(m).waiters() == old(m).waiters().drop_last(),
    {
        m.value = Some(self.value);
        m.held = false;
        let woken = m.registry.take_one();
        proof {
            if old(m).waiters().len() > 0 {
                assert forall|i: int, j: int|
                    0 <= i < j < m.registry@.len() implies m.registry@[i].id != m.registry@[j].id by {
                    assert(old(m).registry@[i].id != old(m).registry@[j].id);
                }
            }
        }
        woken
    }
}

impl LockFuture {
    /// One scheduling opportunity: probes the store. On a free mutex it takes
    /// the store and resolves to the guard without touching the registry; on
    /// a held mutex it installs or updates, never duplicates, the entry for
    /// its own identifier with the given resumption token, and stays
    /// pending.
    pub fn poll<T>(&self, m: &mut Mutex<T>, token: u64) -> (r: PollOutcome<T>)
        requires
            old(m).wf(),
            self.waker_id < old(m).next_waker_id,
        ensures
            final(m).wf(),
            final(m).next_waker_id == old(m).next_waker_id,
            !old(m).held ==> r is Ready && (r->Ready_0).value == old(m).value->0
                && final(m).held && final(m).value is None
                && final(m).waiters() == old(m).waiters(),
            old(m).held ==> r is Pending && final(m).held && final(m).value == old(m).value
                && final(m).waiters() == register_spec(old(m).waiters(), self.waker_id, token),
    {
        if m.held {
            m.registry.register(self.waker_id, token);
            proof {
                lemma_register_spec_ids(old(m).registry@, self.waker_id, token, m.next_waker_id);
            }
            PollOutcome::Pending
        } else {
            m.held = true;
            let v = m.value.take();
            PollOutcome::Ready(MutexRef::new(v.unwrap()))
        }
    }
}

impl PollingRequest {
    /// A polling request carries no waiter identity at all; it exists only
    /// to be ticked.
    pub fn new() -> (r: PollingRequest)
        ensures
            r == (PollingRequest {  }),
    {
        PollingRequest {  }
    }

    /// One timer tick: a single probe of the store. On a free mutex the
    /// request resolves to the guard; on a held mutex it asks to be
    /// rescheduled for the next tick. The registry and the identifier
    /// counter are never touched, in either case.
    pub fn tick<T>(&self, m: &mut Mutex<T>) -> (r: TickOutcome<T>)
        requires
            old(m).wf(),
        ensures
            final(m).wf(),
            final(m).waiters() == old(m).waiters(),
            final(m).next_waker_id == old(m).next_waker_id,
            !old(m).held ==> r is Resolved && (r->Resolved_0).value == old(m).value->0
                && final(m).held && final(m).value is None,
            old(m).held ==> r is Reschedule && final(m).held
                && final(m).value == old(m).value,
    {
        match m.try_lock() {
            Some(g) => TickOutcome::Resolved(g),
            None => TickOutcome::Reschedule,
        }
    }
}

/// Registration keeps every identifier below the counter, provided the new
/// one is below it too.
proof fn lemma_register_spec_ids(s: Seq<WaiterEntry>, id: u32, token: u64, bound: u32)
    requires
        forall|i: int| 0 <= i < s.len() ==> (#[trigger] s[i]).id < bound,
        id < bound,
    ensures
        forall|i: int|
            0 <= i < register_spec(s, id, token).len() ==> (#[trigger] register_spec(
                s,
                id,
                token,
            )[i]).id < bound,
{
    let t = register_spec(s, id, token);
    assert forall|i: int| 0 <= i < t.len() implies (#[trigger] t[i]).id < bound by {
        if i < s.len() && t[i] == s[i] {
            assert(s[i].id < bound);
        }
    }
}

} // verus!
