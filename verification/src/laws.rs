//! General properties of the lock-acquisition protocol, stated and proved
//! over the same spec functions that the executable contracts use.
//!
//! The protocol is modeled as a transition system: [`ProtocolState`] is the
//! abstract state of one mutex together with the number of outstanding
//! guards, and each [`ProtocolStep`] is the state change that the contract
//! of one executable operation describes. The laws quantify over every
//! sequence of enabled steps, so they hold of every interleaving of
//! `lock`/`try_lock`/`poll`/`release` calls on one mutex.

use vstd::prelude::*;

use crate::mutex::Mutex;
use crate::registry::distinct_ids;
use crate::registry::has_id;
use crate::registry::id_index;
use crate::registry::register_spec;
use crate::registry::WaiterEntry;

verus! {

/// Under distinct identifiers, the position of an identifier is the only
/// one carrying it.
pub proof fn lemma_id_index_is(s: Seq<WaiterEntry>, id: u32, j: int)
    requires
        distinct_ids(s),
        0 <= j < s.len(),
        s[j].id == id,
    ensures
        has_id(s, id),
        id_index(s, id) == j,
{
    assert(has_id(s, id));
    let w = id_index(s, id);
    assert(0 <= w < s.len() && s[w].id == id);
    if w < j {
        assert(s[w].id != s[j].id);
    }
    if j < w {
        assert(s[j].id != s[w].id);
    }
}

/// Registration never disturbs distinctness of the identifiers: a present
/// identifier is replaced in place, an absent one is appended.
pub proof fn lemma_register_preserves_distinct(s: Seq<WaiterEntry>, id: u32, token: u64)
    requires
        distinct_ids(s),
    ensures
        distinct_ids(register_spec(s, id, token)),
{
    let t = register_spec(s, id, token);
    if has_id(s, id) {
        let w = id_index(s, id);
        assert(0 <= w < s.len() && s[w].id == id);
        assert forall|i: int, j: int| 0 <= i < j < t.len() implies t[i].id != t[j].id by {
            assert(s[i].id != s[j].id);
        }
    } else {
        assert forall|i: int, j: int| 0 <= i < j < t.len() implies t[i].id != t[j].id by {
            if j < s.len() {
                assert(s[i].id != s[j].id);
            } else {
                assert(s[i].id != id);
            }
        }
    }
}

/// A registry grows only when the identifier is new: registering a present
/// identifier leaves the size unchanged.
pub proof fn lemma_register_len(s: Seq<WaiterEntry>, id: u32, token: u64)
    ensures
        has_id(s, id) ==> register_spec(s, id, token).len() == s.len(),
        !has_id(s, id) ==> register_spec(s, id, token).len() == s.len() + 1,
{
}

/// Re-registration idempotence: a request that registers twice under its
/// one identifier, as a request polled twice before success does, leaves
/// exactly the registry that a single registration with the later token
/// leaves. In particular the registry's size does not grow with repeated
/// polls of the same request, and the entry's position is preserved.
pub proof fn lemma_reregistration_idempotent(s: Seq<WaiterEntry>, id: u32, t1: u64, t2: u64)
    requires
        distinct_ids(s),
    ensures
        register_spec(register_spec(s, id, t1), id, t2) == register_spec(s, id, t2),
{
    let s1 = register_spec(s, id, t1);
    lemma_register_preserves_distinct(s, id, t1);
    if has_id(s, id) {
        let w = id_index(s, id);
        assert(0 <= w < s.len() && s[w].id == id);
        assert(s1 == s.update(w, WaiterEntry { id, token: t1 }));
        lemma_id_index_is(s1, id, w);
        assert(register_spec(s1, id, t2) =~= register_spec(s, id, t2));
    } else {
        let w = s.len() as int;
        assert(s1 == s.push(WaiterEntry { id, token: t1 }));
        assert(s1[w].id == id);
        lemma_id_index_is(s1, id, w);
        assert(register_spec(s1, id, t2) =~= register_spec(s, id, t2));
    }
}

/// The order in which successive releases hand the queued waiters out, when
/// no new registration interleaves: each release takes the entry at the
/// end, so the drain visits the sequence back to front.
pub open spec fn drain_order(w: Seq<WaiterEntry>) -> Seq<WaiterEntry>
    decreases w.len(),
{
    if w.len() == 0 {
        Seq::<WaiterEntry>::empty()
    } else {
        seq![w.last()] + drain_order(w.drop_last())
    }
}

/// Order policy: with waiters registered in some order against a held lock,
/// sequential releases wake them in exactly the reverse of that order —
/// last registered, first woken.
pub proof fn lemma_wake_order(w: Seq<WaiterEntry>)
    ensures
        drain_order(w).len() == w.len(),
        forall|k: int| 0 <= k < w.len() ==> drain_order(w)[k] == w[w.len() - 1 - k],
    decreases w.len(),
{
    if w.len() > 0 {
        lemma_wake_order(w.drop_last());
        let d = drain_order(w);
        assert forall|k: int| 0 <= k < w.len() implies d[k] == w[w.len() - 1 - k] by {
            if k == 0 {
                assert(d[0] == w.last());
            } else {
                assert(d[k] == drain_order(w.drop_last())[k - 1]);
                assert(drain_order(w.drop_last())[k - 1] == w.drop_last()[w.len() - 1 - k]);
            }
        }
    }
}

/// Eventual acquisition, in its bounded form: every waiter queued on a
/// fully contended mutex is handed out by some release within as many
/// releases as there are waiters, provided every guard is released and no
/// new waiter registers meanwhile. (The unbounded temporal form — under
/// fresh contention a waiter may be overtaken arbitrarily often by later
/// registrations, since the policy is last-registered-first-woken — is not
/// claimed.)
pub proof fn lemma_eventual_wake(w: Seq<WaiterEntry>, i: int)
    requires
        0 <= i < w.len(),
    ensures
        exists|k: int| 0 <= k < drain_order(w).len() && drain_order(w)[k] == w[i],
{
    lemma_wake_order(w);
    assert(drain_order(w)[w.len() - 1 - i] == w[i]);
}

/// One abstract state of the protocol: whether the store is held, how many
/// guards are outstanding, and the queued waiters in registration order.
#[verifier::ext_equal]
pub struct ProtocolState {
    pub held: bool,
    pub guards: nat,
    pub waiters: Seq<WaiterEntry>,
}

/// The observable transitions of one mutex. Each is exactly the state
/// change that the contract of one executable operation describes:
/// `Acquire` is `Mutex::try_lock` or `LockFuture::poll` finding the store
/// free, `Register` is `LockFuture::poll` finding it held, `Probe` is
/// `Mutex::try_lock` finding it held, and `Release` is
/// `MutexRef::release`.
pub enum ProtocolStep {
    Acquire,
    Register { id: u32, token: u64 },
    Probe,
    Release,
}

/// A fresh mutex: store free, no guard, no waiter.
pub open spec fn protocol_init(s: ProtocolState) -> bool {
    !s.held && s.guards == 0 && s.waiters == Seq::<WaiterEntry>::empty()
}

/// When a step can occur: a guard is created only by finding the store free,
/// and only an outstanding guard can release.
pub open spec fn step_enabled(s: ProtocolState, e: ProtocolStep) -> bool {
    match e {
        ProtocolStep::Acquire => !s.held,
        ProtocolStep::Register { id, token } => s.held,
        ProtocolStep::Probe => s.held,
        ProtocolStep::Release => s.held && s.guards > 0,
    }
}

/// The state after one step.
pub open spec fn step(s: ProtocolState, e: ProtocolStep) -> ProtocolState {
    match e {
        ProtocolStep::Acquire => ProtocolState {
            held: true,
            guards: s.guards + 1,
            waiters: s.waiters,
        },
        ProtocolStep::Register { id, token } => ProtocolState {
            held: s.held,
            guards: s.guards,
            waiters: register_spec(s.waiters, id, token),
        },
        ProtocolStep::Probe => s,
        ProtocolStep::Release => ProtocolState {
            held: false,
            guards: (s.guards - 1) as nat,
            waiters: if s.waiters.len() == 0 {
                s.waiters
            } else {
                s.waiters.drop_last()
            },
        },
    }
}

/// The state after a sequence of steps.
pub open spec fn run(s: ProtocolState, es: Seq<ProtocolStep>) -> ProtocolState
    decreases es.len(),
{
    if es.len() == 0 {
        s
    } else {
        run(step(s, es[0]), es.drop_first())
    }
}

/// Every step of the sequence is enabled in the state it runs from.
pub open spec fn trace_enabled(s: ProtocolState, es: Seq<ProtocolStep>) -> bool
    decreases es.len(),
{
    es.len() == 0 || (step_enabled(s, es[0]) && trace_enabled(step(s, es[0]), es.drop_first()))
}

/// The inductive invariant behind mutual exclusion: a guard is outstanding
/// exactly while the store is held.
pub open spec fn guard_inv(s: ProtocolState) -> bool {
    s.guards == if s.held {
        1nat
    } else {
        0nat
    }
}

proof fn lemma_step_preserves_guard_inv(s: ProtocolState, e: ProtocolStep)
    requires
        guard_inv(s),
        step_enabled(s, e),
    ensures
        guard_inv(step(s, e)),
{
}

proof fn lemma_run_preserves_guard_inv(s: ProtocolState, es: Seq<ProtocolStep>)
    requires
        guard_inv(s),
        trace_enabled(s, es),
    ensures
        guard_inv(run(s, es)),
    decreases es.len(),
{
    if es.len() > 0 {
        lemma_step_preserves_guard_inv(s, es[0]);
        lemma_run_preserves_guard_inv(step(s, es[0]), es.drop_first());
    }
}

/// A prefix of an enabled trace is itself an enabled trace.
proof fn lemma_trace_prefix(s: ProtocolState, es: Seq<ProtocolStep>, k: int)
    requires
        trace_enabled(s, es),
        0 <= k <= es.len(),
    ensures
        trace_enabled(s, es.take(k)),
    decreases k,
{
    if k > 0 {
        assert(es.take(k)[0] == es[0]);
        assert(es.take(k).drop_first() =~= es.drop_first().take(k - 1));
        lemma_trace_prefix(step(s, es[0]), es.drop_first(), k - 1);
    }
}

/// Mutual exclusion: over every sequence of enabled protocol steps from a
/// fresh mutex, at every instant — after every prefix of the trace — at
/// most one guard is outstanding.
pub proof fn lemma_mutual_exclusion(s0: ProtocolState, es: Seq<ProtocolStep>)
    requires
        protocol_init(s0),
        trace_enabled(s0, es),
    ensures
        forall|k: int| 0 <= k <= es.len() ==> #[trigger] run(s0, es.take(k)).guards <= 1,
{
    assert forall|k: int| 0 <= k <= es.len() implies #[trigger] run(s0, es.take(k)).guards
        <= 1 by {
        lemma_trace_prefix(s0, es, k);
        lemma_run_preserves_guard_inv(s0, es.take(k));
    }
}

/// The abstraction of one concrete mutex value, together with the number of
/// guards outstanding against it.
pub open spec fn abstraction<T>(m: Mutex<T>, guards: nat) -> ProtocolState {
    ProtocolState { held: m.held, guards, waiters: m.waiters() }
}

/// What `Mutex::try_lock` and `LockFuture::poll` ensure on a free store —
/// the store becomes held, a guard is produced, the registry is untouched —
/// is the model's `Acquire` step.
pub proof fn lemma_acquire_refines<T>(pre: Mutex<T>, post: Mutex<T>, guards: nat)
    requires
        !pre.held,
        post.held,
        post.waiters() == pre.waiters(),
    ensures
        step_enabled(abstraction(pre, guards), ProtocolStep::Acquire),
        abstraction(post, guards + 1) == step(abstraction(pre, guards), ProtocolStep::Acquire),
{
    assert(abstraction(post, guards + 1) =~= step(
        abstraction(pre, guards),
        ProtocolStep::Acquire,
    ));
}

/// What `LockFuture::poll` ensures on a held store — the waiter is
/// registered under its identifier, nothing else changes — is the model's
/// `Register` step.
pub proof fn lemma_register_refines<T>(
    pre: Mutex<T>,
    post: Mutex<T>,
    guards: nat,
    id: u32,
    token: u64,
)
    requires
        pre.held,
        post.held,
        post.waiters() == register_spec(pre.waiters(), id, token),
    ensures
        step_enabled(abstraction(pre, guards), ProtocolStep::Register { id, token }),
        abstraction(post, guards) == step(
            abstraction(pre, guards),
            ProtocolStep::Register { id, token },
        ),
{
    assert(abstraction(post, guards) =~= step(
        abstraction(pre, guards),
        ProtocolStep::Register { id, token },
    ));
}

/// What `Mutex::try_lock` ensures on a held store — unavailability at once
/// and no change at all — is the model's `Probe` step.
pub proof fn lemma_probe_refines<T>(pre: Mutex<T>, post: Mutex<T>, guards: nat)
    requires
        pre.held,
        post.held,
        post.waiters() == pre.waiters(),
    ensures
        step_enabled(abstraction(pre, guards), ProtocolStep::Probe),
        abstraction(post, guards) == step(abstraction(pre, guards), ProtocolStep::Probe),
{
    assert(abstraction(post, guards) =~= step(abstraction(pre, guards), ProtocolStep::Probe));
}

/// What `MutexRef::release` ensures — the store freed, the guard consumed,
/// the most recently registered waiter removed when one is queued — is the
/// model's `Release` step.
pub proof fn lemma_release_refines<T>(pre: Mutex<T>, post: Mutex<T>, guards: nat)
    requires
        pre.held,
        guards > 0,
        !post.held,
        pre.waiters().len() == 0 ==> post.waiters() == pre.waiters(),
        pre.waiters().len() > 0 ==> post.waiters() == pre.waiters().drop_last(),
    ensures
        step_enabled(abstraction(pre, guards), ProtocolStep::Release),
        abstraction(post, (guards - 1) as nat) == step(
            abstraction(pre, guards),
            ProtocolStep::Release,
        ),
{
    assert(abstraction(post, (guards - 1) as nat) =~= step(
        abstraction(pre, guards),
        ProtocolStep::Release,
    ));
}

} // verus!
