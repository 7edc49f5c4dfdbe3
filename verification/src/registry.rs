//! The waiter registry: an ordered collection of pending resumption
//! callbacks, each tagged with a stable waiter identifier.
//!
//! A resumption callback is opaque to this crate; it is carried as a plain
//! `u64` token that the hosting scheduler maps back to a real wake handle.

use vstd::prelude::*;

verus! {

/// One pending waiter: a stable identifier together with the opaque
/// resumption token that, when handed back to the host scheduler, causes the
/// waiting task to be polled again.
#[derive(Clone, Copy, Debug, PartialEq, Eq, Structural)]
pub struct WaiterEntry {
    pub id: u32,
    pub token: u64,
}

/// True when some entry of `s` carries the identifier `id`.
pub open spec fn has_id(s: Seq<WaiterEntry>, id: u32) -> bool {
    exists|i: int| 0 <= i < s.len() && s[i].id == id
}

/// The position of the entry carrying `id`; meaningful only when
/// `has_id(s, id)` holds, and unique when the identifiers of `s` are
/// distinct.
pub open spec fn id_index(s: Seq<WaiterEntry>, id: u32) -> int {
    choose|i: int| 0 <= i < s.len() && s[i].id == id
}

/// No two entries of `s` carry the same identifier.
pub open spec fn distinct_ids(s: Seq<WaiterEntry>) -> bool {
    forall|i: int, j: int| 0 <= i < j < s.len() ==> s[i].id != s[j].id
}

/// What registering `(id, token)` leaves behind: the entry for `id` is
/// replaced in place when one is present, and appended at the end otherwise.
pub open spec fn register_spec(s: Seq<WaiterEntry>, id: u32, token: u64) -> Seq<WaiterEntry> {
    if has_id(s, id) {
        s.update(id_index(s, id), WaiterEntry { id, token })
    } else {
        s.push(WaiterEntry { id, token })
    }
}

/// Ordered sequence of pending waiters. New entries are appended at the end;
/// `take_one` removes from the end, so the last waiter to register is the
/// first to be woken.
#[derive(Debug)]
pub struct WaiterRegistry {
    pub entries: Vec<WaiterEntry>,
}

impl View for WaiterRegistry {
    type V = Seq<WaiterEntry>;

    open spec fn view(&self) -> Seq<WaiterEntry> {
        self.entries@
    }
}

impl WaiterRegistry {
    /// A registry with no pending waiters.
    pub fn empty() -> (r: WaiterRegistry)
        ensures
            r@ == Seq::<WaiterEntry>::empty(),
    {
        WaiterRegistry { entries: Vec::new() }
    }

    /// The number of pending waiters.
    pub fn len(&self) -> (n: usize)
        ensures
            n == self@.len(),
    {
        self.entries.len()
    }

    /// Inserts the callback token for `id`, or replaces it when `id` is
    /// already registered; in the latter case the existing position is kept,
    /// so repeated registration by one waiter never duplicates its entry.
    pub fn register(&mut self, id: u32, token: u64)
        requires
            distinct_ids(old(self)@),
        ensures
            final(self)@ == register_spec(old(self)@, id, token),
            distinct_ids(final(self)@),
    {
        let ghost s = self@;
        let n = self.entries.len();
        let mut k: usize = 0;
        while k < n
            invariant
                distinct_ids(s),
                s == old(self)@,
                n == s.len(),
                self@ == s,
                k <= n,
                forall|j: int| 0 <= j < k ==> s[j].id != id,
            decreases n - k,
        {
            if self.entries[k].id == id {
                self.entries.set(k, WaiterEntry { id, token });
                proof {
                    assert(has_id(s, id));
                    let w = id_index(s, id);
                    assert(0 <= w < s.len() && s[w].id == id);
                    if w < k {
                        assert(s[w].id != id);
                    }
                    if k < w {
                        assert(distinct_ids(s));
                        assert(s[k as int].id != s[w].id);
                    }
                    assert(w == k);
                    assert(self@ =~= register_spec(s, id, token));
                    assert forall|i: int, j: int|
                        0 <= i < j < self@.len() implies self@[i].id != self@[j].id by {
                        assert(s[i].id != s[j].id);
                    }
                }
                return;
            }
            k = k + 1;
        }
        self.entries.push(WaiterEntry { id, token });
        proof {
            assert(!has_id(s, id));
            assert(self@ =~= register_spec(s, id, token));
            assert forall|i: int, j: int|
                0 <= i < j < self@.len() implies self@[i].id != self@[j].id by {
                if j < s.len() {
                    assert(s[i].id != s[j].id);
                } else {
                    assert(s[i].id != id);
                }
            }
        }
    }

    /// Removes and returns one pending waiter, the most recently registered
    /// one, or returns nothing when the registry is empty.
    pub fn take_one(&mut self) -> (r: Option<WaiterEntry>)
        ensures
            old(self)@.len() == 0 ==> r is None && final(self)@ == old(self)@,
            old(self)@.len() > 0 ==> r == Some(old(self)@.last()) && final(self)@ == old(
                self,
            )@.drop_last(),
    {
        let r = self.entries.pop();
        proof {
            if old(self)@.len() > 0 {
                assert(self@ =~= old(self)@.drop_last());
            }
        }
        r
    }
}

} // verus!
