//! A fixed-capacity publish/subscribe registry built from reference cells.
//!
//! A [`BoundedRegistry`] owns a fixed number of [`Sc`] cells, one per
//! subscriber slot. Registering a capability binds the first empty slot in
//! ascending index order and hands back a [`Registration`] guard; releasing
//! the guard frees exactly that slot for reuse. Notification visits every
//! bound slot once, in ascending index order, and skips the empty ones.
//! Slot indices are internal: callers only ever hold the guard.

use crate::cell::Locker;
use crate::cell::Sc;
use vstd::prelude::*;

verus! {

/// The bound values of the first `n` slots of `s`, in ascending slot
/// order: one entry per bound slot, nothing for an empty slot.
pub open spec fn bound_prefix<T>(s: Seq<Option<T>>, n: int) -> Seq<T>
    decreases n,
{
    if n <= 0 {
        Seq::empty()
    } else {
        let rest = bound_prefix(s, n - 1);
        match s[n - 1] {
            Some(t) => rest.push(t),
            None => rest,
        }
    }
}

/// The bound values of all slots of `s`, in ascending slot order.
pub open spec fn bound_values<T>(s: Seq<Option<T>>) -> Seq<T> {
    bound_prefix(s, s.len() as int)
}

/// The indices of the bound slots among the first `n` slots of `s`, in
/// ascending order.
pub open spec fn bound_slots_prefix<T>(s: Seq<Option<T>>, n: int) -> Seq<int>
    decreases n,
{
    if n <= 0 {
        Seq::empty()
    } else {
        let rest = bound_slots_prefix(s, n - 1);
        match s[n - 1] {
            Some(_) => rest.push(n - 1),
            None => rest,
        }
    }
}

/// The indices of all bound slots of `s`, in ascending order.
pub open spec fn bound_slots<T>(s: Seq<Option<T>>) -> Seq<int> {
    bound_slots_prefix(s, s.len() as int)
}

/// A fixed-capacity collection of reference cells used for fan-out
/// notification. Its view is the sequence of its cells' views: one
/// `Option` per slot, `Some(capability)` while the slot is bound.
pub struct BoundedRegistry<T> {
    cells: Vec<Sc<T>>,
}

/// The guard for one registration. A subscriber stays registered exactly
/// as long as its `Registration` is alive; handing it back to
/// [`BoundedRegistry::release`] is the guard's destruction and frees the
/// slot immediately.
pub struct Registration {
    slot: usize,
    guard: Locker,
}

impl Registration {
    /// The index of the slot this registration occupies.
    pub closed spec fn slot_id(self) -> int {
        self.slot as int
    }

    /// Whether this registration governs the current binding of its slot
    /// in `reg`. `register` pairs the slot index and the guard correctly,
    /// but as with [`Locker::governs`] the association is by generation
    /// count alone: a registration must be released against the registry
    /// that issued it, since one from another registry whose counts happen
    /// to coincide would satisfy this predicate as well.
    pub closed spec fn governs<T>(self, reg: BoundedRegistry<T>) -> bool {
        &&& self.slot < reg.cells@.len()
        &&& self.guard.governs(reg.cells@[self.slot as int])
    }
}

impl<T> View for BoundedRegistry<T> {
    type V = Seq<Option<T>>;

    closed spec fn view(&self) -> Seq<Option<T>> {
        self.cells@.map_values(|c: Sc<T>| c@)
    }
}

impl<T> BoundedRegistry<T> {
    /// Constructs a registry with `capacity` slots, all empty. The
    /// capacity is fixed for the registry's whole lifetime.
    pub fn new(capacity: usize) -> (r: Self)
        ensures
            r@.len() == capacity,
            forall|j: int| 0 <= j < capacity ==> r@[j] is None,
    {
        let mut cells: Vec<Sc<T>> = Vec::new();
        let mut i: usize = 0;
        while i < capacity
            invariant
                i <= capacity,
                cells@.len() == i,
                forall|j: int| 0 <= j < i ==> cells@[j]@ is None,
            decreases capacity - i,
        {
            cells.push(Sc::new());
            i += 1;
        }
        let r = BoundedRegistry { cells };
        proof {
            assert(r@.len() == capacity);
            assert forall|j: int| 0 <= j < capacity implies r@[j] is None by {
                assert(r@[j] == r.cells@[j]@);
            }
        }
        r
    }

    /// The number of slots, bound or not.
    pub fn capacity(&self) -> (r: usize)
        ensures
            r == self@.len(),
    {
        self.cells.len()
    }

    /// The index of the first empty slot, if any slot is empty.
    fn first_empty_slot(&self) -> (r: Option<usize>)
        ensures
            match r {
                Some(i) => {
                    &&& i < self@.len()
                    &&& self@[i as int] is None
                    &&& forall|j: int| 0 <= j < i ==> self@[j] is Some
                },
                None => forall|j: int| 0 <= j < self@.len() ==> self@[j] is Some,
            },
    {
        let n = self.cells.len();
        let mut i: usize = 0;
        while i < n
            invariant
                i <= n,
                n == self@.len(),
                n == self.cells@.len(),
                forall|j: int| 0 <= j < i ==> self@[j] is Some,
            decreases n - i,
        {
            if self.cells[i].is_none() {
                proof {
                    assert(self@[i as int] == self.cells@[i as int]@);
                }
                return Some(i);
            }
            proof {
                assert(self@[i as int] == self.cells@[i as int]@);
            }
            i += 1;
        }
        None
    }

    /// Registers `capability`: scans the slots in ascending index order,
    /// binds the first empty one and returns the registration guard for
    /// it. If every slot is bound — the capacity is exhausted — the
    /// capability is handed back unchanged; this is a recoverable outcome,
    /// and a later release of any registration makes room again.
    pub fn register(&mut self, capability: T) -> (r: Result<Registration, T>)
        ensures
            r is Ok <==> (exists|j: int| 0 <= j < old(self)@.len() && old(self)@[j] is None),
            match r {
                Ok(g) => {
                    &&& 0 <= g.slot_id() < old(self)@.len()
                    &&& old(self)@[g.slot_id()] is None
                    &&& forall|j: int| 0 <= j < g.slot_id() ==> old(self)@[j] is Some
                    &&& final(self)@ == old(self)@.update(g.slot_id(), Some(capability))
                    &&& g.governs(*final(self))
                    &&& forall|h: Registration|
                        h.governs(*old(self)) && h.slot_id() != g.slot_id() ==> h.governs(
                            *final(self),
                        )
                },
                Err(v) => {
                    &&& v == capability
                    &&& *final(self) == *old(self)
                },
            },
    {
        match self.first_empty_slot() {
            Some(i) => {
                let ghost cells0 = self.cells@;
                let mut guard = Locker::new();
                match guard.lock(capability, &mut self.cells[i]) {
                    Ok(_) => {
                        proof {
                            assert(self.cells@ == cells0.update(
                                i as int,
                                self.cells@[i as int],
                            ));
                            assert(self@ =~= cells0.map_values(|c: Sc<T>| c@).update(
                                i as int,
                                Some(capability),
                            ));
                        }
                        Ok(Registration { slot: i, guard })
                    },
                    Err(rejected) => {
                        proof {
                            assert(false);
                        }
                        Err(rejected)
                    },
                }
            },
            None => Err(capability),
        }
    }

    /// Releases a registration: clears exactly the slot it governed,
    /// returns the capability that was bound there, and leaves every other
    /// slot untouched. The freed slot is immediately available to a later
    /// `register`.
    pub fn release(&mut self, registration: Registration) -> (r: T)
        requires
            registration.governs(*old(self)),
        ensures
            final(self)@ == old(self)@.update(registration.slot_id(), None),
            old(self)@[registration.slot_id()] == Some(r),
            forall|h: Registration|
                h.governs(*old(self)) && h.slot_id() != registration.slot_id() ==> h.governs(
                    *final(self),
                ),
    {
        let Registration { slot, guard } = registration;
        let ghost cells0 = self.cells@;
        proof {
            assert(self@[slot as int] == self.cells@[slot as int]@);
        }
        let value = guard.release(&mut self.cells[slot]);
        proof {
            assert(self.cells@ == cells0.update(slot as int, self.cells@[slot as int]));
            assert(self@ =~= cells0.map_values(|c: Sc<T>| c@).update(slot as int, None));
        }
        value
    }

    /// Notifies every bound slot: applies `f` to each bound capability and
    /// the message, in ascending slot order, and collects the results. The
    /// returned vector has exactly one entry per bound slot — its `k`-th
    /// entry comes from the `k`-th bound slot — and no entry for an empty
    /// slot, so every bound capability is invoked exactly once and none of
    /// the unbound slots is touched.
    pub fn notify<M, U, F: Fn(&T, &M) -> U>(&self, message: &M, f: F) -> (r: Vec<U>)
        requires
            forall|j: int|
                0 <= j < self@.len() && self@[j] is Some ==> call_requires(
                    f,
                    (&self@[j].unwrap(), message),
                ),
        ensures
            r@.len() == bound_values(self@).len(),
            forall|k: int|
                0 <= k < r@.len() ==> call_ensures(
                    f,
                    (&bound_values(self@)[k], message),
                    #[trigger] r@[k],
                ),
    {
        let n = self.cells.len();
        let mut out: Vec<U> = Vec::new();
        let mut i: usize = 0;
        while i < n
            invariant
                i <= n,
                n == self@.len(),
                n == self.cells@.len(),
                forall|j: int|
                    0 <= j < self@.len() && self@[j] is Some ==> call_requires(
                        f,
                        (&self@[j].unwrap(), message),
                    ),
                out@.len() == bound_prefix(self@, i as int).len(),
                forall|k: int|
                    0 <= k < out@.len() ==> call_ensures(
                        f,
                        (&bound_prefix(self@, i as int)[k], message),
                        #[trigger] out@[k],
                    ),
            decreases n - i,
        {
            proof {
                assert(self@[i as int] == self.cells@[i as int]@);
            }
            match self.cells[i].get() {
                Some(t) => {
                    let u = f(t, message);
                    out.push(u);
                },
                None => {},
            }
            i += 1;
        }
        out
    }
}

proof fn lemma_bound_slots_prefix_props<T>(s: Seq<Option<T>>, n: int)
    requires
        0 <= n <= s.len(),
    ensures
        bound_slots_prefix(s, n).len() == bound_prefix(s, n).len(),
        forall|k: int|
            0 <= k < bound_slots_prefix(s, n).len() ==> {
                &&& 0 <= #[trigger] bound_slots_prefix(s, n)[k] < n
                &&& s[bound_slots_prefix(s, n)[k]] is Some
                &&& bound_prefix(s, n)[k] == s[bound_slots_prefix(s, n)[k]].unwrap()
            },
        forall|k1: int, k2: int|
            0 <= k1 < k2 < bound_slots_prefix(s, n).len() ==> #[trigger] bound_slots_prefix(
                s,
                n,
            )[k1] < #[trigger] bound_slots_prefix(s, n)[k2],
        forall|j: int|
            0 <= j < n && s[j] is Some ==> #[trigger] bound_slots_prefix(s, n).contains(j),
    decreases n,
{
    if n > 0 {
        lemma_bound_slots_prefix_props(s, n - 1);
        assert forall|j: int| 0 <= j < n && s[j] is Some implies #[trigger] bound_slots_prefix(
            s,
            n,
        ).contains(j) by {
            if j < n - 1 {
                assert(bound_slots_prefix(s, n - 1).contains(j));
                let k = choose|k: int|
                    0 <= k < bound_slots_prefix(s, n - 1).len() && #[trigger] bound_slots_prefix(
                        s,
                        n - 1,
                    )[k] == j;
                assert(bound_slots_prefix(s, n)[k] == j);
            } else {
                assert(bound_slots_prefix(s, n).last() == j);
            }
        }
    }
}

/// Law: notification follows slot order and touches each bound slot
/// exactly once. The slots behind the delivery sequence are exactly the
/// bound slots, listed strictly ascending — so no bound slot is visited
/// twice, no unbound slot is visited at all — and the `k`-th delivered
/// capability is the one bound at the `k`-th such slot.
pub proof fn lemma_notification_order<T>(s: Seq<Option<T>>)
    ensures
        bound_slots(s).len() == bound_values(s).len(),
        forall|k: int|
            0 <= k < bound_slots(s).len() ==> {
                &&& 0 <= #[trigger] bound_slots(s)[k] < s.len()
                &&& s[bound_slots(s)[k]] is Some
                &&& bound_values(s)[k] == s[bound_slots(s)[k]].unwrap()
            },
        forall|k1: int, k2: int|
            0 <= k1 < k2 < bound_slots(s).len() ==> #[trigger] bound_slots(s)[k1]
                < #[trigger] bound_slots(s)[k2],
        forall|j: int| 0 <= j < s.len() && s[j] is Some ==> #[trigger] bound_slots(s).contains(j),
{
    lemma_bound_slots_prefix_props(s, s.len() as int);
}

/// Law: in a full registry a release makes the freed slot the first empty
/// one, so by the contract of `register` the next registration reuses
/// exactly that slot.
pub proof fn lemma_freed_slot_is_first_empty<T>(s: Seq<Option<T>>, k: int)
    requires
        0 <= k < s.len(),
        forall|j: int| 0 <= j < s.len() ==> s[j] is Some,
    ensures
        s.update(k, None)[k] is None,
        forall|j: int| 0 <= j < k ==> s.update(k, None)[j] is Some,
{
}

} // verus!
