//! The reference cell and its binding guard.
//!
//! An [`Sc`] is a storage slot that is either empty or bound to a value.
//! Binding succeeds only on an empty cell and returns control of the binding
//! to a [`Locker`] guard; releasing the guard is the sole operation that
//! clears the cell again. Reads go through [`Sc::map`], which checks the
//! current state first, so an empty cell never hands out data.

use vstd::prelude::*;

verus! {

/// A reference cell with a dynamically checked binding.
///
/// A freshly constructed cell is empty. It becomes bound through
/// [`Locker::lock`], which moves a value into the cell, and empty again
/// through [`Locker::release`], which moves the value back out. The view of
/// a cell is `None` while it is empty and `Some(v)` while it is bound to
/// `v`.
pub struct Sc<T> {
    slot: Option<T>,
    generation: Ghost<nat>,
}

impl<T> View for Sc<T> {
    type V = Option<T>;

    closed spec fn view(&self) -> Option<T> {
        self.slot
    }
}

impl<T> Sc<T> {
    /// The number of binds this cell has seen so far. A guard governs the
    /// cell exactly while the guard's recorded generation matches.
    pub closed spec fn generation(self) -> nat {
        self.generation@
    }

    /// Constructs an empty cell.
    pub fn new() -> (r: Self)
        ensures
            r@ is None,
    {
        Sc { slot: None, generation: Ghost(0) }
    }

    /// Returns true exactly when the cell is currently bound.
    pub fn is_some(&self) -> (r: bool)
        ensures
            r == (self@ is Some),
    {
        self.slot.is_some()
    }

    /// Returns true exactly when the cell is currently empty.
    pub fn is_none(&self) -> (r: bool)
        ensures
            r == (self@ is None),
    {
        self.slot.is_none()
    }

    /// Borrows the bound value, if any. This is the internal read path that
    /// [`Sc::map`] and the registry's notification loop build on.
    pub(crate) fn get(&self) -> (r: Option<&T>)
        ensures
            match r {
                Some(t) => self@ == Some(*t),
                None => self@ is None,
            },
    {
        self.slot.as_ref()
    }

    /// Mutably borrows the bound value, if any. This is the internal write
    /// path behind the container's mutable accessor: a write through the
    /// returned reference replaces the bound value without disturbing the
    /// binding or its generation.
    pub(crate) fn get_mut(&mut self) -> (r: Option<&mut T>)
        ensures
            old(self)@ is Some <==> r is Some,
            r is Some ==> {
                &&& *r.unwrap() == old(self)@.unwrap()
                &&& final(self)@ == Some(*final(r.unwrap()))
                &&& final(self).generation() == old(self).generation()
            },
            r is None ==> *final(self) == *old(self),
    {
        self.slot.as_mut()
    }

    /// Applies `f` to the bound value and returns the result, or returns
    /// `None` if the cell is empty. This is the sanctioned read path: the
    /// state check and the use of the value cannot be separated by the
    /// caller.
    pub fn map<U, F: Fn(&T) -> U>(&self, f: F) -> (r: Option<U>)
        requires
            self@ is Some ==> call_requires(f, (&self@.unwrap(),)),
        ensures
            map_post(*self, f, r),
    {
        match self.slot.as_ref() {
            Some(t) => Some(f(t)),
            None => None,
        }
    }
}

/// What [`Sc::map`] promises: on a bound cell the result wraps an output of
/// `f` applied to the bound value, and on an empty cell the result is
/// absent.
pub open spec fn map_post<T, U, F: Fn(&T) -> U>(sc: Sc<T>, f: F, r: Option<U>) -> bool {
    match sc@ {
        Some(v) => r is Some && call_ensures(f, (&v,), r.unwrap()),
        None => r is None,
    }
}

/// The single-use guard that governs one binding of one cell.
///
/// A `Locker` starts out unengaged. A successful [`Locker::lock`] engages it
/// as the governor of the cell it just bound; [`Locker::release`] consumes
/// the guard, clears that cell and returns the bound value. Because a guard
/// cannot be copied and `release` takes it by value, a guard that is kept
/// with its own cell runs the clearing step exactly once per binding. The
/// release call is the explicit destruction step of the guard: the type's
/// usage convention is that every engaged guard is released against the
/// cell it was engaged for, on every exit path. The guard records which
/// binding it governs by generation count alone (see [`Locker::governs`]),
/// so pairing each guard with its own cell is the caller's side of the
/// protocol.
pub struct Locker {
    engaged: bool,
    generation: Ghost<nat>,
}

impl Locker {
    /// Whether this guard currently governs a binding.
    pub closed spec fn is_engaged(self) -> bool {
        self.engaged
    }

    /// The generation of the binding this guard was engaged for.
    pub closed spec fn generation(self) -> nat {
        self.generation@
    }

    /// Whether this guard governs the current binding of `sc`: it is
    /// engaged, the cell is bound, and the guard's recorded generation
    /// matches the cell's.
    ///
    /// The association is by generation count alone — a cell carries no
    /// identity of its own. Two different cells can reach the same count,
    /// and a guard engaged for one of them then satisfies this predicate
    /// for the other as well; nothing here can tell such a guard apart
    /// from the true governor. Keeping each guard with the cell it was
    /// engaged for is therefore the caller's obligation: a guard presented
    /// to a different cell with a coinciding count would clear a binding
    /// it never governed, leaving the guard's own cell bound with no guard
    /// able to clear it.
    pub open spec fn governs<T>(self, sc: Sc<T>) -> bool {
        &&& self.is_engaged()
        &&& self.generation() == sc.generation()
        &&& sc@ is Some
    }

    /// Constructs an unengaged guard.
    pub fn new() -> (r: Self)
        ensures
            !r.is_engaged(),
    {
        Locker { engaged: false, generation: Ghost(0) }
    }

    /// Binds `value` into `sc` and engages this guard as the governor of
    /// the new binding. The bind is rejected — the value is handed back and
    /// nothing changes — if the cell is already bound or this guard is
    /// already engaged, so no bind ever puts a second live governor on a
    /// bound cell.
    pub fn lock<T>(&mut self, value: T, sc: &mut Sc<T>) -> (r: Result<(), T>)
        ensures
            lock_post(*old(self), *final(self), *old(sc), *final(sc), value, r),
    {
        if self.engaged || sc.slot.is_some() {
            Err(value)
        } else {
            sc.slot = Some(value);
            sc.generation = Ghost(sc.generation@ + 1);
            self.engaged = true;
            self.generation = Ghost(sc.generation@);
            Ok(())
        }
    }

    /// Releases the binding this guard governs: clears the cell and returns
    /// the value that was bound. Consuming the guard here is its
    /// destruction; afterwards the cell reports empty until a new bind.
    /// The precondition ties guard and cell together only as far as
    /// [`Locker::governs`] can: the cell passed here must be the one this
    /// guard was engaged for.
    pub fn release<T>(self, sc: &mut Sc<T>) -> (r: T)
        requires
            self.governs(*old(sc)),
        ensures
            final(sc)@ is None,
            final(sc).generation() == old(sc).generation(),
            old(sc)@ == Some(r),
    {
        match sc.slot.take() {
            Some(v) => v,
            None => vstd::pervasive::unreached(),
        }
    }
}

/// What [`Locker::lock`] promises, relating the guard and the cell before
/// the call (`l0`, `s0`) to the guard and the cell after it (`l1`, `s1`):
/// the bind succeeds exactly when the guard was unengaged and the cell was
/// empty; a successful bind stores the value, advances the cell's
/// generation and engages the guard for it; a rejected bind hands the value
/// back and changes nothing.
pub open spec fn lock_post<T>(
    l0: Locker,
    l1: Locker,
    s0: Sc<T>,
    s1: Sc<T>,
    value: T,
    r: Result<(), T>,
) -> bool {
    &&& (r is Ok <==> (!l0.is_engaged() && s0@ is None))
    &&& match r {
        Ok(_) => {
            &&& s1@ == Some(value)
            &&& s1.generation() == s0.generation() + 1
            &&& l1.is_engaged()
            &&& l1.generation() == s1.generation()
        },
        Err(v) => {
            &&& v == value
            &&& l1 == l0
            &&& s1 == s0
        },
    }
}

/// Law: while a bind of `v` is in force, reading the cell through `map`
/// with an identity-like function yields exactly `v`.
pub proof fn lemma_map_identity_reads_bound_value<T, F: Fn(&T) -> T>(
    sc: Sc<T>,
    v: T,
    f: F,
    r: Option<T>,
)
    requires
        sc@ == Some(v),
        forall|t: &T, u: T| call_ensures(f, (t,), u) ==> u == *t,
        map_post(sc, f, r),
    ensures
        r == Some(v),
{
}

/// Law: once the governing guard has been released, the cell reports
/// unbound and every read through `map` returns absent, until a new bind.
pub proof fn lemma_released_cell_reads_absent<T, U, F: Fn(&T) -> U>(sc: Sc<T>, f: F, r: Option<U>)
    requires
        sc@ is None,
        map_post(sc, f, r),
    ensures
        r is None,
{
}

/// Law: binding after a release behaves exactly like a first bind. From any
/// two empty cells and unengaged guards, locking the same value succeeds in
/// both and leaves the two cells with equal views, so no observable state
/// from an earlier binding survives a release.
pub proof fn lemma_rebind_like_first_bind<T>(
    la0: Locker,
    la1: Locker,
    sa0: Sc<T>,
    sa1: Sc<T>,
    lb0: Locker,
    lb1: Locker,
    sb0: Sc<T>,
    sb1: Sc<T>,
    value: T,
    ra: Result<(), T>,
    rb: Result<(), T>,
)
    requires
        !la0.is_engaged(),
        !lb0.is_engaged(),
        sa0@ is None,
        sb0@ is None,
        lock_post(la0, la1, sa0, sa1, value, ra),
        lock_post(lb0, lb1, sb0, sb1, value, rb),
    ensures
        ra is Ok,
        rb is Ok,
        sa1@ == sb1@,
        sa1@ == Some(value),
{
}

} // verus!
