//! A container that binds its own value to a cell.
//!
//! A [`Wrapper`] couples a value with an internal guard slot. Locking the
//! wrapper to a cell moves the value into the cell and stores the
//! resulting guard inside the wrapper itself, so the binding lasts until
//! the wrapper gives it up through [`Wrapper::unlock`] — the wrapper's own
//! end-of-life step for the binding, which also brings the value back
//! home. The value lives in exactly one place at every moment: in the
//! wrapper while unlocked, in the cell while locked. The accessors
//! [`Wrapper::value`] and [`Wrapper::value_mut`] route through the cell
//! while the binding is in force, so the cell always resolves to the
//! wrapper's current value and a write through the wrapper is immediately
//! visible through the cell's read path.

use crate::cell::map_post;
use crate::cell::Locker;
use crate::cell::Sc;
use vstd::prelude::*;

verus! {

/// A value coupled with an internal binding guard. While unlocked the
/// wrapper holds the value itself; while locked the value is bound in the
/// governed cell and the wrapper holds only the guard.
pub struct Wrapper<T> {
    data: Option<T>,
    guard: Option<Locker>,
}

impl<T> Wrapper<T> {
    /// The value held directly by the wrapper: `Some` while unlocked,
    /// `None` while the value is bound in a cell.
    pub closed spec fn held(self) -> Option<T> {
        self.data
    }

    /// The state of the internal guard slot.
    pub closed spec fn guard_state(self) -> Option<Locker> {
        self.guard
    }

    /// Well-formedness: the wrapper holds the value itself exactly while
    /// it holds no guard — the value lives in one place at a time.
    pub open spec fn wf(self) -> bool {
        self.held() is Some <==> self.guard_state() is None
    }

    /// Whether the wrapper currently holds a binding guard.
    pub open spec fn is_locked(self) -> bool {
        self.guard_state() is Some
    }

    /// Whether the wrapper's internal guard governs the current binding of
    /// `sc`. As with [`Locker::governs`], the association is by generation
    /// count alone: the cell a locked wrapper is used with must be the one
    /// it was locked to.
    pub open spec fn governs(self, sc: Sc<T>) -> bool {
        &&& self.guard_state() is Some
        &&& self.guard_state().unwrap().governs(sc)
    }

    /// The wrapper's current value: the content of the governed cell while
    /// locked, the directly held value otherwise.
    pub open spec fn current(self, sc: Sc<T>) -> T {
        if self.is_locked() {
            sc@.unwrap()
        } else {
            self.held().unwrap()
        }
    }

    /// Constructs a wrapper around `data`, with the guard slot empty.
    pub fn new(data: T) -> (r: Self)
        ensures
            r.wf(),
            !r.is_locked(),
            r.held() == Some(data),
    {
        Wrapper { data: Some(data), guard: None }
    }

    /// Binds the wrapped value into `sc` and keeps the resulting guard
    /// inside the wrapper: from here until `unlock`, the cell resolves to
    /// the wrapper's value. The lock is rejected — nothing changes — if
    /// the wrapper is already locked or the cell is already bound.
    pub fn lock(&mut self, sc: &mut Sc<T>) -> (r: Result<(), ()>)
        requires
            old(self).wf(),
        ensures
            final(self).wf(),
            r is Ok <==> (!old(self).is_locked() && old(sc)@ is None),
            r is Ok ==> {
                &&& final(sc)@ == old(self).held()
                &&& final(self).is_locked()
                &&& final(self).governs(*final(sc))
            },
            r is Err ==> *final(self) == *old(self) && *final(sc) == *old(sc),
    {
        if self.guard.is_some() || sc.is_some() {
            Err(())
        } else {
            match self.data.take() {
                Some(value) => {
                    let mut guard = Locker::new();
                    match guard.lock(value, sc) {
                        Ok(_) => {
                            self.guard = Some(guard);
                            Ok(())
                        },
                        Err(_rejected) => {
                            proof {
                                assert(false);
                            }
                            Err(())
                        },
                    }
                },
                None => {
                    proof {
                        assert(false);
                    }
                    Err(())
                },
            }
        }
    }

    /// Gives the binding up: releases the internal guard, clearing `sc`,
    /// and takes the value — including any writes made while locked —
    /// back into the wrapper. This is the wrapper's end-of-life step for a
    /// binding it holds.
    pub fn unlock(&mut self, sc: &mut Sc<T>)
        requires
            old(self).wf(),
            old(self).governs(*old(sc)),
        ensures
            final(self).wf(),
            !final(self).is_locked(),
            final(self).held() == old(sc)@,
            final(sc)@ is None,
            final(sc).generation() == old(sc).generation(),
    {
        match self.guard.take() {
            Some(guard) => {
                let value = guard.release(sc);
                self.data = Some(value);
            },
            None => {
                proof {
                    assert(false);
                }
            },
        }
    }

    /// Borrows the wrapper's current value; available whatever the binding
    /// state. While locked, `sc` must be the cell the wrapper is locked to
    /// and the read comes from there; while unlocked, any cell may stand
    /// in `sc` and is not consulted.
    pub fn value<'a>(&'a self, sc: &'a Sc<T>) -> (r: &'a T)
        requires
            self.wf(),
            self.is_locked() ==> self.governs(*sc),
        ensures
            *r == self.current(*sc),
    {
        if self.guard.is_some() {
            match sc.get() {
                Some(v) => v,
                None => vstd::pervasive::unreached(),
            }
        } else {
            match self.data.as_ref() {
                Some(v) => v,
                None => vstd::pervasive::unreached(),
            }
        }
    }

    /// Mutably borrows the wrapper's current value; available whatever the
    /// binding state. While locked, `sc` must be the cell the wrapper is
    /// locked to, and the write goes straight into the cell's binding —
    /// immediately visible through [`Sc::map`] — leaving the binding and
    /// its governor in place. While unlocked, the write goes to the value
    /// held in the wrapper and the cell is untouched.
    pub fn value_mut<'a>(&'a mut self, sc: &'a mut Sc<T>) -> (r: &'a mut T)
        requires
            old(self).wf(),
            old(self).is_locked() ==> old(self).governs(*old(sc)),
        ensures
            *r == old(self).current(*old(sc)),
            final(self).wf(),
            old(self).is_locked() ==> {
                &&& *final(self) == *old(self)
                &&& final(sc)@ == Some(*final(r))
                &&& final(sc).generation() == old(sc).generation()
            },
            !old(self).is_locked() ==> {
                &&& *final(sc) == *old(sc)
                &&& final(self).guard_state() == old(self).guard_state()
                &&& final(self).held() == Some(*final(r))
            },
    {
        if self.guard.is_some() {
            match sc.get_mut() {
                Some(v) => v,
                None => vstd::pervasive::unreached(),
            }
        } else {
            match self.data.as_mut() {
                Some(v) => v,
                None => vstd::pervasive::unreached(),
            }
        }
    }
}

/// Law: while a wrapper governs a cell, the cell resolves to the wrapper's
/// current value — an identity read through the cell's `map` returns
/// exactly what the wrapper's accessors expose, so a write through
/// `value_mut` is immediately visible through the cell's read path.
pub proof fn lemma_locked_cell_resolves_to_wrapper_value<T, F: Fn(&T) -> T>(
    w: Wrapper<T>,
    sc: Sc<T>,
    f: F,
    r: Option<T>,
)
    requires
        w.wf(),
        w.governs(sc),
        forall|t: &T, u: T| call_ensures(f, (t,), u) ==> u == *t,
        map_post(sc, f, r),
    ensures
        r == Some(w.current(sc)),
{
}

} // verus!
