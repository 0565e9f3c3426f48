//! A dynamically checked reference cell with scoped binding guards.
//!
//! The core type, [`Sc`], is a storage slot that is either empty or bound to
//! a value. Unlike an ordinary reference stored in a struct, an `Sc` carries
//! no lifetime parameter: the connection between the cell and the scope of
//! the value bound into it is enforced by a runtime protocol instead. The
//! protocol is carried by [`Locker`], a single-use guard handed out by the
//! bind operation; releasing the guard is the one and only way a bound cell
//! becomes empty again.
//!
//! The cell owns the bound value for the duration of the binding: binding
//! moves the value into the cell, and releasing the guard moves it back out,
//! so every value lives in exactly one place at every moment. Every read
//! goes through an accessor that first checks whether the cell is currently
//! bound, so a cleared cell always reports itself as empty and can never
//! hand out stale data. A guard records the binding it governs by the
//! cell's generation count; keeping each guard with the cell it was engaged
//! for is the caller's side of the protocol.
//!
//! Binding an already bound cell is rejected with a failure result (the
//! last-bind-wins alternative is deliberately not offered): together with the
//! single-use guard this closes the double-binding hazard in which an older
//! guard's destruction would clear a newer binding it never governed.
//!
//! Two consumers are built on top of the cell:
//!
//! * [`Wrapper`] couples a value with an internal guard slot, so the value
//!   can bind itself to a cell and keep that binding until the wrapper
//!   itself gives it up. While locked, the value sits in the cell and the
//!   wrapper's accessors route through it, so the cell resolves to the
//!   wrapper's current value — writes included — at every moment, and
//!   unlocking brings the value back into the wrapper.
//! * [`BoundedRegistry`] owns a fixed number of cells and uses them for
//!   publish/subscribe fan-out: registering binds the first empty slot and
//!   hands back a [`Registration`] guard, releasing the guard frees the slot
//!   for reuse, and notification visits every bound slot exactly once in
//!   ascending slot order.

pub mod cell;
pub mod registry;
pub mod wrapper;

pub use cell::Locker;
pub use cell::Sc;
pub use registry::BoundedRegistry;
pub use registry::Registration;
pub use wrapper::Wrapper;
