//! A shared-ownership pointer with projection, verified against an explicit
//! memory model.
//!
//! A handle owns a share of one allocation that holds, contiguously, a
//! reference count, a type-erasure metadata record, and the payload bytes.
//! Cloning a handle bumps the count; dropping the last handle destroys the
//! payload (always as the type it was constructed with) and returns the
//! allocation. Projection narrows the sub-span of the payload that a handle
//! exposes without touching the count, so a projected handle keeps the whole
//! allocation alive.
//!
//! Raw memory is modeled by an explicit [`arena::Arena`] value: every
//! allocation is a byte span indexed through the layout computed by the
//! planner, and every operation that the real pointer would perform on raw
//! memory is a verified operation on the arena. The two handle flavors,
//! [`sync::ProjectArc`] (intended for cross-thread sharing, where the count
//! would be an atomic word) and [`unsync::ProjectRc`] (single-thread, plain
//! word), follow one protocol, stated and proved in [`counting`].

pub mod arena;
pub mod counting;
pub mod layout;
pub mod metadata;
pub mod sync;
pub mod unsync;

pub use sync::ProjectArc;
pub use unsync::ProjectRc;
