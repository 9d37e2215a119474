//! Deterministic simulation core for a turn-based planetary-economy game.
//!
//! All quantities are fixed-point integers: 1000 fixed-point "millis" stand
//! for one whole unit. The crate provides the effect algebra (`effects`), the
//! production mix planner and convergence driver (`processes`), the shared
//! data model (`kinds`, `state`) and team bookkeeping (`teams`).

pub mod effects;
pub mod kinds;
pub mod state;
pub mod num;
pub mod processes;
pub mod teams;
