//! Execute: the bookkeeping of running a plan and producing a run record.
//!
//! The effects of an action (spawning a command, touching the filesystem)
//! happen outside this module; what a run records about them is decided here.

pub mod driver;
pub mod events;
pub mod installer;
pub mod result;
pub mod runner;
