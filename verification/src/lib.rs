//! A facade over the `splr` SAT solver for a host runtime that reaches a
//! native solver instance through an integer handle.
//!
//! * [`handle`]: the integer under which the host knows a native address.
//! * [`formula`]: the mathematical model of what an instance holds.
//! * [`backend`]: the calls into `splr`, with the contracts assumed of them.
//! * [`instance`]: the operations on one solver instance.
//! * [`laws`]: what holds of every sequence of operations.
//! * [`marshal`]: lengths and flags as the host counts them.

pub mod backend;
pub mod formula;
pub mod handle;
pub mod instance;
pub mod laws;
pub mod marshal;
