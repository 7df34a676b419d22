//! Register descriptors, capability tokens and the atomic
//! read-modify-write engine.

pub mod atomic;
pub mod field;
pub mod tokens;
