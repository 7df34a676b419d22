//! A memory-mapped register access layer for a single-core microcontroller.
//!
//! The crate is organized around three ideas:
//!
//! - Capability tokens ([`reg::tokens`]): a register may only be written
//!   through a token, and the token registry hands out at most one
//!   write-capable token per register address.
//! - An atomic read-modify-write engine ([`reg::atomic`]): updates run as an
//!   exclusive-load / store-conditional retry loop, so a preempting interrupt
//!   handler touching the same register never causes a lost update. The
//!   hardware side of the protocol is modelled explicitly by
//!   [`reg::atomic::RegMemory`], which lets every contract state what happens
//!   under any finite amount of contention.
//! - A trace-port writer ([`swo::port`]): byte, half-word and word stores to a
//!   stimulus port, plus an alignment-aware bulk splitter that maximizes the
//!   word-sized portion of a byte transfer.

pub mod reg;
pub mod swo;
