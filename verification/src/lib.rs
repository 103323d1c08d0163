//! Host side of the ARM Debug Interface v5 over a JTAG transport, written
//! without any I/O of its own.
//!
//! The crate decides which scans to shift and what their answers mean; the
//! caller owns the transport. An operation is a conversation in turns: the
//! method that begins it hands back a [`Turn`], the scans to perform in order
//! and, while the operation is pending, the state to resume it with. The
//! caller performs the scans, keeps the transport's answer to the last of
//! them as a [`Reply`], and hands both back to the `step` method of the
//! operation's kind, until a turn says that the operation is over.
//!
//! - [`wire`]: the 35-bit data register as bytes.
//! - [`link`]: scans, answers and turns.
//! - [`adi`]: the transaction engine with its memory of IR and SELECT.
//! - [`memap`]: the memory access port with its shadows of CSW and TAR.
//! - [`laws`], [`mem_laws`]: what holds of the two whatever the target
//!   answers.

pub mod adi;
pub mod laws;
pub mod link;
pub mod mem_laws;
pub mod memap;
pub mod wire;

pub use adi::{ArmDebugInterface, DPReg};
pub use link::{Poll, Port, Reply, Scan, Turn};
pub use memap::{MemAP, MemAPReg, MemValue};
