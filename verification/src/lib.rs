//! Multiplexing of typed subchannels over IPC channels.
//!
//! The crate holds the protocol of the multiplexer: who is told what when a
//! message, a subsender or a disconnection crosses a process boundary, and
//! what each side knows afterwards. Reading from and writing to the operating
//! system's channels is left to the program around it, which hands the events
//! in and carries the resulting messages out.

pub mod bags;
pub mod multiplex;
pub mod mux;
pub mod subchannel_lifecycle;
