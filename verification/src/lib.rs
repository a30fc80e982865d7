//! Recovery of a locked dual-core microcontroller through its control access
//! ports: reset every port, mass-erase every port, then read back the
//! protection status of every port.
//!
//! The library decides *which* register transaction comes next and what a
//! reply to it means; performing a transaction on real hardware is left to the
//! caller, who either drives a [`machine::Recovery`] by hand or hands
//! [`port::recover`] something that implements [`port::RegisterPort`].
//!
//! - [`register`]: the register map and the transactions against it
//! - [`request`]: which ports to recover, and how
//! - [`report`]: phases, per-port status, errors
//! - [`protocol`]: the protocol as a mathematical state machine
//! - [`machine`]: the same state machine, executable
//! - [`port`]: running a recovery against a register port
//! - [`laws`]: what holds of every run

pub mod laws;
pub mod machine;
pub mod port;
pub mod protocol;
pub mod register;
pub mod report;
pub mod request;
