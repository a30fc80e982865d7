//! What holds of every run of the protocol, whatever the port answers.
//!
//! A log is a sequence of exchanges; [`is_run`](crate::protocol::is_run)
//! says that it is one the protocol can have produced for a request. Each
//! law here is stated for every request and every log that is a run of it.

pub mod endings;
pub mod ordering;
pub mod runs;
