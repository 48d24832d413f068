//! Life cycle of a group of child processes that run in parallel.
//!
//! The library holds the decisions: which child of a group counts as finished,
//! whether a finished child counts as failed, and what a failure means for the
//! children that are still running. It starts no process and waits for none.
//! The caller does that, and hands over what the operating system answered:
//! the numbers of the processes it started, what polling them brought, and
//! the output it collected.
//!
//! - [indicators]: the policies of a group and the mode that it is in.
//! - [output]: what a finished child leaves, and whether it counts as failed.
//! - [group]: the children of a group, its start, a scan and a step.
//! - [run]: the life of a group, scan by scan, to its end.
//! - [laws]: what holds of every group.
//! - [outputs]: copying of bytes.

pub mod group;
pub mod indicators;
pub mod laws;
pub mod output;
pub mod outputs;
pub mod run;
