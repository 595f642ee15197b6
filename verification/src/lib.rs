//! Runs the `samplem` repacking tool on behalf of a listener: the command line
//! of one run, the framing of the tool's output into lines, the events that
//! the lines become, and the life cycle of a run up to its exit status.
//!
//! The library holds the decisions and the data; spawning the process,
//! reading its pipes and delivering events are left to the caller.
pub mod invocation;
pub mod framing;
pub mod event;
pub mod pump;
pub mod session;
