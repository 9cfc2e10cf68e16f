//! Verified core of a JVM monitoring tool.
//!
//! The library decodes the text output of the JVM diagnostic command into
//! typed snapshots and accumulates timestamped metric series across polls.
//! Running the diagnostic command itself is left to the host application;
//! every function here is a pure computation over the captured text and the
//! explicitly owned caches.

pub mod laws;
pub mod metrics;
pub mod model;
pub mod numeric;
pub mod processes;
pub mod vm_info;
pub mod text;
pub mod threads;
