//! Lifecycle supervision of a single sidecar worker process.
//!
//! The library holds the decisions: which slot operations are atomic, what
//! each step of starting and stopping the worker does next, how output events
//! become host-side lines, and which processes the port sweep reclaims. The
//! host performs the side effects that each decision names.

pub mod lifecycle;
pub mod ports;
pub mod relay;
pub mod shutdown;
pub mod slot;
pub mod startup;
pub mod trace;

