//! Admission gate for workloads that may be scaled to zero.
//!
//! Incoming requests are matched by hostname against a route table; before a
//! request is forwarded, a readiness oracle is polled until the backing
//! workload has at least one ready replica or a deadline expires.  This crate
//! holds the decision logic of that gate — route lookup, oracle query
//! construction and response interpretation, request accounting, and the
//! per-request admission state machine — each function with a verified
//! contract.  The surrounding runtime (HTTP transport, timers, the actual
//! polling loop) drives these functions and performs the I/O.

pub mod config;
pub mod interceptor;
pub mod metrics;
pub mod queryer;
pub mod text;
