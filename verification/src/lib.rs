//! A benchmarking harness for multi-party protocols: a simulated full-mesh
//! network of latency- and bandwidth-constrained links, the per-party
//! endpoints that send, demultiplex and pace messages over it, the course of
//! an experiment over its repetitions, and the recorders that collect named
//! timings.
//!
//! Simulated time is counted in whole nanoseconds since the start of the
//! network's clock. Nothing here sleeps or spawns: an endpoint tells its
//! reader the instant at which each byte is released, and the harness tells
//! its driver whether the step it reports is in turn.

pub mod clock;
pub mod comm;
pub mod fifo;
pub mod harness;
pub mod laws;
pub mod model;
pub mod network;
pub mod pipe;
pub mod statistics;
pub mod stats;
