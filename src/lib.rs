//! Connection-liveness tracking: a registry of per-client activity windows,
//! the per-connection session state machine that feeds it, a fan-out bus for
//! activity events, and the chart layout of a registry snapshot.

pub mod bus;
pub mod chart;
pub mod interval;
pub mod registry;
pub mod session;
