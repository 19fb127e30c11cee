//! Verified core of a distributed network-benchmarking fabric: broker
//! topology, message contracts, the worker's time-synchronised measurement
//! logic, the scheduler's job lifecycle and its worker-liveness registry.

pub mod broker;
pub mod messages;
pub mod measure;
pub mod config;
pub mod worker;
pub mod jobs;
pub mod registry;
