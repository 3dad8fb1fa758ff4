//! Core of a distributed load generator: virtual-user scheduling, a global
//! request-rate throttle, per-user transaction state machines, metrics
//! aggregation, and the manager/worker coordination protocol.
//!
//! The engine here is deterministic: it decides what to do next from plain
//! state and events. Transports (HTTP clients, message sockets) and the
//! process runtime live outside and hand the engine plain values.

pub mod command;
pub mod config;
pub mod engine;
pub mod manager;
pub mod metrics;
pub mod scheduler;
pub mod throttle;
pub mod user;
pub mod worker;
