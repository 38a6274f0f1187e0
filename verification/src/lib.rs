//! FluxGate: a distributed token-bucket rate limiter.
//!
//! The library holds every decision of the service: the exact token-bucket
//! arithmetic, bucket identity, the optimistic-concurrency protocol, the wire
//! form of a stored bucket, the configuration rules and the HTTP replies.
//! Talking to the network, the clock, the environment and the database is left
//! to the program that uses it.

pub mod api;
pub mod config;
pub mod limiter;
pub mod policies;
pub mod service;
pub mod storage;
pub mod text;
