//! Pure rate-limiting domain logic.
//!
//! Nothing here reads a clock, a request or a database: a caller supplies the
//! current time and the persisted state, so every transition is deterministic.

pub mod algorithm;
pub mod laws;
pub mod models;

pub use algorithm::{evaluate, LimiterError};
pub use models::{BucketState, Decision, Policy};
