//! Synthetic finite-state machines that mutate a fixed-size vector of `u64`
//! slots on every input, in three dispatch representations that share one
//! generated rule set.
pub mod rules;
pub mod machine;
pub mod stream;
pub mod stats;
