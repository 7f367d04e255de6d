//! A configurable webhook relay: it takes inbound webhook calls, keeps the
//! latest payload per topic, and rebuilds an equivalent outbound call with
//! remapped headers and an optional recomputed signature.
pub mod config;
pub mod env;
pub mod forward;
pub mod headers;
pub mod laws;
pub mod relay;
pub mod sign;
pub mod topic;
