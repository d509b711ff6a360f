//! Client-side enrollment engine for remotely defined experiments.
//!
//! The library decides, from a stable per-installation identifier and a list
//! of experiment descriptors, which experiments a user is enrolled in and on
//! which branch, and keeps those decisions together with manual overrides and
//! a global participation switch.
pub mod sampling;
pub mod schema;
pub mod enrollment;
pub mod targeting;
pub mod error;
pub mod client;
pub mod laws;
pub mod config;
pub mod uuid;
pub mod http_client;
