//! The stand-alone fan controller: configuration checks and the decisions
//! of its control loop.
pub mod config;
pub mod fan;
