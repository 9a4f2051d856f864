//! Fan control: fan curves, temperature history and the control step.
pub mod buffer;
pub mod profile;
pub mod runtime;
