//! The Tuxedo ioctl interface: what the values read from and written to the
//! `tuxedo_io` device mean, for Clevo and Uniwill hardware.
pub mod buffer;
pub mod clevo;
pub mod error;
pub mod hal;
pub mod high_level;
pub mod uniwill;
