//! The sysfs files of the Tuxedo drivers and the kernel: what their
//! contents mean.
pub mod backlight;
pub mod charging;
pub mod cpu;
pub mod keyboard;
pub mod led;
pub mod parse;
