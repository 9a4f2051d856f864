//! Decisions and data of the `tailord` daemon.
pub mod backlight;
pub mod error;
pub mod fancontrol;
pub mod performance;
pub mod power_supply;
pub mod profiles;
pub mod util;
