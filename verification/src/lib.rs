//! Verified core of the Tuxedo hardware tools: fan curves and fan control,
//! the ioctl hardware abstraction's value conversions, sysfs value parsing,
//! profile bookkeeping of the `tailord` daemon and the stand-alone fan controller.
pub mod tailord;
pub mod text;
pub mod ioctl;
pub mod tuxedo_fancontrol;
pub mod sysfs;
