//! Errors of the ioctl interface.
use vstd::prelude::*;

verus! {

/// What can go wrong when talking to the `tuxedo_io` device.
#[derive(Debug)]
pub enum IoctlError {
    /// A string read from the device is not UTF-8.
    Utf8,
    /// The ioctl call failed with this `errno`.
    Read(i32),
    /// Opening or accessing the device failed, with the message of the error.
    IO(String),
    /// The device (or the addressed fan) is not available.
    DevNotAvailable,
    /// An argument is not accepted.
    InvalidArgs,
    /// The feature is not available.
    NotAvailable,
}

} // verus!
