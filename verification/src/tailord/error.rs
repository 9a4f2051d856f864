//! Errors that the daemon reports to its D-Bus clients.
use vstd::prelude::*;

verus! {

/// The error kinds that the daemon answers D-Bus requests with,
/// each carrying a human readable message.
#[derive(Debug)]
pub enum FdoError {
    Failed(String),
    IOError(String),
    InvalidArgs(String),
    FileNotFound(String),
    InvalidFileContent(String),
    NotSupported(String),
}

} // verus!
