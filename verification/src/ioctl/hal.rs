//! Detection of the hardware behind the ioctl device.
use vstd::prelude::*;

use crate::ioctl::error::IoctlError;

verus! {

/// The manufacturer of the hardware the driver talks to.
#[derive(Debug, PartialEq, Eq, Clone, Copy, Structural)]
pub enum HwManufacturer {
    Clevo,
    Uniwill,
}

impl HwManufacturer {
    /// The manufacturer from the two hardware check reads: Clevo when its
    /// check reads 1, else Uniwill when its check reads 1; `None` when no
    /// Tuxedo driver is available.
    pub fn from_hw_checks(cl_hw_check: &Result<u32, IoctlError>, uw_hw_check: &Result<
        u32,
        IoctlError,
    >) -> (res: Option<Self>)
        ensures
            *cl_hw_check matches Ok(1u32) ==> res == Some(HwManufacturer::Clevo),
            !(*cl_hw_check matches Ok(1u32)) && (*uw_hw_check matches Ok(1u32)) ==> res == Some(
                HwManufacturer::Uniwill,
            ),
            !(*cl_hw_check matches Ok(1u32)) && !(*uw_hw_check matches Ok(1u32)) ==> res is None,
    {
        if let Ok(v) = cl_hw_check {
            if *v == 1 {
                return Some(HwManufacturer::Clevo);
            }
        }
        if let Ok(v) = uw_hw_check {
            if *v == 1 {
                return Some(HwManufacturer::Uniwill);
            }
        }
        None
    }
}

} // verus!
