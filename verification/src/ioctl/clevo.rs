//! Clevo hardware: fan speeds, temperatures and the device check.
use vstd::prelude::*;

use crate::ioctl::error::IoctlError;
pub use crate::ioctl::high_level::{
    fan_speed_argument_clevo, fan_speed_percent_from_raw, fan_speed_raw_clevo,
    fan_speed_raw_from_info, PerformanceProfile, MAX_FAN_SPEED,
};

verus! {

/// The number of fans Clevo hardware has.
pub const CLEVO_NUMBER_OF_FANS: u8 = 3;

/// The lowest fan speed, in percent, that Clevo hardware supports.
pub const CLEVO_FANS_MIN_SPEED: u8 = 20;

/// Whether the Clevo hardware check value shows Clevo hardware.
pub fn is_clevo(hw_check: Result<u32, IoctlError>) -> (res: Result<(), IoctlError>)
    ensures
        hw_check matches Ok(1u32) <==> res is Ok,
        hw_check matches Ok(v) && v != 1 ==> res matches Err(IoctlError::DevNotAvailable),
        hw_check matches Err(e) ==> res == Err::<(), IoctlError>(e),
{
    match hw_check {
        Ok(v) => if v == 1 {
            Ok(())
        } else {
            Err(IoctlError::DevNotAvailable)
        },
        Err(e) => Err(e),
    }
}

/// Whether fan `fan` has a fan info register (fans 0 to 2 do).
pub fn has_fan_info(fan: u8) -> (res: Result<(), IoctlError>)
    ensures
        fan < 3 <==> res is Ok,
        res matches Err(e) ==> e is DevNotAvailable,
{
    if fan < 3 {
        Ok(())
    } else {
        Err(IoctlError::DevNotAvailable)
    }
}

/// The fan temperature in a Clevo fan info value: its third byte, or not
/// available when that byte is at most 1.
pub fn fan_temperature_clevo(fan_info_raw: u32) -> (temp: Result<u8, IoctlError>)
    ensures
        (fan_info_raw / 65536) % 256 <= 1 <==> temp is Err,
        temp matches Err(e) ==> e is DevNotAvailable,
        temp matches Ok(t) ==> t == (fan_info_raw / 65536) % 256,
{
    // Explicitly use temp2 since it's more consistently implemented
    let fan_temp_2 = ((fan_info_raw >> 16u32) & 0xff) as u8;
    assert((fan_info_raw >> 16u32) & 0xff == (fan_info_raw / 65536) % 256) by (bit_vector);
    // If a fan is not available a low value is read out
    if fan_temp_2 <= 1 {
        Err(IoctlError::DevNotAvailable)
    } else {
        Ok(fan_temp_2)
    }
}

} // verus!
