//! The fan, webcam and performance-profile interface of the first driver
//! generation, which addresses fans by name.
use vstd::prelude::*;

use crate::ioctl::error::IoctlError;

verus! {

/// The raw value of a fan at full speed.
pub const MAX_FAN_SPEED: u8 = 0xff;

/// One of the (up to three) fans.
#[derive(Debug, PartialEq, Eq, Clone, Copy, Structural)]
pub enum Fan {
    Fan1,
    Fan2,
    Fan3,
}

/// The index of a fan: 0, 1 or 2.
pub open spec fn fan_index(fan: Fan) -> u8 {
    match fan {
        Fan::Fan1 => 0,
        Fan::Fan2 => 1,
        Fan::Fan3 => 2,
    }
}

impl Fan {
    /// The fan with index `num`, if there is one.
    pub fn try_from_u8(num: u8) -> (fan: Option<Self>)
        ensures
            num < 3 <==> fan is Some,
            fan matches Some(f) ==> fan_index(f) == num,
    {
        match num {
            0 => Some(Self::Fan1),
            1 => Some(Self::Fan2),
            2 => Some(Self::Fan3),
            _ => None,
        }
    }
}

/// The performance profiles of Clevo hardware.
#[derive(Debug, PartialEq, Eq, Clone, Copy, Structural)]
pub enum PerformanceProfile {
    Quiet,
    Powersave,
    Entertainment,
    Performance,
}

/// The value that selects a profile on Clevo hardware.
pub open spec fn clevo_arg(profile: PerformanceProfile) -> u32 {
    match profile {
        PerformanceProfile::Quiet => 0x00,
        PerformanceProfile::Powersave => 0x01,
        PerformanceProfile::Entertainment => 0x02,
        PerformanceProfile::Performance => 0x03,
    }
}

impl Default for PerformanceProfile {
    fn default() -> (res: Self)
        ensures
            res == PerformanceProfile::Performance,
    {
        Self::Performance
    }
}

impl PerformanceProfile {
    /// The value that selects this profile on Clevo hardware.
    pub fn as_clevo_arg(&self) -> (arg: u32)
        ensures
            arg == clevo_arg(*self),
    {
        match self {
            PerformanceProfile::Quiet => 0x00,
            PerformanceProfile::Powersave => 0x01,
            PerformanceProfile::Entertainment => 0x02,
            PerformanceProfile::Performance => 0x03,
        }
    }
}

/// The hardware behind the device.
#[derive(Debug, PartialEq, Eq, Clone, Copy, Structural)]
pub enum Hw {
    Clevo,
    Uniwill,
}

/// Which hardware a device is, from the Clevo webcam switch read and the
/// Uniwill hardware check read: Clevo when the webcam switch reads 1, else
/// Uniwill when its check reads 1; `None` when neither (the platform is not
/// supported).
pub fn detect_hw(cl_webcam_sw: Result<u32, IoctlError>, uw_hw_check: Result<u32, IoctlError>) -> (hw:
    Option<Hw>)
    ensures
        cl_webcam_sw matches Ok(1u32) ==> hw == Some(Hw::Clevo),
        !(cl_webcam_sw matches Ok(1u32)) && (uw_hw_check matches Ok(1u32)) ==> hw == Some(
            Hw::Uniwill,
        ),
        !(cl_webcam_sw matches Ok(1u32)) && !(uw_hw_check matches Ok(1u32)) ==> hw is None,
{
    if let Ok(value) = cl_webcam_sw {
        if value == 1 {
            return Some(Hw::Clevo);
        }
    }
    if let Ok(value) = uw_hw_check {
        if value == 1 {
            return Some(Hw::Uniwill);
        }
    }
    None
}

/// The device register that holds a fan's info value.
#[derive(Debug, PartialEq, Eq, Clone, Copy, Structural)]
pub enum FanInfoRegister {
    ClevoFanInfo1,
    ClevoFanInfo2,
    ClevoFanInfo3,
    UniwillFanTemp1,
    UniwillFanTemp2,
}

/// The register with the info value of `fan`: Clevo has one per fan,
/// Uniwill only for the first two fans (the third is not available).
pub fn fan_info_register(hw: Hw, fan: Fan) -> (reg: Result<FanInfoRegister, IoctlError>)
    ensures
        hw == Hw::Uniwill && fan == Fan::Fan3 <==> reg is Err,
        reg matches Err(e) ==> e is DevNotAvailable,
        reg matches Ok(r) ==> r == match (hw, fan) {
            (Hw::Clevo, Fan::Fan1) => FanInfoRegister::ClevoFanInfo1,
            (Hw::Clevo, Fan::Fan2) => FanInfoRegister::ClevoFanInfo2,
            (Hw::Clevo, Fan::Fan3) => FanInfoRegister::ClevoFanInfo3,
            (Hw::Uniwill, Fan::Fan1) => FanInfoRegister::UniwillFanTemp1,
            (Hw::Uniwill, _) => FanInfoRegister::UniwillFanTemp2,
        },
{
    match (hw, fan) {
        (Hw::Clevo, Fan::Fan1) => Ok(FanInfoRegister::ClevoFanInfo1),
        (Hw::Clevo, Fan::Fan2) => Ok(FanInfoRegister::ClevoFanInfo2),
        (Hw::Clevo, Fan::Fan3) => Ok(FanInfoRegister::ClevoFanInfo3),
        (Hw::Uniwill, Fan::Fan1) => Ok(FanInfoRegister::UniwillFanTemp1),
        (Hw::Uniwill, Fan::Fan2) => Ok(FanInfoRegister::UniwillFanTemp2),
        (Hw::Uniwill, Fan::Fan3) => Err(IoctlError::DevNotAvailable),
    }
}

/// `percent` of the full raw speed `0xff`, rounded half up, with the
/// percentage clamped to 100.
pub open spec fn clevo_raw_speed(percent: u8) -> u8 {
    let p: int = if percent > 100 { 100 } else { percent as int };
    ((p * 255 + 50) / 100) as u8
}

/// A raw speed as a percentage of `0xff`, rounded half up.
pub open spec fn clevo_speed_percent(raw: u8) -> u8 {
    ((raw * 200 + 255) / 510) as u8
}

/// The raw fan speed for a percentage on Clevo hardware: the percentage,
/// clamped to 100, of `0xff`, rounded to the nearest integer.
pub fn fan_speed_raw_clevo(fan_speed_percent: u8) -> (raw: u8)
    ensures
        raw == clevo_raw_speed(fan_speed_percent),
{
    let p: u32 = if fan_speed_percent > 100 {
        100
    } else {
        fan_speed_percent as u32
    };
    ((p * 255 + 50) / 100) as u8
}

/// The fan speed in percent of a raw Clevo speed, rounded to the nearest
/// integer.
pub fn fan_speed_percent_from_raw(raw: u8) -> (percent: u8)
    ensures
        percent == clevo_speed_percent(raw),
        percent <= 100,
{
    let r = raw as u32;
    ((r * 200 + 255) / 510) as u8
}

/// The raw speed in the low byte of a fan info value.
pub fn fan_speed_raw_from_info(info: u32) -> (raw: u8)
    ensures
        raw == info % 256,
{
    assert(info & 0xff == info % 256) by (bit_vector);
    (info & 0xff) as u8
}

/// The speed argument for Clevo hardware: the three raw fan speeds packed
/// into the low three bytes, fan 1 lowest.
pub open spec fn pack_speeds(b0: u8, b1: u8, b2: u8) -> u32 {
    (b0 + b1 * 256 + b2 * 65536) as u32
}

/// The Clevo speed argument that sets `fan` to `fan_speed_percent` (clamped
/// to 100) and leaves the other fans as they are: the selected fan's byte
/// holds the new raw speed, each other byte the raw speed read from the
/// device for that fan (`current0` for fan 1, `current1` for fan 2,
/// `current2` for fan 3).
pub fn fan_speed_argument_clevo(
    fan: u8,
    fan_speed_percent: u8,
    current0: u8,
    current1: u8,
    current2: u8,
) -> (argument: u32)
    requires
        fan < 3,
    ensures
        ({
            let new = clevo_raw_speed(fan_speed_percent);
            argument == if fan == 0 {
                pack_speeds(new, current1, current2)
            } else if fan == 1 {
                pack_speeds(current0, new, current2)
            } else {
                pack_speeds(current0, current1, new)
            }
        }),
{
    let new = fan_speed_raw_clevo(fan_speed_percent);
    let (b0, b1, b2) = if fan == 0 {
        (new, current1, current2)
    } else if fan == 1 {
        (current0, new, current2)
    } else {
        (current0, current1, new)
    };
    let mut argument: u32 = b0 as u32;
    argument = argument | ((b1 as u32) << 8u32);
    argument = argument | ((b2 as u32) << 16u32);
    assert((b0 as u32) | ((b1 as u32) << 8u32) | ((b2 as u32) << 16u32) == (b0 as u32) + (b1
        as u32) * 256 + (b2 as u32) * 65536) by (bit_vector)
        requires
            b0 <= 255,
            b1 <= 255,
            b2 <= 255,
    ;
    argument
}

/// The raw fan speed for a percentage on Uniwill hardware in this interface:
/// the percentage of `0xff`, rounded to the nearest integer; values above
/// 100 are clamped to 100.
pub fn fan_speed_raw_uniwill(fan_speed_percent: u8) -> (raw: u32)
    ensures
        raw == clevo_raw_speed(fan_speed_percent),
{
    fan_speed_raw_clevo(fan_speed_percent) as u32
}

/// The fan temperature of a fan info value: not available when the value
/// is at most 1, else its low byte.
pub fn fan_temperature_from_info(info: u32) -> (temp: Result<u8, IoctlError>)
    ensures
        info <= 1 <==> temp is Err,
        temp matches Err(e) ==> e is DevNotAvailable,
        temp matches Ok(t) ==> t == info % 256,
{
    if info <= 1 {
        Err(IoctlError::DevNotAvailable)
    } else {
        assert(info & 0xff == info % 256) by (bit_vector);
        Ok((info & 0xff) as u8)
    }
}

/// The argument of the fan-auto switch: `0xF` hands the fans to the
/// firmware, `0x0` takes them back.
pub fn fans_auto_argument(auto: bool) -> (arg: u32)
    ensures
        arg == if auto { 0xFu32 } else { 0x0u32 },
{
    if auto {
        0xF
    } else {
        0x0
    }
}

/// The webcam switch argument for a status.
pub fn webcam_argument(status: bool) -> (arg: u32)
    ensures
        arg == if status { 1u32 } else { 0u32 },
{
    if status {
        1
    } else {
        0
    }
}

/// The webcam status of a switch value: enabled unless it reads 0.
pub fn webcam_enabled(value: u32) -> (enabled: bool)
    ensures
        enabled == (value != 0),
{
    value != 0
}

/// Setting a Clevo fan to a percentage from 0 to 100 and reading it back
/// yields the same percentage; larger percentages read back as 100.
pub proof fn lemma_clevo_speed_round_trip(percent: u8)
    ensures
        percent <= 100 ==> clevo_speed_percent(clevo_raw_speed(percent)) == percent,
        percent > 100 ==> clevo_speed_percent(clevo_raw_speed(percent)) == 100,
{
    let p: u32 = if percent > 100 {
        100
    } else {
        percent as u32
    };
    let raw: u32 = ((p * 255 + 50) / 100) as u32;
    assert((raw * 200 + 255) / 510 == p) by (bit_vector)
        requires
            p <= 100,
            raw == (p * 255 + 50) / 100,
    ;
}

/// Each fan's raw speed is found again in its byte of the packed argument.
pub proof fn lemma_pack_speeds_bytes(b0: u8, b1: u8, b2: u8)
    ensures
        pack_speeds(b0, b1, b2) % 256 == b0,
        (pack_speeds(b0, b1, b2) / 256) % 256 == b1,
        pack_speeds(b0, b1, b2) / 65536 == b2,
{
    let a: u32 = ((b0 as u32) + (b1 as u32) * 256 + (b2 as u32) * 65536) as u32;
    assert(a % 256 == b0 as u32 && (a / 256) % 256 == b1 as u32 && a / 65536 == b2 as u32)
        by (bit_vector)
        requires
            b0 <= 255,
            b1 <= 255,
            b2 <= 255,
            a == (b0 as u32) + (b1 as u32) * 256 + (b2 as u32) * 65536,
    ;
}

/// A Clevo percentage (clamped to 100) becomes the nearest raw speed out of
/// 255 (halves up), and a raw speed the nearest percentage (halves up); both
/// rise with their input.
pub proof fn lemma_clevo_speed_rounding(percent: u8, raw: u8, p2: u8, r2: u8)
    ensures
        ({
            let p: int = if percent > 100 { 100 } else { percent as int };
            p * 255 - 50 < 100 * clevo_raw_speed(percent) <= p * 255 + 50
        }),
        200 * raw - 255 < 510 * clevo_speed_percent(raw) <= 200 * raw + 255,
        percent <= p2 ==> clevo_raw_speed(percent) <= clevo_raw_speed(p2),
        raw <= r2 ==> clevo_speed_percent(raw) <= clevo_speed_percent(r2),
{
}

} // verus!
