//! Uniwill hardware: fan speeds and temperatures, performance profiles and
//! power limits (TDPs).
use vstd::prelude::*;

use crate::ioctl::error::IoctlError;
use crate::text::str_eq;

verus! {

/// The raw value of a Uniwill fan at full speed.
pub const MAX_FAN_SPEED: u8 = 0xc8;

/// Name of the balanced performance profile.
pub open spec fn balanced() -> Seq<char> {
    "power_save"@
}

/// Name of the enthusiast performance profile.
pub open spec fn enthusiast() -> Seq<char> {
    "enthusiast"@
}

/// Name of the overboost performance profile.
pub open spec fn overboost() -> Seq<char> {
    "overboost"@
}

/// The profiles offered for a "profiles available" value: none for 0, the
/// first two for 2, all three for 3; other values are not understood.
pub open spec fn available_profile_names(profs_available: u32) -> Option<Seq<Seq<char>>> {
    if profs_available == 0 {
        Some(Seq::empty())
    } else if profs_available == 2 {
        Some(seq![balanced(), enthusiast()])
    } else if profs_available == 3 {
        Some(seq![balanced(), enthusiast(), overboost()])
    } else {
        None
    }
}

/// The id that selects a profile on the device.
pub open spec fn profile_id(name: Seq<char>) -> Option<u8> {
    if name == balanced() {
        Some(1)
    } else if name == enthusiast() {
        Some(2)
    } else if name == overboost() {
        Some(3)
    } else {
        None
    }
}

/// The character sequences of a list of strings.
pub open spec fn names_of(v: Seq<String>) -> Seq<Seq<char>> {
    v.map_values(|s: String| s@)
}

/// Whether the Uniwill hardware check value shows Uniwill hardware.
pub fn is_uniwill(hw_check: Result<u32, IoctlError>) -> (res: Result<(), IoctlError>)
    ensures
        hw_check matches Ok(1u32) <==> res is Ok,
        hw_check matches Ok(v) && v != 1 ==> res matches Err(IoctlError::DevNotAvailable),
        hw_check matches Err(e) ==> res == Err::<(), IoctlError>(e),
{
    match hw_check {
        Ok(v) => if v == 1 {
            Ok(())
        } else {
            Err(IoctlError::DevNotAvailable)
        },
        Err(e) => Err(e),
    }
}

/// The temperature of a fan from its temperature read: not available when
/// the read fails or gives 0 (no fan), else the low byte of the value.
pub fn fan_temperature(read: Result<u32, IoctlError>) -> (temp: Result<u8, IoctlError>)
    ensures
        read matches Ok(v) && v != 0 <==> temp is Ok,
        read matches Ok(0u32) ==> temp matches Err(IoctlError::DevNotAvailable),
        read matches Err(e) ==> temp == Err::<u8, IoctlError>(e),
        temp matches Ok(t) ==> read matches Ok(v) && t == v % 256,
{
    match read {
        Ok(temp) => {
            // Also use known set value (0x00) from tccwmi to detect no temp/fan
            if temp == 0 {
                Err(IoctlError::DevNotAvailable)
            } else {
                assert(temp & 0xff == temp % 256) by (bit_vector);
                Ok((temp & 0xff) as u8)
            }
        },
        Err(e) => Err(e),
    }
}

/// The number of fans: counting from fan 0, the fans whose temperature can
/// be read (Uniwill hardware has at most two).
pub fn number_of_fans(fan0_temp: &Result<u8, IoctlError>, fan1_temp: &Result<u8, IoctlError>) -> (n:
    u8)
    ensures
        n == if fan0_temp is Err {
            0u8
        } else if fan1_temp is Err {
            1u8
        } else {
            2u8
        },
{
    if fan0_temp.is_err() {
        0
    } else if fan1_temp.is_err() {
        1
    } else {
        2
    }
}

/// The raw speed of a percentage: percentages above 100 count as 100, and
/// `0xc8` is full speed, so twice the percentage.
pub open spec fn uniwill_raw_speed(percent: u8) -> int {
    2 * if percent > 100 {
        100
    } else {
        percent as int
    }
}

/// The percentage of a raw speed: half of it rounded to the nearest
/// integer, at most 100.
pub open spec fn uniwill_speed_percent(raw: u32) -> u8 {
    if (raw + 1) / 2 > 100 {
        100
    } else {
        ((raw + 1) / 2) as u8
    }
}

/// The raw speed for a percentage from 0 to 100; values above 100 are
/// clamped to 100.
pub fn fan_speed_raw(fan_speed_percent: u8) -> (raw: i32)
    ensures
        raw == uniwill_raw_speed(fan_speed_percent),
{
    let percent: i32 = if fan_speed_percent > 100 {
        100
    } else {
        fan_speed_percent as i32
    };
    2 * percent
}

/// The speed in percent from 0 to 100 of a raw speed, rounded to the
/// nearest integer.
pub fn fan_speed_percent(fan_speed_raw: u32) -> (percent: u8)
    ensures
        percent == uniwill_speed_percent(fan_speed_raw),
        percent <= 100,
{
    let half = ((fan_speed_raw as u64) + 1) / 2;
    if half > 100 {
        100
    } else {
        half as u8
    }
}

/// The fans' minimum speed of a raw value; 0 when it does not fit a byte.
pub fn fans_min_speed(raw: u32) -> (speed: u8)
    ensures
        speed == if raw <= 255 {
            raw
        } else {
            0
        },
{
    if raw <= 255 {
        raw as u8
    } else {
        0
    }
}

/// Whether the fans can be switched off (the device reads 1).
pub fn fans_off_available(raw: u32) -> (available: bool)
    ensures
        available == (raw == 1),
{
    raw == 1
}

/// The argument that enables or disables mode setting.
pub fn enable_mode_argument(enabled: bool) -> (arg: i32)
    ensures
        arg == if enabled { 1i32 } else { 0i32 },
{
    if enabled {
        1
    } else {
        0
    }
}

/// The performance profiles that the device offers for its "profiles
/// available" value.
pub fn available_odm_performance_profiles(profs_available: u32) -> (res: Result<
    Vec<String>,
    IoctlError,
>)
    ensures
        available_profile_names(profs_available) is Some <==> res is Ok,
        res matches Ok(v) ==> Some(names_of(v@)) == available_profile_names(profs_available),
        res matches Err(e) ==> e is DevNotAvailable,
{
    if profs_available == 0 {
        let v: Vec<String> = Vec::new();
        assert(names_of(v@) =~= Seq::<Seq<char>>::empty());
        Ok(v)
    } else if profs_available == 2 {
        let v = vec![String::from_str("power_save"), String::from_str("enthusiast")];
        assert(names_of(v@) =~= seq![balanced(), enthusiast()]);
        Ok(v)
    } else if profs_available == 3 {
        let v = vec![
            String::from_str("power_save"),
            String::from_str("enthusiast"),
            String::from_str("overboost"),
        ];
        assert(names_of(v@) =~= seq![balanced(), enthusiast(), overboost()]);
        Ok(v)
    } else {
        Err(IoctlError::DevNotAvailable)
    }
}

/// The id that selects the profile called `performance_profile`; an
/// unknown name is refused.
pub fn odm_performance_profile_id(performance_profile: &str) -> (res: Result<u8, IoctlError>)
    ensures
        profile_id(performance_profile@) is Some <==> res is Ok,
        res matches Ok(id) ==> profile_id(performance_profile@) == Some(id),
        res matches Err(e) ==> e is InvalidArgs,
{
    if str_eq(performance_profile, "power_save") {
        Ok(1)
    } else if str_eq(performance_profile, "enthusiast") {
        Ok(2)
    } else if str_eq(performance_profile, "overboost") {
        Ok(3)
    } else {
        Err(IoctlError::InvalidArgs)
    }
}

/// The default profile: overboost when the device has power limits,
/// enthusiast otherwise; not available when the device offers no profiles.
/// A failed power limit count counts as none.
pub fn default_odm_performance_profile(
    profs_available: u32,
    number_tdps: Result<u8, IoctlError>,
) -> (res: Result<String, IoctlError>)
    ensures
        profs_available > 0 <==> res is Ok,
        res matches Ok(name) ==> name@ == if number_tdps matches Ok(n) && n > 0 {
            overboost()
        } else {
            enthusiast()
        },
        res matches Err(e) ==> e is DevNotAvailable,
{
    if profs_available > 0 {
        let nr_tdps: u8 = match number_tdps {
            Ok(n) => n,
            Err(_) => 0,
        };
        if nr_tdps > 0 {
            Ok(String::from_str("overboost"))
        } else {
            Ok(String::from_str("enthusiast"))
        }
    } else {
        Err(IoctlError::DevNotAvailable)
    }
}

/// A power limit read that shows the limit is configurable.
pub open spec fn tdp_configurable(read: Result<i32, IoctlError>) -> bool {
    read matches Ok(v) && v >= 0
}

/// The number of configurable power limits from the reads of limits 0, 1
/// and 2: one more than the highest index whose read succeeds with a
/// non-negative value; not available when there is none.
pub fn number_tdps(
    tdp0: Result<i32, IoctlError>,
    tdp1: Result<i32, IoctlError>,
    tdp2: Result<i32, IoctlError>,
) -> (res: Result<u8, IoctlError>)
    ensures
        tdp_configurable(tdp2) ==> res == Ok::<u8, IoctlError>(3),
        !tdp_configurable(tdp2) && tdp_configurable(tdp1) ==> res == Ok::<u8, IoctlError>(2),
        !tdp_configurable(tdp2) && !tdp_configurable(tdp1) && tdp_configurable(tdp0) ==> res
            == Ok::<u8, IoctlError>(1),
        !tdp_configurable(tdp2) && !tdp_configurable(tdp1) && !tdp_configurable(tdp0) ==> res
            matches Err(IoctlError::DevNotAvailable),
{
    if let Ok(result) = tdp2 {
        if result >= 0 {
            return Ok(3);
        }
    }
    if let Ok(result) = tdp1 {
        if result >= 0 {
            return Ok(2);
        }
    }
    if let Ok(result) = tdp0 {
        if result >= 0 {
            return Ok(1);
        }
    }
    Err(IoctlError::DevNotAvailable)
}

/// The names of the first `n` power limits: `pl1`, `pl2`, `pl4`.
pub open spec fn tdp_names(n: u8) -> Seq<Seq<char>> {
    let all = seq!["pl1"@, "pl2"@, "pl4"@];
    if n >= 3 {
        all
    } else {
        all.subrange(0, n as int)
    }
}

/// The descriptors of `tdps` configurable power limits.
pub fn tdp_descriptors(tdps: u8) -> (descriptors: Vec<String>)
    ensures
        names_of(descriptors@) == tdp_names(tdps),
{
    let mut tdp_descriptors: Vec<String> = Vec::new();
    if tdps >= 1 {
        tdp_descriptors.push(String::from_str("pl1"));
    }
    if tdps >= 2 {
        tdp_descriptors.push(String::from_str("pl2"));
    }
    if tdps >= 3 {
        tdp_descriptors.push(String::from_str("pl4"));
    }
    assert(names_of(tdp_descriptors@) =~= tdp_names(tdps));
    tdp_descriptors
}

/// Whether a power limit index addresses one of the three limits.
pub fn tdp_index_valid(tdp_index: u8) -> (res: Result<(), IoctlError>)
    ensures
        tdp_index <= 2 <==> res is Ok,
        res matches Err(e) ==> e is DevNotAvailable,
{
    if tdp_index <= 2 {
        Ok(())
    } else {
        Err(IoctlError::DevNotAvailable)
    }
}

/// Every profile the device offers can be selected, and so can the default
/// profile.
pub proof fn lemma_offered_profiles_selectable(profs_available: u32, name: Seq<char>)
    ensures
        available_profile_names(profs_available) matches Some(names) && names.contains(name)
            ==> profile_id(name) is Some,
        profile_id(overboost()) is Some,
        profile_id(enthusiast()) is Some,
{
    match available_profile_names(profs_available) {
        Some(names) => {
            if names.contains(name) {
                let k = choose|k: int| 0 <= k < names.len() && names[k] == name;
                assert(name == balanced() || name == enthusiast() || name == overboost());
            }
        },
        None => {},
    }
}

/// Setting a Uniwill fan to a percentage and reading the raw value back
/// yields the same percentage, or 100 for percentages above 100.
pub proof fn lemma_uniwill_speed_round_trip(percent: u8)
    ensures
        percent <= 100 ==> uniwill_speed_percent(uniwill_raw_speed(percent) as u32) == percent,
        percent > 100 ==> uniwill_speed_percent(uniwill_raw_speed(percent) as u32) == 100,
{
}

/// There is one descriptor per configurable power limit, at most three.
pub proof fn lemma_tdp_descriptor_count(n: u8)
    ensures
        tdp_names(n).len() == if n >= 3 {
            3
        } else {
            n as int
        },
{
}

/// Each descriptor names its power limit whatever the number of limits: the
/// first is `pl1`, the second `pl2` and the third `pl4`.
pub proof fn lemma_tdp_descriptor_names(n: u8, i: int)
    requires
        0 <= i < tdp_names(n).len(),
    ensures
        i == 0 ==> tdp_names(n)[i] == seq!['p', 'l', '1'],
        i == 1 ==> tdp_names(n)[i] == seq!['p', 'l', '2'],
        i == 2 ==> tdp_names(n)[i] == seq!['p', 'l', '4'],
        i < 3,
{
    reveal_strlit("pl1");
    reveal_strlit("pl2");
    reveal_strlit("pl4");
    assert("pl1"@ =~= seq!['p', 'l', '1']);
    assert("pl2"@ =~= seq!['p', 'l', '2']);
    assert("pl4"@ =~= seq!['p', 'l', '4']);
}

/// A Uniwill raw speed reads as half of it, rounded halves up, and at most
/// 100 %; a percentage is written as twice itself, clamped to 100 %.
pub proof fn lemma_uniwill_speed_rounding(raw: u32, percent: u8)
    ensures
        raw <= 200 ==> raw <= 2 * uniwill_speed_percent(raw) <= raw + 1,
        raw >= 200 ==> uniwill_speed_percent(raw) == 100,
        percent <= 100 ==> uniwill_raw_speed(percent) == 2 * percent,
        percent >= 100 ==> uniwill_raw_speed(percent) == 200,
{
}

} // verus!
