//! Profiles: where they live, which profile is active, and how the
//! parts of a profile are found for each device.
use vstd::prelude::*;
use vstd::string::*;

use crate::tailord::fancontrol::profile::{default_points, FanProfile};
use crate::text::str_eq;

verus! {

/// Directory of the profiles.
pub const PROFILE_DIR: &'static str = "/etc/tailord/profiles/";

/// Directory of the LED color profiles.
pub const LED_DIR: &'static str = "/etc/tailord/led/";

/// Directory of the fan profiles.
pub const FAN_DIR: &'static str = "/etc/tailord/fan/";

/// The path of the profile link used on the power supply.
pub open spec fn power_profile_path() -> Seq<char> {
    "/etc/tailord/power_profile.json"@
}

/// The path of the profile link used on battery.
pub open spec fn battery_profile_path() -> Seq<char> {
    "/etc/tailord/battery_profile.json"@
}

/// The link to the active profile: the power profile while the power supply
/// is connected, the battery profile otherwise.
pub fn active_profile_path(power_connected: bool) -> (path: &'static str)
    ensures
        path@ == if power_connected {
            power_profile_path()
        } else {
            battery_profile_path()
        },
{
    if power_connected {
        "/etc/tailord/power_profile.json"
    } else {
        "/etc/tailord/battery_profile.json"
    }
}

/// An LED device: its driver's name and its function.
#[derive(Debug)]
pub struct LedDeviceInfo {
    pub device_name: String,
    pub function: String,
}

/// The LED color profile a profile assigns to an LED device.
#[derive(Debug)]
pub struct LedProfile {
    pub device_name: String,
    pub function: String,
    pub profile: String,
}

/// The index of the first device description that names the device
/// `device_name` with function `function`, if any.
pub fn find_led_device(infos: &Vec<LedDeviceInfo>, device_name: &str, function: &str) -> (idx:
    Option<usize>)
    ensures
        idx matches Some(i) ==> i < infos@.len() && infos@[i as int].device_name@ == device_name@
            && infos@[i as int].function@ == function@ && forall|k: int|
            0 <= k < i ==> !(#[trigger] infos@[k].device_name@ == device_name@
                && infos@[k].function@ == function@),
        idx is None ==> forall|k: int|
            0 <= k < infos@.len() ==> !(#[trigger] infos@[k].device_name@ == device_name@
                && infos@[k].function@ == function@),
{
    let mut i: usize = 0;
    while i < infos.len()
        invariant
            0 <= i <= infos@.len(),
            forall|k: int|
                0 <= k < i ==> !(#[trigger] infos@[k].device_name@ == device_name@
                    && infos@[k].function@ == function@),
        decreases infos@.len() - i,
    {
        if str_eq(infos[i].device_name.as_str(), device_name) && str_eq(
            infos[i].function.as_str(),
            function,
        ) {
            return Some(i);
        }
        i = i + 1;
    }
    None
}

/// The fan profile of fan `idx`: the profile's entry for it, or the default
/// curve when the profile has none.
pub fn fan_profile_for(fans: &Vec<FanProfile>, idx: usize) -> (profile: FanProfile)
    ensures
        profile@ == if idx < fans@.len() {
            fans@[idx as int]@
        } else {
            default_points()
        },
{
    if idx < fans.len() {
        fans[idx].clone()
    } else {
        FanProfile::default()
    }
}

/// Whether one of the LED assignments uses the color profile `name`.
pub fn references_led_profile(leds: &Vec<LedProfile>, name: &str) -> (found: bool)
    ensures
        found == exists|k: int| 0 <= k < leds@.len() && #[trigger] leds@[k].profile@ == name@,
{
    let mut i: usize = 0;
    while i < leds.len()
        invariant
            0 <= i <= leds@.len(),
            forall|k: int| 0 <= k < i ==> #[trigger] leds@[k].profile@ != name@,
        decreases leds@.len() - i,
    {
        if str_eq(leds[i].profile.as_str(), name) {
            return true;
        }
        i = i + 1;
    }
    false
}

/// Points every LED assignment that uses the color profile `from` to `to`
/// instead; returns whether any assignment changed.
pub fn rename_led_profile_references(leds: &mut Vec<LedProfile>, from: &str, to: &str) -> (changed:
    bool)
    ensures
        final(leds)@.len() == old(leds)@.len(),
        forall|k: int|
            0 <= k < old(leds)@.len() ==> (if old(leds)@[k].profile@ == from@ {
                &&& (#[trigger] final(leds)@[k]).profile@ == to@
                &&& final(leds)@[k].device_name@ == old(leds)@[k].device_name@
                &&& final(leds)@[k].function@ == old(leds)@[k].function@
            } else {
                final(leds)@[k] == old(leds)@[k]
            }),
        changed == exists|k: int| 0 <= k < old(leds)@.len() && #[trigger] old(leds)@[k].profile@
            == from@,
{
    let ghost before = leds@;
    let mut changed = false;
    let mut i: usize = 0;
    while i < leds.len()
        invariant
            leds@.len() == before.len(),
            0 <= i <= before.len(),
            forall|k: int|
                0 <= k < i ==> (if before[k].profile@ == from@ {
                    &&& (#[trigger] leds@[k]).profile@ == to@
                    &&& leds@[k].device_name@ == before[k].device_name@
                    &&& leds@[k].function@ == before[k].function@
                } else {
                    leds@[k] == before[k]
                }),
            forall|k: int| i <= k < before.len() ==> #[trigger] leds@[k] == before[k],
            changed == exists|k: int| 0 <= k < i && #[trigger] before[k].profile@ == from@,
        decreases before.len() - i,
    {
        if str_eq(leds[i].profile.as_str(), from) {
            let led = LedProfile {
                device_name: leds[i].device_name.clone(),
                function: leds[i].function.clone(),
                profile: String::from_str(to),
            };
            leds.set(i, led);
            changed = true;
        }
        i = i + 1;
    }
    changed
}

/// Whether the list of profile names holds `name`.
pub fn contains_name(names: &Vec<String>, name: &str) -> (found: bool)
    ensures
        found == exists|k: int| 0 <= k < names@.len() && #[trigger] names@[k]@ == name@,
{
    let mut i: usize = 0;
    while i < names.len()
        invariant
            0 <= i <= names@.len(),
            forall|k: int| 0 <= k < i ==> #[trigger] names@[k]@ != name@,
        decreases names@.len() - i,
    {
        if str_eq(names[i].as_str(), name) {
            return true;
        }
        i = i + 1;
    }
    false
}

/// After a rename no assignment uses the old name (unless it is the new
/// name too), and exactly the assignments that used it use the new one.
pub proof fn lemma_rename_leaves_no_reference(
    before: Seq<LedProfile>,
    after: Seq<LedProfile>,
    from: Seq<char>,
    to: Seq<char>,
)
    requires
        after.len() == before.len(),
        forall|k: int|
            0 <= k < before.len() ==> (if before[k].profile@ == from {
                (#[trigger] after[k]).profile@ == to
            } else {
                after[k] == before[k]
            }),
        from != to,
    ensures
        forall|k: int| 0 <= k < after.len() ==> #[trigger] after[k].profile@ != from,
        forall|k: int|
            0 <= k < after.len() ==> (#[trigger] after[k].profile@ == to <==> (
            before[k].profile@ == from || before[k].profile@ == to)),
{
    assert forall|k: int| 0 <= k < after.len() implies #[trigger] after[k].profile@ != from by {
        if before[k].profile@ == from {
        } else {
            assert(after[k] == before[k]);
        }
    }
    assert forall|k: int| 0 <= k < after.len() implies (#[trigger] after[k].profile@ == to <==> (
    before[k].profile@ == from || before[k].profile@ == to)) by {
        if before[k].profile@ == from {
        } else {
            assert(after[k] == before[k]);
        }
    }
}

} // verus!
