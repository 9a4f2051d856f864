//! The decisions of one iteration of a fan's control loop.
use vstd::prelude::*;

use crate::tailord::fancontrol::buffer::{min_temperature, TemperatureBuffer};
use crate::tailord::fancontrol::profile::{
    first_at_or_above, target_fan_speed, FanProfile,
};

verus! {

/// Delay in milliseconds between two control iterations for a pressure from
/// 0 to 15: `2000 * exp(-pressure / 7)`, truncated to whole milliseconds.
pub open spec fn delay_for_pressure(pressure: int) -> u64 {
    if pressure <= 0 {
        2000
    } else if pressure == 1 {
        1733
    } else if pressure == 2 {
        1502
    } else if pressure == 3 {
        1302
    } else if pressure == 4 {
        1129
    } else if pressure == 5 {
        979
    } else if pressure == 6 {
        848
    } else if pressure == 7 {
        735
    } else if pressure == 8 {
        637
    } else if pressure == 9 {
        552
    } else if pressure == 10 {
        479
    } else if pressure == 11 {
        415
    } else if pressure == 12 {
        360
    } else if pressure == 13 {
        312
    } else if pressure == 14 {
        270
    } else {
        234
    }
}

/// How strongly the control loop is pressed to act: the temperature rise over
/// the history plus half the distance to the target speed, at most 15.
pub open spec fn control_pressure(temperature_pressure: int, fan_diff: u8) -> int {
    let p = temperature_pressure + fan_diff / 2;
    if p > 15 {
        15
    } else {
        p
    }
}

/// The control loop's delay for a history and a distance to the target speed.
pub open spec fn delay_for(buffer: TemperatureBuffer, fan_diff: u8) -> u64 {
    delay_for_pressure(control_pressure(buffer.latest() - min_temperature(buffer.history()), fan_diff))
}

fn delay_for_pressure_exec(pressure: u8) -> (delay: u64)
    requires
        pressure <= 15,
    ensures
        delay == delay_for_pressure(pressure as int),
{
    match pressure {
        0 => 2000,
        1 => 1733,
        2 => 1502,
        3 => 1302,
        4 => 1129,
        5 => 979,
        6 => 848,
        7 => 735,
        8 => 637,
        9 => 552,
        10 => 479,
        11 => 415,
        12 => 360,
        13 => 312,
        14 => 270,
        _ => 234,
    }
}

/// Calculate a suitable delay (in milliseconds) to reduce CPU usage: the
/// faster the temperature rises and the farther the fan is from its target
/// speed, the shorter the delay, from 2000 ms down to 234 ms.
pub fn suitable_delay(temp_buffer: &TemperatureBuffer, fan_diff: u8) -> (delay_ms: u64)
    ensures
        delay_ms == delay_for(*temp_buffer, fan_diff),
{
    // How much is the temperature changing?
    let temperature_pressure = temp_buffer.diff_to_min_in_history();
    // How much is the fan speed off from the ideal value?
    let fan_diff_pressure = fan_diff / 2;
    // Calculate an overall pressure value from 0 to 15.
    let sum = temperature_pressure.saturating_add(fan_diff_pressure);
    let pressure = if sum > 15 {
        15
    } else {
        sum
    };
    delay_for_pressure_exec(pressure)
}

/// A higher pressure never gives a longer delay, and every delay lies
/// between 234 ms and 2000 ms.
pub proof fn lemma_delay_monotone(p1: int, p2: int)
    requires
        p1 <= p2,
    ensures
        delay_for_pressure(p1) >= delay_for_pressure(p2),
        234 <= delay_for_pressure(p1) <= 2000,
{
}

/// The delay falls strictly with every step of pressure from 0 to 15: 2000 ms
/// without pressure, 234 ms at the most.
pub proof fn lemma_delay_strictly_falls(p1: int, p2: int)
    requires
        0 <= p1 < p2 <= 15,
    ensures
        delay_for_pressure(p1) > delay_for_pressure(p2),
        delay_for_pressure(0) == 2000,
        delay_for_pressure(15) == 234,
{
}

/// The delay's pressure adds the temperature rise over the history (the
/// latest reading minus the smallest one) and half the distance to the
/// target speed, capped at 15: a faster rise or a larger distance never
/// lengthens the delay, and below the cap each shortens it.
pub proof fn lemma_delay_adds_pressures(b1: TemperatureBuffer, b2: TemperatureBuffer, d1: u8, d2: u8)
    ensures
        ({
            let r1 = b1.latest() - min_temperature(b1.history());
            let total = r1 + d1 / 2;
            &&& 0 <= r1
            &&& delay_for(b1, d1) == delay_for_pressure(if total > 15 {
                15
            } else {
                total
            })
        }),
        ({
            let r1 = b1.latest() - min_temperature(b1.history());
            let r2 = b2.latest() - min_temperature(b2.history());
            &&& (r1 <= r2 && d1 / 2 <= d2 / 2 ==> delay_for(b1, d1) >= delay_for(b2, d2))
            &&& (r1 + d1 / 2 < r2 + d2 / 2 && r1 + d1 / 2 < 15 ==> delay_for(b1, d1) > delay_for(
                b2,
                d2,
            ))
        }),
{
    b1.lemma_shape();
    b2.lemma_shape();
    crate::tailord::fancontrol::buffer::lemma_latest_at_least_min(b1);
    crate::tailord::fancontrol::buffer::lemma_latest_at_least_min(b2);
    let r1 = b1.latest() - min_temperature(b1.history());
    let r2 = b2.latest() - min_temperature(b2.history());
    let p1 = control_pressure(r1, d1);
    let p2 = control_pressure(r2, d2);
    if p1 <= p2 {
        lemma_delay_monotone(p1, p2);
    }
    if p1 < p2 {
        lemma_delay_strictly_falls(p1, p2);
    }
}

/// The absolute difference of two speeds.
pub open spec fn speed_diff(a: u8, b: u8) -> u8 {
    if a > b {
        (a - b) as u8
    } else {
        (b - a) as u8
    }
}

/// The fan speed the control loop sets next: a step of a quarter of the
/// distance plus a fiftieth of the target, upward capped at 100 %,
/// downward saturating at 0 %.
pub open spec fn next_fan_speed(fan_speed: u8, target: u8) -> u8 {
    let increment = speed_diff(fan_speed, target) / 4 + target / 50;
    if target > fan_speed {
        if fan_speed + increment > 100 {
            100
        } else {
            (fan_speed + increment) as u8
        }
    } else if fan_speed >= increment {
        (fan_speed - increment) as u8
    } else {
        0
    }
}

/// The control step moves the fan speed toward the target, never above
/// 100 %; below a target of 50 % the speed is not raised unless the target
/// is more than 3 points away, and a rise always moves it once the target
/// is at least 50 % or four points away.
pub proof fn lemma_next_fan_speed_toward_target(fan_speed: u8, target: u8)
    requires
        fan_speed <= 100,
    ensures
        target > fan_speed ==> fan_speed <= next_fan_speed(fan_speed, target) <= 100,
        target > fan_speed && target < 50 && target - fan_speed <= 3 ==> next_fan_speed(
            fan_speed,
            target,
        ) == fan_speed,
        target > fan_speed && (target >= 50 || target - fan_speed >= 4) && fan_speed < 100
            ==> next_fan_speed(fan_speed, target) > fan_speed,
        target <= fan_speed ==> next_fan_speed(fan_speed, target) <= fan_speed,
{
}

/// Each step moves the speed by a quarter of its distance to the target plus
/// a fiftieth of the target: up toward a higher target (at most to 100 %),
/// down toward a lower one (at least to 0 %); a lower target at least four
/// points away always slows the fan.
pub proof fn lemma_next_fan_speed_step(fan_speed: u8, target: u8)
    ensures
        ({
            let up = (target - fan_speed) / 4 + target / 50;
            target > fan_speed ==> next_fan_speed(fan_speed, target) == if fan_speed + up > 100 {
                100
            } else {
                fan_speed + up
            }
        }),
        ({
            let down = (fan_speed - target) / 4 + target / 50;
            target < fan_speed ==> next_fan_speed(fan_speed, target) == if down > fan_speed {
                0
            } else {
                fan_speed - down
            }
        }),
        target + 4 <= fan_speed ==> next_fan_speed(fan_speed, target) < fan_speed,
        target == fan_speed ==> next_fan_speed(fan_speed, target) == if fan_speed >= target / 50 {
            fan_speed - target / 50
        } else {
            0
        },
{
}

/// What one iteration of the control loop decided.
pub struct FanStep {
    /// The temperature the iteration worked with.
    pub current_temp: u8,
    /// The speed the fan curve asks for at that temperature.
    pub target_fan_speed: u8,
    /// The speed to write to the fan, when it changed.
    pub write_speed: Option<u8>,
    /// How long to wait before the next iteration, in milliseconds.
    pub delay_ms: u64,
}

/// The state of one fan's control loop: its index, temperature history,
/// current speed in percent and fan curve.
#[derive(Debug)]
pub struct FanRuntimeData {
    pub fan_idx: u8,
    pub temp_history: TemperatureBuffer,
    pub fan_speed: u8,
    pub profile: FanProfile,
}

impl FanRuntimeData {
    /// The control state of fan `fan_idx` that runs at `fan_speed` and is at
    /// temperature `temp`.
    pub fn new(fan_idx: u8, fan_speed: u8, temp: u8, profile: FanProfile) -> (res: Self)
        ensures
            res.fan_idx == fan_idx,
            res.fan_speed == fan_speed,
            res.temp_history.history() == Seq::new(5, |i: int| temp),
            res.temp_history.latest() == temp,
            res.profile@ == profile@,
    {
        let temp_history = TemperatureBuffer::new(temp);
        Self { fan_idx, temp_history, fan_speed, profile }
    }

    /// The temperature an iteration works with for a reading: the reading
    /// itself, or the latest one when reading failed.
    pub open spec fn temperature_for(&self, reading: Option<u8>) -> u8 {
        match reading {
            Some(t) => t,
            None => self.temp_history.latest(),
        }
    }

    /// Adds a reading to the history; a failed reading (`None`) keeps the
    /// history and yields the latest temperature.
    pub fn update_temp(&mut self, reading: Option<u8>) -> (temp: u8)
        ensures
            temp == old(self).temperature_for(reading),
            final(self).temp_history.latest() == temp,
            reading matches Some(t) ==> old(self).temp_history.stored(t, final(self).temp_history),
            reading is None ==> final(self).temp_history == old(self).temp_history,
            final(self).fan_idx == old(self).fan_idx,
            final(self).fan_speed == old(self).fan_speed,
            final(self).profile == old(self).profile,
    {
        match reading {
            Some(temp) => {
                self.temp_history.update(temp);
                temp
            },
            None => self.temp_history.get_latest(),
        }
    }

    /// Records a new speed; returns whether it differs from the current one
    /// and must be written to the fan.
    pub fn set_speed(&mut self, new_speed: u8) -> (changed: bool)
        ensures
            changed == (old(self).fan_speed != new_speed),
            final(self).fan_speed == new_speed,
            final(self).fan_idx == old(self).fan_idx,
            final(self).temp_history == old(self).temp_history,
            final(self).profile == old(self).profile,
    {
        if self.fan_speed != new_speed {
            self.fan_speed = new_speed;
            true
        } else {
            false
        }
    }

    /// One iteration of the control loop for a temperature reading (`None`
    /// when reading failed): store the reading, move the speed one step
    /// toward the curve's target, and pick the delay until the next
    /// iteration from the temperature rise and the distance to the target.
    pub fn control_step(&mut self, reading: Option<u8>) -> (step: FanStep)
        ensures
            step.current_temp == old(self).temperature_for(reading),
            step.target_fan_speed == target_fan_speed(old(self).profile@, step.current_temp),
            final(self).fan_speed == next_fan_speed(old(self).fan_speed, step.target_fan_speed),
            step.write_speed == (if final(self).fan_speed != old(self).fan_speed {
                Some(final(self).fan_speed)
            } else {
                None::<u8>
            }),
            step.delay_ms == delay_for(
                final(self).temp_history,
                speed_diff(old(self).fan_speed, step.target_fan_speed),
            ),
            final(self).temp_history.latest() == step.current_temp,
            reading matches Some(t) ==> old(self).temp_history.stored(t, final(self).temp_history),
            reading is None ==> final(self).temp_history == old(self).temp_history,
            final(self).fan_idx == old(self).fan_idx,
            final(self).profile == old(self).profile,
    {
        // Add the current temperature to history
        let current_temp = self.update_temp(reading);
        let target = self.profile.calc_target_fan_speed(current_temp);
        let fan_diff: u8 = if self.fan_speed > target {
            self.fan_speed - target
        } else {
            target - self.fan_speed
        };
        // Make small steps to decrease or increase fan speed.
        let fan_increment: u8 = fan_diff / 4 + target / 50;
        let new_speed: u8 = if target > self.fan_speed {
            let raised = self.fan_speed.saturating_add(fan_increment);
            if raised > 100 {
                100
            } else {
                raised
            }
        } else {
            self.fan_speed.saturating_sub(fan_increment)
        };
        let changed = self.set_speed(new_speed);
        let delay_ms = suitable_delay(&self.temp_history, fan_diff);
        FanStep {
            current_temp,
            target_fan_speed: target,
            write_speed: if changed {
                Some(new_speed)
            } else {
                None
            },
            delay_ms,
        }
    }
}

} // verus!
