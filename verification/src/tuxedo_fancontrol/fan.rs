//! The stand-alone fan controller's decisions: temperature history and
//! averages, the profile segment of a temperature, and when and how the fan
//! speed may change.
use std::collections::VecDeque;
use vstd::prelude::*;

use crate::tuxedo_fancontrol::config::{FanData, FanEvolution, TempProfile};

verus! {

/// Average temperatures over different spans of the history.
#[derive(Debug, Clone, Copy, PartialEq, Eq, Structural)]
pub struct TempLoad {
    /// At the current loop.
    pub l1: u8,
    /// Over 5 loops.
    pub l5: u8,
    /// Over 15 loops.
    pub l15: u8,
    /// Over 30 loops.
    pub l30: u8,
    /// Over the whole history.
    pub lall: u8,
}

/// The sum of a sequence of temperatures.
pub open spec fn sum(s: Seq<u8>) -> int
    decreases s.len(),
{
    if s.len() == 0 {
        0
    } else {
        sum(s.drop_last()) + s.last()
    }
}

proof fn lemma_sum_bounds(s: Seq<u8>)
    ensures
        0 <= sum(s) <= 255 * s.len(),
    decreases s.len(),
{
    if s.len() > 0 {
        lemma_sum_bounds(s.drop_last());
    }
}

/// The average of the last `n` temperatures when the history has that
/// many, else of the whole history (rounded down).
pub open spec fn window_mean(s: Seq<u8>, n: Option<u32>) -> int {
    match n {
        Some(k) if s.len() >= k => sum(s.subrange(s.len() - k, s.len() as int)) / (k as int),
        _ => sum(s) / (s.len() as int),
    }
}

/// A history whose averages can be computed: not empty and not longer than
/// the 32-bit sum of its values allows.
pub open spec fn history_averageable(s: Seq<u8>) -> bool {
    0 < s.len() && 255 * s.len() <= u32::MAX
}

/// The average temperature over the last `looptimes` loops, or over the
/// whole history when `looptimes` is `None` or the history is shorter.
pub fn s_temp_load(temp_history: &VecDeque<u8>, looptimes_o: Option<u32>) -> (load: u8)
    requires
        history_averageable(temp_history@),
        looptimes_o != Some(0u32),
    ensures
        load == window_mean(temp_history@, looptimes_o),
{
    let len = temp_history.len();
    if let Some(looptimes) = looptimes_o {
        // calculate the average on a specific amount of loops
        if len as u64 >= looptimes as u64 {
            let start_pos = len - looptimes as usize;
            return s_mean(temp_history, start_pos, looptimes);
        }
    }
    // or calculate the average on the whole array
    assert(temp_history@.subrange(0, len as int) =~= temp_history@);
    s_mean(temp_history, 0, len as u32)
}

/// The average of the history from `start` on, over `length` values.
fn s_mean(temp_history: &VecDeque<u8>, start: usize, length: u32) -> (mean: u8)
    requires
        start + length == temp_history@.len(),
        length > 0,
        255 * temp_history@.len() <= u32::MAX,
    ensures
        mean == sum(temp_history@.subrange(start as int, temp_history@.len() as int)) / (
        length as int),
{
    let ghost s = temp_history@;
    let n = temp_history.len();
    let mut history_sum: u32 = 0;
    let mut i: usize = start;
    while i < n
        invariant
            s == temp_history@,
            n == s.len(),
            start <= i <= n,
            255 * s.len() <= u32::MAX,
            history_sum == sum(s.subrange(start as int, i as int)),
        decreases n - i,
    {
        proof {
            lemma_sum_bounds(s.subrange(start as int, i as int));
            assert(s.subrange(start as int, i + 1).drop_last() =~= s.subrange(
                start as int,
                i as int,
            ));
        }
        history_sum = history_sum + temp_history[i] as u32;
        i = i + 1;
    }
    proof {
        lemma_sum_bounds(s.subrange(start as int, n as int));
        assert(history_sum / length <= 255) by (nonlinear_arith)
            requires
                history_sum <= 255 * length,
                length > 0,
        ;
    }
    (history_sum / length) as u8
}

/// The averages over the current loop, 5, 15 and 30 loops and the whole
/// history.
pub fn calc_temp_load(temp_history: &VecDeque<u8>) -> (load: TempLoad)
    requires
        history_averageable(temp_history@),
    ensures
        load.l1 == window_mean(temp_history@, Some(1u32)),
        load.l5 == window_mean(temp_history@, Some(5u32)),
        load.l15 == window_mean(temp_history@, Some(15u32)),
        load.l30 == window_mean(temp_history@, Some(30u32)),
        load.lall == window_mean(temp_history@, None),
{
    TempLoad {
        l1: s_temp_load(temp_history, Some(1)),
        l5: s_temp_load(temp_history, Some(5)),
        l15: s_temp_load(temp_history, Some(15)),
        l30: s_temp_load(temp_history, Some(30)),
        lall: s_temp_load(temp_history, None),
    }
}

/// Adds a temperature to the history, dropping the oldest entry when the
/// history already holds `history_max_entries` entries.
pub fn add_temp(temp_history: &mut VecDeque<u8>, history_max_entries: u32, temp: u8)
    ensures
        final(temp_history)@ == if old(temp_history)@.len() >= history_max_entries && old(
            temp_history,
        )@.len() > 0 {
            old(temp_history)@.drop_first().push(temp)
        } else {
            old(temp_history)@.push(temp)
        },
{
    if temp_history.len() as u64 >= history_max_entries as u64 {
        let _ = temp_history.pop_front();
    }
    temp_history.push_back(temp);
}

/// The history never grows beyond its maximum number of entries (or one
/// entry, when the maximum is 0), and its newest entry is the one added.
pub proof fn lemma_history_bounded(s: Seq<u8>, max_entries: u32, temp: u8)
    requires
        s.len() <= if max_entries == 0 {
            1
        } else {
            max_entries as int
        },
    ensures
        ({
            let r = if s.len() >= max_entries && s.len() > 0 {
                s.drop_first().push(temp)
            } else {
                s.push(temp)
            };
            &&& r.len() <= if max_entries == 0 {
                1
            } else {
                max_entries as int
            }
            &&& r.last() == temp
        }),
{
}

/// Where a temperature lies in the profile.
#[derive(Debug, Clone, Copy, PartialEq, Eq, Structural)]
pub enum TempSegment {
    /// Below the entry it was compared with: the fan speed of the first entry.
    Below(u8),
    /// Between two neighbouring entries (at the lower one or above it).
    Between(TempProfile, TempProfile),
    /// At or above the last entry: its fan speed.
    Above(u8),
}

/// The segment of the profile, scanning from entry `i`, that a temperature
/// falls into.
pub open spec fn segment_from(s: Seq<TempProfile>, t: u8, i: int) -> TempSegment
    decreases s.len() - i,
{
    if i < 0 || i >= s.len() {
        TempSegment::Above(s.last().fan)
    } else if t < s[i].temp {
        TempSegment::Below(s[0].fan)
    } else if i + 1 < s.len() {
        if t < s[i + 1].temp {
            TempSegment::Between(s[i], s[i + 1])
        } else {
            segment_from(s, t, i + 1)
        }
    } else {
        TempSegment::Above(s.last().fan)
    }
}

/// Finds between which entries of the (non-empty) profile the current
/// temperature lies: below the entry it is compared with (the first
/// entry's speed applies), between two neighbours (the speed is
/// interpolated), or above the last entry (its speed applies).
pub fn temp_segment(current_temp: u8, temp_profile: &Vec<TempProfile>) -> (seg: TempSegment)
    requires
        temp_profile@.len() > 0,
    ensures
        seg == segment_from(temp_profile@, current_temp, 0),
{
    let ghost s = temp_profile@;
    let n = temp_profile.len();
    let mut i: usize = 0;
    while i < n
        invariant
            s == temp_profile@,
            n == s.len(),
            0 < n,
            0 <= i <= n,
            segment_from(s, current_temp, 0) == segment_from(s, current_temp, i as int),
        decreases n - i,
    {
        let entry = temp_profile[i];
        if current_temp < entry.temp {
            // current temp is lower than the element: the first element applies
            return TempSegment::Below(temp_profile[0].fan);
        }
        if i + 1 < n {
            let next_entry = temp_profile[i + 1];
            if current_temp < next_entry.temp {
                // right in the middle
                return TempSegment::Between(entry, next_entry);
            }
        } else {
            // current temp is higher than the last element
            return TempSegment::Above(temp_profile[n - 1].fan);
        }
        i = i + 1;
    }
    TempSegment::Above(temp_profile[n - 1].fan)
}

/// For a profile whose temperatures strictly increase, a temperature between
/// two neighbours lies at or above the lower one and below the upper one, and
/// only a temperature below the first entry is reported below.
pub proof fn lemma_segment_of_sorted_profile(s: Seq<TempProfile>, t: u8)
    requires
        s.len() > 0,
        forall|i: int, j: int| 0 <= i < j < s.len() ==> #[trigger] s[i].temp < #[trigger] s[j].temp,
    ensures
        segment_from(s, t, 0) matches TempSegment::Between(lo, hi) ==> lo.temp <= t < hi.temp,
        segment_from(s, t, 0) is Below <==> t < s[0].temp,
        segment_from(s, t, 0) is Above ==> t >= s.last().temp,
{
    lemma_segment_from_sorted(s, t, 0);
}

proof fn lemma_segment_from_sorted(s: Seq<TempProfile>, t: u8, i: int)
    requires
        s.len() > 0,
        0 <= i < s.len(),
        i > 0 ==> t >= s[i].temp,
        forall|a: int, b: int| 0 <= a < b < s.len() ==> #[trigger] s[a].temp < #[trigger] s[b].temp,
    ensures
        segment_from(s, t, i) matches TempSegment::Between(lo, hi) ==> lo.temp <= t < hi.temp,
        segment_from(s, t, i) is Below <==> (i == 0 && t < s[0].temp),
        segment_from(s, t, i) is Above ==> t >= s.last().temp,
    decreases s.len() - i,
{
    if t < s[i].temp {
    } else if i + 1 < s.len() {
        if t >= s[i + 1].temp {
            lemma_segment_from_sorted(s, t, i + 1);
        }
    }
}

/// The segment names the speeds of the profile: below the profile the first
/// entry's speed, above it the last entry's speed, and in between two
/// neighbouring entries of the profile.
pub proof fn lemma_segment_values(s: Seq<TempProfile>, t: u8)
    requires
        s.len() > 0,
    ensures
        segment_from(s, t, 0) matches TempSegment::Below(f) ==> f == s[0].fan,
        segment_from(s, t, 0) matches TempSegment::Above(f) ==> f == s[s.len() - 1].fan,
        segment_from(s, t, 0) matches TempSegment::Between(lo, hi) ==> exists|i: int|
            0 <= i && i + 1 < s.len() && lo == s[i] && hi == #[trigger] s[i + 1],
{
    lemma_segment_values_from(s, t, 0);
}

proof fn lemma_segment_values_from(s: Seq<TempProfile>, t: u8, i: int)
    requires
        s.len() > 0,
        0 <= i,
    ensures
        segment_from(s, t, i) matches TempSegment::Below(f) ==> f == s[0].fan,
        segment_from(s, t, i) matches TempSegment::Above(f) ==> f == s[s.len() - 1].fan,
        segment_from(s, t, i) matches TempSegment::Between(lo, hi) ==> exists|k: int|
            0 <= k && k + 1 < s.len() && lo == s[k] && hi == #[trigger] s[k + 1],
    decreases s.len() - i,
{
    if i < s.len() && t >= s[i].temp && i + 1 < s.len() {
        if t < s[i + 1].temp {
            assert(s[i + 1] == s[i + 1]);
        } else {
            lemma_segment_values_from(s, t, i + 1);
        }
    }
}

/// The distance of two speeds: the larger minus the smaller, the same both
/// ways round.
pub proof fn lemma_abs_diff(a: u8, b: u8)
    ensures
        abs_diff(a, b) == abs_diff(b, a),
        a >= b ==> abs_diff(a, b) + b == a,
        a < b ==> abs_diff(a, b) + a == b,
{
}

/// The averages lie between the smallest and the largest temperature of the
/// history, and a history of one repeated temperature averages to it.
pub proof fn lemma_window_mean_bounds(s: Seq<u8>, n: Option<u32>, lo: u8, hi: u8)
    requires
        s.len() > 0,
        n != Some(0u32),
        forall|i: int| 0 <= i < s.len() ==> lo <= #[trigger] s[i] <= hi,
    ensures
        lo <= window_mean(s, n) <= hi,
        lo == hi ==> window_mean(s, n) == lo,
{
    let w = match n {
        Some(k) if s.len() >= k => s.subrange(s.len() - k, s.len() as int),
        _ => s,
    };
    assert forall|i: int| 0 <= i < w.len() implies lo <= #[trigger] w[i] <= hi by {
        match n {
            Some(k) if s.len() >= k => {
                assert(w[i] == s[s.len() - k + i]);
            },
            _ => {},
        }
    }
    lemma_sum_range(w, lo, hi);
    let len = w.len() as int;
    assert(len > 0);
    assert(window_mean(s, n) == sum(w) / len);
    let total = sum(w);
    assert(lo * len <= total <= hi * len);
    assert(lo <= total / len <= hi) by (nonlinear_arith)
        requires
            len > 0,
            lo * len <= total <= hi * len,
    ;
}

proof fn lemma_sum_range(s: Seq<u8>, lo: u8, hi: u8)
    requires
        forall|i: int| 0 <= i < s.len() ==> lo <= #[trigger] s[i] <= hi,
    ensures
        lo * s.len() <= sum(s) <= hi * s.len(),
    decreases s.len(),
{
    if s.len() > 0 {
        let t = s.drop_last();
        assert forall|i: int| 0 <= i < t.len() implies lo <= #[trigger] t[i] <= hi by {
            assert(t[i] == s[i]);
        }
        lemma_sum_range(t, lo, hi);
        assert(lo * s.len() == lo * t.len() + lo) by (nonlinear_arith)
            requires
                s.len() == t.len() + 1,
        ;
        assert(hi * s.len() == hi * t.len() + hi) by (nonlinear_arith)
            requires
                s.len() == t.len() + 1,
        ;
    }
}

/// What the speed algorithm decides before its coefficients are applied.
#[derive(Debug, Clone, Copy, PartialEq, Eq, Structural)]
pub enum SpeedPlan {
    /// Keep the current speed (it changed too recently or the difference is
    /// small).
    Hold,
    /// Stop the fan (the target is 0).
    Stop,
    /// Move toward the target; `halve` applies the stabilizing factor 0.5,
    /// and the distances of the current temperature from the 5-, 15-, 30-loop
    /// and overall averages weigh the variation.
    Adjust { halve: bool, d5: u8, d15: u8, d30: u8, dall: u8 },
}

/// The absolute difference of two bytes.
pub open spec fn abs_diff(a: u8, b: u8) -> u8 {
    if a > b {
        (a - b) as u8
    } else {
        (b - a) as u8
    }
}

fn abs_diff_exec(a: u8, b: u8) -> (d: u8)
    ensures
        d == abs_diff(a, b),
{
    if a > b {
        a - b
    } else {
        b - a
    }
}

/// The speed is held when it changed at most 3 loops ago, or less than 15
/// loops ago with the target within 5 %, or less than 30 loops ago with the
/// target within 2 %.
pub open spec fn speed_held(target: u8, fan_data: FanData) -> bool {
    let d = abs_diff(target, fan_data.fan_speed);
    ||| fan_data.last_update_loop <= 3
    ||| fan_data.last_update_loop < 15 && d <= 5
    ||| fan_data.last_update_loop < 30 && d <= 2
}

/// The stabilizing factor applies when the target reverses the direction of
/// the last change.
pub open spec fn speed_halved(target: u8, fan_data: FanData) -> bool {
    ||| target < fan_data.fan_speed && fan_data.last_fan_evolution == FanEvolution::Increasing
    ||| target > fan_data.fan_speed && fan_data.last_fan_evolution == FanEvolution::Decreasing
}

/// Steps 1 and 2 of the speed algorithm and the distances of step 3: hold
/// the speed when it changed recently or the target is close; otherwise stop
/// for a target of 0, or adjust, halving when the target reverses the last
/// change's direction.
pub fn speed_plan(target_fan_speed: u8, fan_data: &FanData, temp_load: &TempLoad) -> (plan:
    SpeedPlan)
    ensures
        speed_held(target_fan_speed, *fan_data) ==> plan == SpeedPlan::Hold,
        !speed_held(target_fan_speed, *fan_data) && target_fan_speed == 0 ==> plan
            == SpeedPlan::Stop,
        !speed_held(target_fan_speed, *fan_data) && target_fan_speed != 0 ==> plan
            == (SpeedPlan::Adjust {
            halve: speed_halved(target_fan_speed, *fan_data),
            d5: abs_diff(temp_load.l1, temp_load.l5),
            d15: abs_diff(temp_load.l1, temp_load.l15),
            d30: abs_diff(temp_load.l1, temp_load.l30),
            dall: abs_diff(temp_load.l1, temp_load.lall),
        }),
{
    // STEP 1
    let d = abs_diff_exec(target_fan_speed, fan_data.fan_speed);
    if fan_data.last_update_loop <= 3 || fan_data.last_update_loop < 15 && d <= 5
        || fan_data.last_update_loop < 30 && d <= 2 {
        return SpeedPlan::Hold;
    }
    if target_fan_speed == 0 {
        return SpeedPlan::Stop;
    }
    // STEP 2
    let halve = target_fan_speed < fan_data.fan_speed && fan_data.last_fan_evolution
        == FanEvolution::Increasing || target_fan_speed > fan_data.fan_speed
        && fan_data.last_fan_evolution == FanEvolution::Decreasing;
    // STEP 3
    SpeedPlan::Adjust {
        halve,
        d5: abs_diff_exec(temp_load.l1, temp_load.l5),
        d15: abs_diff_exec(temp_load.l1, temp_load.l15),
        d30: abs_diff_exec(temp_load.l1, temp_load.l30),
        dall: abs_diff_exec(temp_load.l1, temp_load.lall),
    }
}

/// The plan halves its step exactly when the target reverses the direction
/// of the last change: a target below the current speed after an increase,
/// or above it after a decrease. A target in the same direction as the last
/// change, or equal to the current speed, is not halved.
pub proof fn lemma_halving_reverses_direction(target: u8, fan_data: FanData)
    ensures
        target < fan_data.fan_speed ==> (speed_halved(target, fan_data) <==> fan_data.last_fan_evolution
            is Increasing),
        target > fan_data.fan_speed ==> (speed_halved(target, fan_data) <==> fan_data.last_fan_evolution
            is Decreasing),
        target == fan_data.fan_speed ==> !speed_halved(target, fan_data),
{
}

/// The speed is held when it changed at most 3 loops ago, whatever the
/// target; it is never held once it changed 30 or more loops ago, nor once
/// it changed 15 or more loops ago with the target more than 2 points away,
/// nor once it changed 4 or more loops ago with the target more than 5
/// points away.
pub proof fn lemma_hold_rules(target: u8, fan_data: FanData)
    ensures
        fan_data.last_update_loop <= 3 ==> speed_held(target, fan_data),
        fan_data.last_update_loop >= 30 ==> !speed_held(target, fan_data),
        fan_data.last_update_loop >= 15 && (target > fan_data.fan_speed + 2 || fan_data.fan_speed
            > target + 2) ==> !speed_held(target, fan_data),
        fan_data.last_update_loop >= 4 && (target > fan_data.fan_speed + 5 || fan_data.fan_speed
            > target + 5) ==> !speed_held(target, fan_data),
        fan_data.last_update_loop < 15 && target <= fan_data.fan_speed + 5 && fan_data.fan_speed
            <= target + 5 ==> speed_held(target, fan_data),
        fan_data.last_update_loop < 30 && target <= fan_data.fan_speed + 2 && fan_data.fan_speed
            <= target + 2 ==> speed_held(target, fan_data),
{
}

impl FanData {
    /// Records a new fan speed: the evolution becomes increasing when it
    /// rises, decreasing otherwise; the loop counter restarts. Returns whether
    /// the speed must be written to the fan (it is at most 100 %).
    pub fn set_speed(&mut self, new_speed: u8) -> (write: bool)
        ensures
            final(self).last_fan_evolution == if old(self).fan_speed < new_speed {
                FanEvolution::Increasing
            } else {
                FanEvolution::Decreasing
            },
            final(self).last_update_loop == 0,
            final(self).fan_speed == new_speed,
            write == (new_speed <= 100),
    {
        if self.fan_speed < new_speed {
            self.last_fan_evolution = FanEvolution::Increasing;
        } else {
            self.last_fan_evolution = FanEvolution::Decreasing;
        }
        self.last_update_loop = 0;
        self.fan_speed = new_speed;
        new_speed <= 100
    }

    /// One loop's bookkeeping once the target speed and the speed the
    /// algorithm computed for it (`None` to hold) are known: a reached target
    /// restarts the loop counter; otherwise the counter advances, and a new
    /// speed that differs from the current one is set. Returns the speed to
    /// write to the fan, if any.
    pub fn after_loop(&mut self, target_fan_speed: u8, new_fan_speed: Option<u8>) -> (write:
        Option<u8>)
        requires
            target_fan_speed != old(self).fan_speed ==> old(self).last_update_loop < u32::MAX,
        ensures
            target_fan_speed == old(self).fan_speed ==> {
                &&& final(self).last_update_loop == 0
                &&& final(self).fan_speed == old(self).fan_speed
                &&& final(self).last_fan_evolution == old(self).last_fan_evolution
                &&& write is None
            },
            target_fan_speed != old(self).fan_speed && new_fan_speed is Some
                && new_fan_speed->0 != old(self).fan_speed ==> {
                &&& final(self).fan_speed == new_fan_speed->0
                &&& final(self).last_update_loop == 0
                &&& final(self).last_fan_evolution == if old(self).fan_speed
                    < new_fan_speed->0 {
                    FanEvolution::Increasing
                } else {
                    FanEvolution::Decreasing
                }
                &&& write == if new_fan_speed->0 <= 100 {
                    new_fan_speed
                } else {
                    None
                }
            },
            target_fan_speed != old(self).fan_speed && !(new_fan_speed is Some
                && new_fan_speed->0 != old(self).fan_speed) ==> {
                &&& final(self).last_update_loop == old(self).last_update_loop + 1
                &&& final(self).fan_speed == old(self).fan_speed
                &&& final(self).last_fan_evolution == old(self).last_fan_evolution
                &&& write is None
            },
    {
        if target_fan_speed == self.fan_speed {
            self.last_update_loop = 0;
            None
        } else {
            self.last_update_loop = self.last_update_loop + 1;
            if let Some(new_speed) = new_fan_speed {
                if new_speed != self.fan_speed {
                    if self.set_speed(new_speed) {
                        return Some(new_speed);
                    }
                }
            }
            None
        }
    }
}

/// After a speed change the speed is held for the next three loops,
/// whatever the target: setting a speed restarts the loop counter, and the
/// plan holds while the counter is at most 3.
pub proof fn lemma_hold_after_change(fan_data: FanData, target: u8)
    requires
        fan_data.last_update_loop <= 3,
    ensures
        speed_held(target, fan_data),
{
}

} // verus!
