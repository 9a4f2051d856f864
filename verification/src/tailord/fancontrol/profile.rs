//! Fan curves: a list of (temperature, fan speed) points, their
//! normalization when loaded, and the interpolated target speed.
use vstd::prelude::*;

use crate::tailord::error::FdoError;

verus! {

/// One point of a fan curve: at `temp` °C the fan runs at `fan` percent.
#[derive(Clone, Copy, Debug, PartialEq, Eq, Structural)]
pub struct FanProfilePoint {
    pub temp: u8,
    pub fan: u8,
}

/// A fan curve.
#[derive(Debug)]
pub struct FanProfile {
    inner: Vec<FanProfilePoint>,
}

impl FanProfile {
    /// A curve is always as loading leaves it.
    #[verifier::type_invariant]
    spec fn wf(&self) -> bool {
        is_normalized(self.inner@)
    }
}

impl View for FanProfile {
    type V = Seq<FanProfilePoint>;

    closed spec fn view(&self) -> Seq<FanProfilePoint> {
        self.inner@
    }
}

impl Clone for FanProfile {
    fn clone(&self) -> (res: Self)
        ensures
            res@ == self@,
    {
        proof {
            use_type_invariant(self);
        }
        let mut inner: Vec<FanProfilePoint> = Vec::new();
        let mut i: usize = 0;
        while i < self.inner.len()
            invariant
                0 <= i <= self.inner@.len(),
                inner@ == self.inner@.subrange(0, i as int),
            decreases self.inner@.len() - i,
        {
            inner.push(self.inner[i]);
            i = i + 1;
            assert(inner@ =~= self.inner@.subrange(0, i as int));
        }
        assert(inner@ =~= self.inner@);
        FanProfile { inner }
    }
}

/// Every later point has a strictly higher temperature.
pub open spec fn temps_strictly_increasing(s: Seq<FanProfilePoint>) -> bool {
    forall|i: int, j: int| 0 <= i < j < s.len() ==> #[trigger] s[i].temp < #[trigger] s[j].temp
}

/// No later point has a lower temperature.
pub open spec fn temps_sorted(s: Seq<FanProfilePoint>) -> bool {
    forall|i: int, j: int| 0 <= i <= j < s.len() ==> #[trigger] s[i].temp <= #[trigger] s[j].temp
}

/// Inserts `p` behind every point of `s` whose temperature is not higher
/// than its own (stable insertion into a sorted curve).
pub open spec fn insert_by_temp(s: Seq<FanProfilePoint>, p: FanProfilePoint) -> Seq<FanProfilePoint>
    decreases s.len(),
{
    if s.len() == 0 {
        seq![p]
    } else if s.last().temp <= p.temp {
        s.push(p)
    } else {
        insert_by_temp(s.drop_last(), p).push(s.last())
    }
}

/// The stable sort of a curve by temperature.
pub open spec fn sort_by_temp(s: Seq<FanProfilePoint>) -> Seq<FanProfilePoint>
    decreases s.len(),
{
    if s.len() == 0 {
        s
    } else {
        insert_by_temp(sort_by_temp(s.drop_last()), s.last())
    }
}

/// The lowest fan speed that is allowed at `temp`: none up to 50 °C,
/// then rising by 2 % per degree up to 100 % at 100 °C.
pub open spec fn min_fan_speed(temp: u8) -> u8 {
    if temp <= 50 {
        0
    } else if (temp - 50) * 2 >= 100 {
        100
    } else {
        ((temp - 50) * 2) as u8
    }
}

/// A point with its fan speed capped to 100 % and raised to the minimum speed.
pub open spec fn adjust_point(p: FanProfilePoint) -> FanProfilePoint {
    let capped: u8 = if p.fan > 100 { 100 } else { p.fan };
    FanProfilePoint {
        temp: p.temp,
        fan: if min_fan_speed(p.temp) > capped { min_fan_speed(p.temp) } else { capped },
    }
}

/// The point that guarantees that 100 % fan speed is reached.
pub open spec fn full_speed_point() -> FanProfilePoint {
    FanProfilePoint { temp: 100, fan: 100 }
}

/// The slowest speed of the points from index `i` on, and at most 100 %.
pub open spec fn later_speed_limit(s: Seq<FanProfilePoint>, i: int) -> u8
    decreases s.len() - i,
{
    if i < 0 || i >= s.len() {
        100
    } else {
        let later = later_speed_limit(s, i + 1);
        if s[i].fan < later {
            s[i].fan
        } else {
            later
        }
    }
}

/// Each point lowered to the slowest speed at or after it (and to 100 %):
/// the fan speed never falls as the temperature rises.
pub open spec fn lower_falling(s: Seq<FanProfilePoint>) -> Seq<FanProfilePoint> {
    Seq::new(
        s.len(),
        |i: int| FanProfilePoint { temp: s[i].temp, fan: later_speed_limit(s, i) },
    )
}

/// The curve that loading makes of a non-empty list of points: sorted by
/// temperature (unless already strictly increasing), each speed lowered to
/// the slowest speed after it and capped at 100 %, raised to the minimum
/// speed of its temperature, and 100 % at 100 °C appended when the last
/// point does not reach full speed.
pub open spec fn normalized_points(s: Seq<FanProfilePoint>) -> Seq<FanProfilePoint> {
    let ordered = if temps_strictly_increasing(s) {
        s
    } else {
        sort_by_temp(s)
    };
    let lowered = lower_falling(ordered);
    let adjusted = lowered.map_values(|p: FanProfilePoint| adjust_point(p));
    if adjusted.last().fan < 100 {
        adjusted.push(full_speed_point())
    } else {
        adjusted
    }
}

/// Index of the first point at index `i` or later whose temperature is at
/// least `t`, or the length of `s` when there is none.
pub open spec fn first_at_or_above(s: Seq<FanProfilePoint>, t: u8, i: int) -> int
    decreases s.len() - i,
{
    if i < 0 || i >= s.len() {
        s.len() as int
    } else if s[i].temp >= t {
        i
    } else {
        first_at_or_above(s, t, i + 1)
    }
}

/// The interpolation of the curve at `t` needs no decreasing fan speed.
pub open spec fn interpolation_defined(s: Seq<FanProfilePoint>, t: u8) -> bool {
    let pos = first_at_or_above(s, t, 0);
    (pos < s.len() && pos > 0 && s[pos].temp != t) ==> s[pos - 1].fan <= s[pos].fan
}

/// The fan speed of the curve `s` at temperature `t`: the speed of the first
/// point at or above `t` if it fits exactly or is the first point, the
/// rounded-down linear interpolation with the point before otherwise, and
/// 100 % above the whole curve.
pub open spec fn target_fan_speed(s: Seq<FanProfilePoint>, t: u8) -> int {
    let pos = first_at_or_above(s, t, 0);
    if pos >= s.len() {
        100
    } else if s[pos].temp == t || pos == 0 {
        s[pos].fan as int
    } else {
        let prev = s[pos - 1];
        let next = s[pos];
        prev.fan + (next.fan - prev.fan) * (t - prev.temp) / (next.temp - prev.temp)
    }
}

proof fn lemma_first_at_or_above_bounds(s: Seq<FanProfilePoint>, t: u8, i: int)
    requires
        0 <= i <= s.len(),
    ensures
        i <= first_at_or_above(s, t, i) <= s.len(),
        forall|k: int| i <= k < first_at_or_above(s, t, i) ==> #[trigger] s[k].temp < t,
        first_at_or_above(s, t, i) < s.len() ==> s[first_at_or_above(s, t, i)].temp >= t,
    decreases s.len() - i,
{
    if i < s.len() && s[i].temp < t {
        lemma_first_at_or_above_bounds(s, t, i + 1);
    }
}

/// Inserting into a sorted curve places the point at the first position
/// whose temperature is higher.
proof fn lemma_insert_by_temp_at(s: Seq<FanProfilePoint>, p: FanProfilePoint, j: int)
    requires
        temps_sorted(s),
        0 <= j <= s.len(),
        j > 0 ==> s[j - 1].temp <= p.temp,
        forall|k: int| j <= k < s.len() ==> #[trigger] s[k].temp > p.temp,
    ensures
        insert_by_temp(s, p) == s.subrange(0, j).push(p) + s.subrange(j, s.len() as int),
    decreases s.len(),
{
    if s.len() == 0 {
        assert(insert_by_temp(s, p) =~= s.subrange(0, j).push(p) + s.subrange(j, s.len() as int));
    } else if s.last().temp <= p.temp {
        assert(j == s.len());
        assert(insert_by_temp(s, p) =~= s.subrange(0, j).push(p) + s.subrange(j, s.len() as int));
    } else {
        let t = s.drop_last();
        assert(j < s.len());
        assert(temps_sorted(t));
        lemma_insert_by_temp_at(t, p, j);
        assert(insert_by_temp(s, p) =~= s.subrange(0, j).push(p) + s.subrange(j, s.len() as int));
    }
}

/// Inserting into a sorted curve keeps it sorted and adds exactly the point.
proof fn lemma_insert_by_temp_sorted(s: Seq<FanProfilePoint>, p: FanProfilePoint)
    requires
        temps_sorted(s),
    ensures
        temps_sorted(insert_by_temp(s, p)),
        insert_by_temp(s, p).to_multiset() == s.to_multiset().insert(p),
        insert_by_temp(s, p).len() == s.len() + 1,
    decreases s.len(),
{
    broadcast use vstd::seq_lib::group_to_multiset_ensures;
    if s.len() == 0 {
        assert(insert_by_temp(s, p) =~= seq![p]);
        assert(seq![p] =~= Seq::<FanProfilePoint>::empty().push(p));
    } else if s.last().temp <= p.temp {
    } else {
        let t = s.drop_last();
        assert(s =~= t.push(s.last()));
        lemma_insert_by_temp_sorted(t, p);
        let r = insert_by_temp(t, p);
        assert forall|i: int, j: int| 0 <= i <= j < r.len() + 1 implies #[trigger] r.push(
            s.last(),
        )[i].temp <= #[trigger] r.push(s.last())[j].temp by {
            if j == r.len() {
                if i < r.len() {
                    assert(r.to_multiset().count(r[i]) > 0);
                    assert(t.to_multiset().insert(p).count(r[i]) > 0);
                    if r[i] != p {
                        assert(t.to_multiset().count(r[i]) > 0);
                        assert(t.contains(r[i]));
                        let k = choose|k: int| 0 <= k < t.len() && t[k] == r[i];
                        assert(s[k] == t[k]);
                    }
                }
            }
        }
    }
}

/// The sort yields a sorted permutation.
pub proof fn lemma_sort_by_temp_sorted(s: Seq<FanProfilePoint>)
    ensures
        temps_sorted(sort_by_temp(s)),
        sort_by_temp(s).to_multiset() == s.to_multiset(),
        sort_by_temp(s).len() == s.len(),
    decreases s.len(),
{
    broadcast use vstd::seq_lib::group_to_multiset_ensures;
    if s.len() > 0 {
        lemma_sort_by_temp_sorted(s.drop_last());
        lemma_insert_by_temp_sorted(sort_by_temp(s.drop_last()), s.last());
        assert(s =~= s.drop_last().push(s.last()));
    }
}

/// Sorting a curve that is already sorted leaves it unchanged.
pub proof fn lemma_sort_by_temp_of_sorted(s: Seq<FanProfilePoint>)
    requires
        temps_sorted(s),
    ensures
        sort_by_temp(s) == s,
    decreases s.len(),
{
    if s.len() > 0 {
        let t = s.drop_last();
        assert(temps_sorted(t));
        lemma_sort_by_temp_of_sorted(t);
        assert(s =~= t.push(s.last()));
    }
}


/// A curve as loading leaves it: not empty, sorted by temperature, fan
/// speeds never falling as the temperature rises, every fan speed at most
/// 100 % and at least the minimum speed of its temperature, and ending at
/// 100 %.
pub open spec fn is_normalized(r: Seq<FanProfilePoint>) -> bool {
    &&& r.len() > 0
    &&& temps_sorted(r)
    &&& fans_non_decreasing(r)
    &&& forall|i: int| 0 <= i < r.len() ==> #[trigger] r[i].fan <= 100
    &&& forall|i: int| 0 <= i < r.len() ==> #[trigger] r[i].fan >= min_fan_speed(r[i].temp)
    &&& r.last().fan == 100
}

/// The speed limit from a point on is at most its own speed and 100 %.
proof fn lemma_later_speed_limit_bounded(s: Seq<FanProfilePoint>, i: int)
    requires
        0 <= i,
    ensures
        later_speed_limit(s, i) <= 100,
        i < s.len() ==> later_speed_limit(s, i) <= s[i].fan,
    decreases s.len() - i,
{
    if i < s.len() {
        lemma_later_speed_limit_bounded(s, i + 1);
    }
}

/// The speed limit from a point on is at most its own speed and 100 %, and
/// never falls further along the curve.
proof fn lemma_later_speed_limit(s: Seq<FanProfilePoint>, i: int, j: int)
    requires
        0 <= i <= j,
    ensures
        later_speed_limit(s, i) <= later_speed_limit(s, j),
        later_speed_limit(s, i) <= 100,
        i < s.len() ==> later_speed_limit(s, i) <= s[i].fan,
    decreases j - i,
{
    lemma_later_speed_limit_bounded(s, i);
    if i < j {
        lemma_later_speed_limit(s, i + 1, j);
    }
}

/// Lowering a curve whose speeds never fall and stay within 100 % changes
/// nothing.
proof fn lemma_later_speed_limit_of_rising(s: Seq<FanProfilePoint>, i: int)
    requires
        0 <= i <= s.len(),
        fans_non_decreasing(s),
        forall|k: int| 0 <= k < s.len() ==> #[trigger] s[k].fan <= 100,
    ensures
        i < s.len() ==> later_speed_limit(s, i) == s[i].fan,
    decreases s.len() - i,
{
    if i < s.len() {
        lemma_later_speed_limit_of_rising(s, i + 1);
        let later = later_speed_limit(s, i + 1);
        if i + 1 < s.len() {
            assert(s[i].fan <= s[i + 1].fan);
            assert(later == s[i + 1].fan);
        } else {
            assert(later == 100);
            assert(s[i].fan <= 100);
        }
        assert(s[i].fan <= later);
    }
}

/// Loading any non-empty list of points yields a curve that is sorted by
/// temperature, whose fan speeds never fall as the temperature rises, that
/// keeps every speed between the minimum speed of its temperature and
/// 100 %, and that reaches 100 %.
pub proof fn lemma_normalized_is_normalized(s: Seq<FanProfilePoint>)
    requires
        s.len() > 0,
    ensures
        is_normalized(normalized_points(s)),
{
    let ordered = if temps_strictly_increasing(s) {
        s
    } else {
        sort_by_temp(s)
    };
    lemma_sort_by_temp_sorted(s);
    assert(temps_sorted(ordered)) by {
        if temps_strictly_increasing(s) {
            assert forall|i: int, j: int| 0 <= i <= j < s.len() implies #[trigger] s[i].temp
                <= #[trigger] s[j].temp by {
                if i < j {
                    assert(s[i].temp < s[j].temp);
                }
            }
        }
    }
    let lowered = lower_falling(ordered);
    let adjusted = lowered.map_values(|p: FanProfilePoint| adjust_point(p));
    assert forall|i: int| 0 <= i < adjusted.len() implies #[trigger] adjusted[i].fan <= 100 by {
        lemma_later_speed_limit(ordered, i, i);
    }
    assert(temps_sorted(adjusted)) by {
        assert forall|i: int, j: int| 0 <= i <= j < adjusted.len() implies #[trigger] adjusted[i].temp
            <= #[trigger] adjusted[j].temp by {
            assert(ordered[i].temp <= ordered[j].temp);
        }
    }
    assert(fans_non_decreasing(adjusted)) by {
        assert forall|i: int, j: int| 0 <= i <= j < adjusted.len() implies #[trigger] adjusted[i].fan
            <= #[trigger] adjusted[j].fan by {
            lemma_later_speed_limit(ordered, i, j);
            lemma_later_speed_limit(ordered, j, j);
            assert(ordered[i].temp <= ordered[j].temp);
            assert(min_fan_speed(ordered[i].temp) <= min_fan_speed(ordered[j].temp));
        }
    }
    let r = normalized_points(s);
    if adjusted.last().fan < 100 {
        assert(adjusted.last().temp < 100);
        assert(r == adjusted.push(full_speed_point()));
        assert forall|i: int, j: int| 0 <= i <= j < r.len() implies #[trigger] r[i].temp
            <= #[trigger] r[j].temp by {
            if j == r.len() - 1 && i < j {
                assert(adjusted[i].temp <= adjusted.last().temp);
            } else if j < r.len() - 1 {
                assert(adjusted[i].temp <= adjusted[j].temp);
            }
        }
        assert forall|i: int, j: int| 0 <= i <= j < r.len() implies #[trigger] r[i].fan
            <= #[trigger] r[j].fan by {
            if j == r.len() - 1 && i < j {
                assert(adjusted[i].fan <= 100);
            } else if j < r.len() - 1 {
                assert(adjusted[i].fan <= adjusted[j].fan);
            }
        }
    }
}

/// Loading a curve that loading produced leaves it unchanged.
pub proof fn lemma_normalized_idempotent(s: Seq<FanProfilePoint>)
    requires
        s.len() > 0,
    ensures
        normalized_points(normalized_points(s)) == normalized_points(s),
{
    let r = normalized_points(s);
    lemma_normalized_is_normalized(s);
    lemma_sort_by_temp_of_sorted(r);
    let ordered = if temps_strictly_increasing(r) {
        r
    } else {
        sort_by_temp(r)
    };
    assert(ordered == r);
    let lowered = lower_falling(r);
    assert(lowered =~= r) by {
        assert forall|i: int| 0 <= i < r.len() implies #[trigger] lowered[i] == r[i] by {
            lemma_later_speed_limit_of_rising(r, i);
        }
    }
    let adjusted = lowered.map_values(|p: FanProfilePoint| adjust_point(p));
    assert(adjusted =~= r) by {
        assert forall|i: int| 0 <= i < r.len() implies #[trigger] adjusted[i] == r[i] by {
            assert(r[i].fan <= 100);
            assert(r[i].fan >= min_fan_speed(r[i].temp));
        }
    }
}

/// The curve's target speed lies between the speeds of the two points it
/// interpolates; for a loaded curve it never exceeds 100 %.
pub proof fn lemma_target_fan_speed_bounds(s: Seq<FanProfilePoint>, t: u8)
    requires
        interpolation_defined(s, t),
    ensures
        ({
            let pos = first_at_or_above(s, t, 0);
            0 < pos < s.len() && s[pos].temp != t ==> s[pos - 1].fan <= target_fan_speed(s, t)
                <= s[pos].fan
        }),
        is_normalized(s) ==> 0 <= target_fan_speed(s, t) <= 100,
{
    lemma_first_at_or_above_bounds(s, t, 0);
    let pos = first_at_or_above(s, t, 0);
    if 0 < pos < s.len() && s[pos].temp != t {
        let prev = s[pos - 1];
        let next = s[pos];
        let fd = next.fan - prev.fan;
        let cd = t - prev.temp;
        let td = next.temp - prev.temp;
        assert(0 <= cd < td);
        assert(0 <= fd * cd / td <= fd) by (nonlinear_arith)
            requires
                0 <= fd,
                0 <= cd < td,
        ;
    }
}

/// No later point has a lower fan speed.
pub open spec fn fans_non_decreasing(s: Seq<FanProfilePoint>) -> bool {
    forall|i: int, j: int| 0 <= i <= j < s.len() ==> #[trigger] s[i].fan <= #[trigger] s[j].fan
}

/// A curve whose fan speeds do not fall can be evaluated at every
/// temperature.
pub proof fn lemma_non_decreasing_interpolation_defined(s: Seq<FanProfilePoint>, t: u8)
    requires
        fans_non_decreasing(s),
    ensures
        interpolation_defined(s, t),
{
    lemma_first_at_or_above_bounds(s, t, 0);
    let pos = first_at_or_above(s, t, 0);
    if pos < s.len() && pos > 0 {
        assert(s[pos - 1].fan <= s[pos].fan);
    }
}

/// On a curve as loading leaves it, a higher temperature never asks for a
/// lower fan speed.
pub proof fn lemma_target_fan_speed_monotone(s: Seq<FanProfilePoint>, t1: u8, t2: u8)
    requires
        is_normalized(s),
        t1 <= t2,
    ensures
        interpolation_defined(s, t1),
        interpolation_defined(s, t2),
        target_fan_speed(s, t1) <= target_fan_speed(s, t2),
{
    lemma_non_decreasing_interpolation_defined(s, t1);
    lemma_non_decreasing_interpolation_defined(s, t2);
    lemma_first_at_or_above_bounds(s, t1, 0);
    lemma_first_at_or_above_bounds(s, t2, 0);
    lemma_target_fan_speed_bounds(s, t1);
    lemma_target_fan_speed_bounds(s, t2);
    let p1 = first_at_or_above(s, t1, 0);
    let p2 = first_at_or_above(s, t2, 0);
    // The first point at or above the higher temperature comes no earlier.
    if p2 < p1 {
        assert(s[p2].temp < t1);
    }
    assert(p1 <= p2);
    if p1 < s.len() {
        // The target at the lower temperature is at most the speed of its point.
        assert(target_fan_speed(s, t1) <= s[p1].fan);
    }
    if p2 >= s.len() {
        if p1 < s.len() {
            assert(s[p1].fan <= 100);
        }
    } else if p1 < p2 {
        if s[p2].temp == t2 || p2 == 0 {
            assert(s[p1].fan <= s[p2].fan);
        } else {
            assert(s[p1].fan <= s[p2 - 1].fan);
        }
    } else {
        let p = p1;
        if p == 0 || s[p].temp == t2 {
        } else if s[p].temp == t1 {
            assert(t1 == t2);
        } else {
            let prev = s[p - 1];
            let next = s[p];
            let fd = next.fan - prev.fan;
            let td = next.temp - prev.temp;
            let c1 = t1 - prev.temp;
            let c2 = t2 - prev.temp;
            assert(fd >= 0);
            assert(0 <= c1 <= c2);
            assert(td > 0);
            assert(fd * c1 / td <= fd * c2 / td) by (nonlinear_arith)
                requires
                    fd >= 0,
                    0 <= c1 <= c2,
                    td > 0,
            ;
        }
    }
}

/// Below or at the first point the curve asks for the first point's speed,
/// above its last point for full speed, at a point's temperature for that
/// point's speed, and a loaded curve never asks for less than its first
/// speed.
pub proof fn lemma_target_fan_speed_cases(s: Seq<FanProfilePoint>, t: u8, i: int)
    requires
        s.len() > 0,
    ensures
        t <= s[0].temp ==> target_fan_speed(s, t) == s[0].fan,
        temps_sorted(s) && t > s.last().temp ==> target_fan_speed(s, t) == 100,
        temps_sorted(s) && 0 <= i < s.len() && s[i].temp == t && (i == 0 || s[i - 1].temp < t)
            ==> target_fan_speed(s, t) == s[i].fan,
        is_normalized(s) ==> s[0].fan <= target_fan_speed(s, t) <= 100,
{
    lemma_first_at_or_above_bounds(s, t, 0);
    let pos = first_at_or_above(s, t, 0);
    if t <= s[0].temp {
        assert(pos == 0);
    }
    if temps_sorted(s) && t > s.last().temp {
        if pos < s.len() {
            assert(s[pos].temp <= s.last().temp);
        }
    }
    if temps_sorted(s) && 0 <= i < s.len() && s[i].temp == t && (i == 0 || s[i - 1].temp < t) {
        if pos > i {
            assert(s[i].temp < t);
        }
        if pos < i {
            assert(s[pos].temp <= s[i - 1].temp);
        }
        assert(pos == i);
    }
    if is_normalized(s) {
        lemma_non_decreasing_interpolation_defined(s, t);
        lemma_target_fan_speed_bounds(s, t);
        if 0 < pos < s.len() {
            assert(s[0].fan <= s[pos - 1].fan);
            assert(s[0].fan <= s[pos].fan);
        }
        if pos < s.len() {
            assert(s[pos].fan <= 100);
        }
    }
}

/// The minimum speed is 0 % up to 50 °C, rises by 2 % per degree above
/// that, and is 100 % from 100 °C on.
pub proof fn lemma_min_fan_speed_ramp(t: u8)
    ensures
        t <= 50 ==> min_fan_speed(t) == 0,
        t >= 100 ==> min_fan_speed(t) == 100,
        50 <= t < 100 ==> min_fan_speed((t + 1) as u8) == min_fan_speed(t) + 2,
{
}

/// Loading keeps every point's temperature in order of temperature and adds
/// at most one point, 100 % at 100 °C, when the curve would not reach full
/// speed; a point whose speed is already between its minimum and 100 % and
/// no later point is slower keeps its speed.
pub proof fn lemma_loading_keeps_points(s: Seq<FanProfilePoint>, i: int)
    requires
        s.len() > 0,
        temps_strictly_increasing(s),
        0 <= i < s.len(),
    ensures
        normalized_points(s)[i].temp == s[i].temp,
        normalized_points(s).len() == s.len() || (normalized_points(s).len() == s.len() + 1
            && normalized_points(s).last() == FanProfilePoint { temp: 100, fan: 100 }),
        (min_fan_speed(s[i].temp) <= s[i].fan <= 100 && forall|j: int|
            i < j < s.len() ==> s[i].fan <= #[trigger] s[j].fan) ==> normalized_points(s)[i].fan
            == s[i].fan,
{
    lemma_later_speed_limit(s, i, i);
    if min_fan_speed(s[i].temp) <= s[i].fan <= 100 && forall|j: int|
        i < j < s.len() ==> s[i].fan <= #[trigger] s[j].fan {
        lemma_later_limit_at_least(s, i + 1, s[i].fan);
    }
}

/// When every point from `i` on is at least `v` (and `v` at most 100 %),
/// so is the speed limit from `i` on.
proof fn lemma_later_limit_at_least(s: Seq<FanProfilePoint>, i: int, v: u8)
    requires
        0 <= i,
        v <= 100,
        forall|j: int| i <= j < s.len() ==> v <= #[trigger] s[j].fan,
    ensures
        v <= later_speed_limit(s, i),
    decreases s.len() - i,
{
    if i < s.len() {
        lemma_later_limit_at_least(s, i + 1, v);
    }
}

/// Between two points the target is the first point's speed plus the share
/// of the speed difference that the temperature has covered, rounded down:
/// the largest speed whose rise over the first point's speed, times the
/// temperature span, does not exceed the speed difference times the covered
/// temperature.
pub proof fn lemma_interpolation_rounds_down(s: Seq<FanProfilePoint>, t: u8)
    requires
        is_normalized(s),
    ensures
        ({
            let pos = first_at_or_above(s, t, 0);
            0 < pos < s.len() && s[pos].temp != t ==> {
                let prev = s[pos - 1];
                let next = s[pos];
                let rise = target_fan_speed(s, t) - prev.fan;
                &&& prev.temp < t < next.temp
                &&& rise * (next.temp - prev.temp) <= (next.fan - prev.fan) * (t - prev.temp)
                &&& (next.fan - prev.fan) * (t - prev.temp) < (rise + 1) * (next.temp - prev.temp)
            }
        }),
{
    lemma_first_at_or_above_bounds(s, t, 0);
    let pos = first_at_or_above(s, t, 0);
    if 0 < pos < s.len() && s[pos].temp != t {
        let prev = s[pos - 1];
        let next = s[pos];
        let fd = next.fan - prev.fan;
        let cd = t - prev.temp;
        let td = next.temp - prev.temp;
        assert(prev.temp < t);
        assert(td > 0);
        let q = fd * cd / td;
        assert(q * td <= fd * cd < (q + 1) * td) by (nonlinear_arith)
            requires
                td > 0,
                q == fd * cd / td,
        ;
    }
}

/// Whatever points are loaded, the curve never asks for a lower fan speed at
/// a higher temperature.
pub proof fn lemma_loaded_curve_monotone(points: Seq<FanProfilePoint>, t1: u8, t2: u8)
    requires
        points.len() > 0,
        t1 <= t2,
    ensures
        target_fan_speed(normalized_points(points), t1) <= target_fan_speed(
            normalized_points(points),
            t2,
        ),
{
    lemma_normalized_is_normalized(points);
    lemma_target_fan_speed_monotone(normalized_points(points), t1, t2);
}

/// The default curve: silent up to 25 °C, full speed from 90 °C.
pub open spec fn default_points() -> Seq<FanProfilePoint> {
    seq![
        FanProfilePoint { temp: 25, fan: 0 },
        FanProfilePoint { temp: 30, fan: 10 },
        FanProfilePoint { temp: 40, fan: 22 },
        FanProfilePoint { temp: 50, fan: 35 },
        FanProfilePoint { temp: 60, fan: 45 },
        FanProfilePoint { temp: 70, fan: 62 },
        FanProfilePoint { temp: 80, fan: 75 },
        FanProfilePoint { temp: 90, fan: 100 },
    ]
}

/// The default curve is a curve as loading leaves it, and its fan speeds
/// rise with the temperature: it can be evaluated at every temperature.
pub proof fn lemma_default_points_normalized()
    ensures
        is_normalized(default_points()),
        fans_non_decreasing(default_points()),
        forall|t: u8| #[trigger] interpolation_defined(default_points(), t),
{
    let s = default_points();
    assert(temps_sorted(s));
    assert(fans_non_decreasing(s));
    assert forall|i: int| 0 <= i < s.len() implies #[trigger] s[i].fan >= min_fan_speed(s[i].temp) by {
    }
    assert forall|t: u8| #[trigger] interpolation_defined(s, t) by {
        lemma_non_decreasing_interpolation_defined(s, t);
    }
}

impl Default for FanProfile {
    fn default() -> (res: Self)
        ensures
            res@ == default_points(),
    {
        let inner = vec![
            FanProfilePoint { temp: 25, fan: 0 },
            FanProfilePoint { temp: 30, fan: 10 },
            FanProfilePoint { temp: 40, fan: 22 },
            FanProfilePoint { temp: 50, fan: 35 },
            FanProfilePoint { temp: 60, fan: 45 },
            FanProfilePoint { temp: 70, fan: 62 },
            FanProfilePoint { temp: 80, fan: 75 },
            FanProfilePoint { temp: 90, fan: 100 },
        ];
        assert(inner@ =~= default_points());
        proof {
            lemma_default_points_normalized();
        }
        FanProfile { inner }
    }
}

impl FanProfile {
    /// Builds the curve from the points read from a configuration file:
    /// points not strictly increasing in temperature are stably sorted by it,
    /// each fan speed is lowered to the slowest speed after it and capped to
    /// 100 % (so that it never falls as the temperature rises), then raised
    /// to the minimum speed of its temperature, and 100 % at 100 °C is
    /// appended when full speed is never reached. An empty list is refused.
    pub fn load_config(points: Vec<FanProfilePoint>) -> (res: Result<FanProfile, FdoError>)
        ensures
            points@.len() == 0 <==> res is Err,
            res matches Ok(p) ==> p@ == normalized_points(points@),
            res matches Ok(p) ==> is_normalized(p@),
            res matches Err(e) ==> (e matches FdoError::FileNotFound(m) && m@
                == "Empty configuration"@),
    {
        if points.len() == 0 {
            return Err(FdoError::FileNotFound(String::from_str("Empty configuration")));
        }
        let ghost s = points@;
        // Make sure the temperature is increasing with each point.
        let mut is_sorted = true;
        let mut prev: i16 = -1;
        let mut i: usize = 0;
        while i < points.len()
            invariant
                s == points@,
                0 <= i <= s.len(),
                is_sorted ==> forall|a: int, b: int|
                    0 <= a < b < i ==> #[trigger] s[a].temp < #[trigger] s[b].temp,
                is_sorted ==> (i == 0 ==> prev == -1),
                is_sorted ==> (i > 0 ==> prev == s[i - 1].temp),
                !is_sorted ==> !temps_strictly_increasing(s),
            decreases s.len() - i,
        {
            if is_sorted {
                let t = points[i].temp as i16;
                if prev < t {
                    prev = t;
                } else {
                    is_sorted = false;
                    assert(s[i - 1].temp >= s[i as int].temp);
                }
            }
            i = i + 1;
        }
        let mut inner: Vec<FanProfilePoint> = if is_sorted {
            points
        } else {
            Self::sorted_by_temp(points)
        };
        let ghost ordered = inner@;
        assert(ordered == (if temps_strictly_increasing(s) {
            s
        } else {
            sort_by_temp(s)
        }));
        // Make sure that the fan speed is increasing along with the
        // temperature: walking from the hottest point down, lower each speed
        // to the slowest one after it (and to 100 %).
        let mut prev: u8 = 100;
        let mut k: usize = inner.len();
        while k > 0
            invariant
                inner@.len() == ordered.len(),
                0 <= k <= ordered.len(),
                prev == later_speed_limit(ordered, k as int),
                forall|a: int| 0 <= a < k ==> #[trigger] inner@[a] == ordered[a],
                forall|a: int|
                    k <= a < ordered.len() ==> #[trigger] inner@[a] == lower_falling(ordered)[a],
            decreases k,
        {
            k = k - 1;
            let p = inner[k];
            let fan: u8 = if p.fan < prev {
                p.fan
            } else {
                prev
            };
            inner.set(k, FanProfilePoint { temp: p.temp, fan });
            prev = fan;
        }
        let ghost lowered = inner@;
        assert(lowered =~= lower_falling(ordered));
        // Cap fan speeds and keep the minimum speed of each temperature.
        let mut k: usize = 0;
        while k < inner.len()
            invariant
                inner@.len() == lowered.len(),
                0 <= k <= lowered.len(),
                forall|a: int| 0 <= a < k ==> #[trigger] inner@[a] == adjust_point(lowered[a]),
                forall|a: int| k <= a < lowered.len() ==> #[trigger] inner@[a] == lowered[a],
            decreases lowered.len() - k,
        {
            let p = inner[k];
            let capped: u8 = if p.fan > 100 {
                100
            } else {
                p.fan
            };
            let min_speed: u8 = if p.temp <= 50 {
                0
            } else if (p.temp - 50) >= 50 {
                100
            } else {
                (p.temp - 50) * 2
            };
            let fan: u8 = if min_speed > capped {
                min_speed
            } else {
                capped
            };
            inner.set(k, FanProfilePoint { temp: p.temp, fan });
            k = k + 1;
        }
        assert(inner@ =~= lowered.map_values(|p: FanProfilePoint| adjust_point(p)));
        // Make sure that 100 % fan speed will be reached.
        let last = inner.len() - 1;
        if inner[last].fan < 100 {
            inner.push(FanProfilePoint { temp: 100, fan: 100 });
        }
        proof {
            lemma_normalized_is_normalized(s);
        }
        Ok(FanProfile { inner })
    }

    /// The points of the curve.
    pub fn points(&self) -> (res: &Vec<FanProfilePoint>)
        ensures
            res@ == self@,
    {
        &self.inner
    }

    /// The stable sort of the points by temperature.
    fn sorted_by_temp(points: Vec<FanProfilePoint>) -> (res: Vec<FanProfilePoint>)
        ensures
            res@ == sort_by_temp(points@),
    {
        let mut sorted: Vec<FanProfilePoint> = Vec::new();
        let mut i: usize = 0;
        while i < points.len()
            invariant
                0 <= i <= points@.len(),
                sorted@ == sort_by_temp(points@.subrange(0, i as int)),
            decreases points@.len() - i,
        {
            let p = points[i];
            proof {
                lemma_sort_by_temp_sorted(points@.subrange(0, i as int));
            }
            let mut j: usize = sorted.len();
            while j > 0 && sorted[j - 1].temp > p.temp
                invariant
                    0 <= j <= sorted@.len(),
                    forall|k: int| j <= k < sorted@.len() ==> #[trigger] sorted@[k].temp > p.temp,
                decreases j,
            {
                j = j - 1;
            }
            proof {
                lemma_insert_by_temp_at(sorted@, p, j as int);
                let prefix = points@.subrange(0, i as int + 1);
                assert(prefix.drop_last() =~= points@.subrange(0, i as int));
                assert(prefix.last() == p);
                assert(sorted@.insert(j as int, p) =~= sorted@.subrange(0, j as int).push(p)
                    + sorted@.subrange(j as int, sorted@.len() as int));
            }
            sorted.insert(j, p);
            i = i + 1;
        }
        assert(points@.subrange(0, points@.len() as int) =~= points@);
        sorted
    }

    /// The fan speed of the curve at `current_temp`: the speed of the first
    /// point whose temperature is at least `current_temp` when it fits exactly
    /// or is the first point, else the linear interpolation (rounded down)
    /// with the point before it; 100 % above the whole curve.
    pub fn calc_target_fan_speed(&self, current_temp: u8) -> (speed: u8)
        ensures
            speed == target_fan_speed(self@, current_temp),
    {
        proof {
            use_type_invariant(self);
            lemma_non_decreasing_interpolation_defined(self@, current_temp);
        }
        let ghost s = self@;
        let mut position: usize = 0;
        while position < self.inner.len() && self.inner[position].temp < current_temp
            invariant
                s == self@,
                0 <= position <= s.len(),
                first_at_or_above(s, current_temp, 0) == first_at_or_above(
                    s,
                    current_temp,
                    position as int,
                ),
            decreases s.len() - position,
        {
            position = position + 1;
        }
        if position < self.inner.len() {
            let profile_point = self.inner[position];
            if profile_point.temp == current_temp || position == 0 {
                profile_point.fan
            } else {
                let prev_point = self.inner[position - 1];
                proof {
                    lemma_first_at_or_above_bounds(s, current_temp, 0);
                }
                let temp_diff = (profile_point.temp - prev_point.temp) as u16;
                let curr_temp_diff = (current_temp - prev_point.temp) as u16;
                let fan_diff = (profile_point.fan - prev_point.fan) as u16;
                assert(fan_diff * curr_temp_diff <= 255 * 255) by (nonlinear_arith)
                    requires
                        fan_diff <= 255,
                        curr_temp_diff <= 255,
                ;
                let step = fan_diff * curr_temp_diff / temp_diff;
                assert(step <= fan_diff) by (nonlinear_arith)
                    requires
                        step as int == (fan_diff as int * curr_temp_diff as int) / (temp_diff as int),
                        curr_temp_diff < temp_diff,
                        0 < temp_diff,
                ;
                prev_point.fan + step as u8
            }
        } else {
            100
        }
    }
}

} // verus!
