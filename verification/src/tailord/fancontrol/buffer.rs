//! Ring buffer of the last temperature readings of a fan.
use vstd::prelude::*;

verus! {

/// Number of temperature readings kept in the history.
pub const TEMP_HISTORY_LENGTH: usize = 5;

/// The last temperatures read for a fan, in a ring buffer.
#[derive(Debug)]
pub struct TemperatureBuffer {
    // Stores the temperature history.
    temp_history: [u8; TEMP_HISTORY_LENGTH],
    position: usize,
}

impl TemperatureBuffer {
    #[verifier::type_invariant]
    spec fn wf(&self) -> bool {
        self.position < TEMP_HISTORY_LENGTH
    }

    /// The temperatures in the buffer, in slot order.
    pub closed spec fn history(&self) -> Seq<u8> {
        self.temp_history@
    }

    /// The slot of the latest temperature.
    pub closed spec fn position(&self) -> int {
        if self.position < TEMP_HISTORY_LENGTH {
            self.position as int
        } else {
            0
        }
    }

    /// The latest temperature.
    pub open spec fn latest(&self) -> u8 {
        self.history()[self.position()]
    }

    /// The history has one slot per kept reading and a valid latest slot.
    pub proof fn lemma_shape(&self)
        ensures
            self.history().len() == TEMP_HISTORY_LENGTH,
            0 <= self.position() < TEMP_HISTORY_LENGTH,
    {
    }

    /// A history filled with `temp`.
    pub fn new(temp: u8) -> (res: Self)
        ensures
            res.history() == Seq::new(TEMP_HISTORY_LENGTH as nat, |i: int| temp),
            res.position() == 0,
    {
        let res = Self { temp_history: [temp; 5], position: 0 };
        assert(res.history() =~= Seq::new(TEMP_HISTORY_LENGTH as nat, |i: int| temp));
        res
    }

    /// `next` is this buffer after storing `temp`: the slot after the
    /// latest one holds `temp` and becomes the latest, the other slots are
    /// kept.
    pub open spec fn stored(&self, temp: u8, next: Self) -> bool {
        &&& next.position() == (self.position() + 1) % (TEMP_HISTORY_LENGTH as int)
        &&& next.history() == self.history().update(next.position(), temp)
    }

    /// Stores `temp` in the next slot, which becomes the latest.
    pub fn update(&mut self, temp: u8)
        ensures
            old(self).stored(temp, *final(self)),
            final(self).latest() == temp,
    {
        proof {
            use_type_invariant(&*self);
        }
        let position = (self.position + 1) % TEMP_HISTORY_LENGTH;
        let mut history = self.temp_history;
        history[position] = temp;
        *self = Self { temp_history: history, position };
    }

    /// Returns the difference between the latest temperature value
    /// and the smallest value in the history.
    /// If the values are rising fast, we should update the fanspeed
    /// more often.
    /// If the values are not changing by a lot, we can update the
    /// fanspeed less often to reduce CPU usage.
    pub fn diff_to_min_in_history(&self) -> (diff: u8)
        ensures
            diff == self.latest() - min_temperature(self.history()),
    {
        proof {
            use_type_invariant(self);
        }
        let current = self.temp_history[self.position];
        let mut min: u8 = self.temp_history[0];
        let mut i: usize = 1;
        while i < TEMP_HISTORY_LENGTH
            invariant
                1 <= i <= TEMP_HISTORY_LENGTH,
                self.history().len() == TEMP_HISTORY_LENGTH,
                min == min_temperature(self.history().subrange(0, i as int)),
            decreases TEMP_HISTORY_LENGTH - i,
        {
            let ghost prefix = self.history().subrange(0, i as int + 1);
            assert(prefix.drop_last() =~= self.history().subrange(0, i as int));
            if self.temp_history[i] < min {
                min = self.temp_history[i];
            }
            i = i + 1;
        }
        assert(self.history().subrange(0, TEMP_HISTORY_LENGTH as int) =~= self.history());
        proof {
            lemma_min_temperature(self.history());
        }
        current - min
    }

    /// The latest temperature.
    pub fn get_latest(&self) -> (temp: u8)
        ensures
            temp == self.latest(),
    {
        proof {
            use_type_invariant(self);
        }
        self.temp_history[self.position]
    }
}

/// The smallest temperature of a non-empty sequence.
pub open spec fn min_temperature(s: Seq<u8>) -> u8
    decreases s.len(),
{
    if s.len() <= 1 {
        s[0]
    } else if s.last() < min_temperature(s.drop_last()) {
        s.last()
    } else {
        min_temperature(s.drop_last())
    }
}

/// The smallest temperature is one of the temperatures and no larger than any.
pub proof fn lemma_min_temperature(s: Seq<u8>)
    requires
        s.len() > 0,
    ensures
        s.contains(min_temperature(s)),
        forall|i: int| 0 <= i < s.len() ==> min_temperature(s) <= #[trigger] s[i],
    decreases s.len(),
{
    if s.len() > 1 {
        lemma_min_temperature(s.drop_last());
        let m = min_temperature(s.drop_last());
        let k = choose|k: int| 0 <= k < s.drop_last().len() && s.drop_last()[k] == m;
        assert(s[k] == m);
        assert forall|i: int| 0 <= i < s.len() implies min_temperature(s) <= #[trigger] s[i] by {
            if i < s.len() - 1 {
                assert(s[i] == s.drop_last()[i]);
            }
        }
    } else {
        assert(s[0] == min_temperature(s));
    }
}

/// After any number of updates the latest reading is the one stored last,
/// and it is never below the minimum of the history.
pub proof fn lemma_latest_at_least_min(b: TemperatureBuffer)
    ensures
        min_temperature(b.history()) <= b.latest(),
{
    b.lemma_shape();
    lemma_min_temperature(b.history());
}

/// The history and latest slot of a buffer made by `new(t0)` and then
/// updated with each reading of `ts` in turn.
pub open spec fn replay(t0: u8, ts: Seq<u8>) -> (Seq<u8>, int)
    decreases ts.len(),
{
    if ts.len() == 0 {
        (Seq::new(TEMP_HISTORY_LENGTH as nat, |i: int| t0), 0)
    } else {
        let (h, p) = replay(t0, ts.drop_last());
        let np = (p + 1) % (TEMP_HISTORY_LENGTH as int);
        (h.update(np, ts.last()), np)
    }
}

/// The last five readings of a buffer made by `new(t0)` and updated with
/// `ts`, oldest first (the initial temperature counts five times).
pub open spec fn last_readings(t0: u8, ts: Seq<u8>) -> Seq<u8> {
    let all = Seq::new(TEMP_HISTORY_LENGTH as nat, |i: int| t0) + ts;
    all.subrange(all.len() - TEMP_HISTORY_LENGTH, all.len() as int)
}

proof fn lemma_replay_slots(t0: u8, ts: Seq<u8>)
    ensures
        replay(t0, ts).0.len() == TEMP_HISTORY_LENGTH,
        0 <= replay(t0, ts).1 < TEMP_HISTORY_LENGTH,
        last_readings(t0, ts).len() == TEMP_HISTORY_LENGTH,
        forall|k: int|
            0 <= k < 5 ==> #[trigger] replay(t0, ts).0[(replay(t0, ts).1 - k + 5) % 5]
                == last_readings(t0, ts)[4 - k],
    decreases ts.len(),
{
    let all = Seq::new(TEMP_HISTORY_LENGTH as nat, |i: int| t0) + ts;
    if ts.len() > 0 {
        let prev = ts.drop_last();
        lemma_replay_slots(t0, prev);
        let (h, p) = replay(t0, prev);
        let np = (p + 1) % 5;
        let w = last_readings(t0, prev);
        let nw = last_readings(t0, ts);
        let pall = Seq::new(TEMP_HISTORY_LENGTH as nat, |i: int| t0) + prev;
        assert(all == pall.push(ts.last()));
        assert forall|k: int| 0 <= k < 5 implies #[trigger] replay(t0, ts).0[(np - k + 5) % 5]
            == nw[4 - k] by {
            if k == 0 {
                assert((np - 0 + 5) % 5 == np);
                assert(nw[4] == all[all.len() - 1]);
            } else {
                assert((np - k + 5) % 5 == (p - (k - 1) + 5) % 5);
                assert((np - k + 5) % 5 != np);
                assert(h[(p - (k - 1) + 5) % 5] == w[4 - (k - 1)]);
                assert(w[5 - k] == pall[pall.len() - 5 + 5 - k]);
                assert(nw[4 - k] == all[all.len() - 5 + 4 - k]);
            }
        }
    }
}

/// Whatever readings a buffer was given after it was made, its latest slot
/// holds the last reading and its smallest slot is the smallest of the last
/// five readings: the history is the last five readings.
pub proof fn lemma_buffer_holds_last_readings(b: TemperatureBuffer, t0: u8, ts: Seq<u8>)
    requires
        b.history() == replay(t0, ts).0,
        b.position() == replay(t0, ts).1,
    ensures
        b.latest() == last_readings(t0, ts).last(),
        min_temperature(b.history()) == min_temperature(last_readings(t0, ts)),
        b.history().to_multiset() == last_readings(t0, ts).to_multiset(),
{
    lemma_replay_slots(t0, ts);
    let h = b.history();
    let p = b.position();
    let w = last_readings(t0, ts);
    assert(h[(p - 0 + 5) % 5] == w[4]);
    assert((p - 0 + 5) % 5 == p);
    // Each slot holds one of the last readings and each reading is in a slot.
    assert forall|j: int| 0 <= j < 5 implies h[(p - (4 - j) + 5) % 5] == #[trigger] w[j] by {
        assert(h[(p - (4 - j) + 5) % 5] == w[4 - (4 - j)]);
    }
    assert forall|i: int| 0 <= i < 5 implies #[trigger] h[i] == w[4 - (p - i + 5) % 5] by {
        let k = (p - i + 5) % 5;
        assert((p - k + 5) % 5 == i);
        assert(h[(p - k + 5) % 5] == w[4 - k]);
    }
    lemma_min_temperature(h);
    lemma_min_temperature(w);
    let mh = min_temperature(h);
    let mw = min_temperature(w);
    let ih = choose|i: int| 0 <= i < h.len() && h[i] == mh;
    let jw = choose|j: int| 0 <= j < w.len() && w[j] == mw;
    assert(h[ih] == w[4 - (p - ih + 5) % 5]);
    assert(w[jw] == h[(p - (4 - jw) + 5) % 5]);
    assert(mh == mw);
    // The same values, slot by slot.
    lemma_rotation_multiset(h, w, p);
}

/// Storing a reading in a buffer that was made by `new(t0)` and updated
/// with `ts` gives the buffer made by `new(t0)` and updated with `ts` and
/// then that reading.
pub proof fn lemma_replay_step(b: TemperatureBuffer, next: TemperatureBuffer, t0: u8, ts: Seq<u8>, t: u8)
    requires
        b.history() == replay(t0, ts).0,
        b.position() == replay(t0, ts).1,
        b.stored(t, next),
    ensures
        next.history() == replay(t0, ts.push(t)).0,
        next.position() == replay(t0, ts.push(t)).1,
{
    assert(ts.push(t).drop_last() =~= ts);
}

proof fn lemma_rotation_multiset(h: Seq<u8>, w: Seq<u8>, p: int)
    requires
        h.len() == 5,
        w.len() == 5,
        0 <= p < 5,
        forall|j: int| 0 <= j < 5 ==> h[(p - (4 - j) + 5) % 5] == #[trigger] w[j],
    ensures
        h.to_multiset() == w.to_multiset(),
{
    broadcast use vstd::seq_lib::group_to_multiset_ensures;
    // w is h rotated so that the slot after the latest comes first.
    let s = (p + 1) % 5;
    assert(w =~= h.subrange(s, 5) + h.subrange(0, s)) by {
        assert forall|j: int| 0 <= j < 5 implies w[j] == (h.subrange(s, 5) + h.subrange(0, s))[j] by {
            assert(h[(p - (4 - j) + 5) % 5] == w[j]);
            if j < 5 - s {
                assert((p - (4 - j) + 5) % 5 == s + j);
            } else {
                assert((p - (4 - j) + 5) % 5 == j - (5 - s));
            }
        }
    }
    let a = h.subrange(s, 5);
    let b = h.subrange(0, s);
    vstd::seq_lib::lemma_seq_union_to_multiset_commutative(a, b);
    assert(b + a =~= h);
    assert(w == a + b);
    assert((a + b).to_multiset() == (b + a).to_multiset());
}

} // verus!
