//! The display backlight of `/sys/class/backlight`.
use vstd::prelude::*;

verus! {

/// The raw brightness for a percentage of the maximum, rounded to the
/// nearest integer and capped at the maximum.
pub open spec fn brightness_raw(percentage: u8, max_brightness: u8) -> u8 {
    let raw = (percentage * max_brightness + 50) / 100;
    if raw > max_brightness {
        max_brightness
    } else {
        raw as u8
    }
}

/// The raw brightness to write for `brightness_percentage` percent of
/// `max_brightness`: rounded to the nearest integer, and capped at the
/// maximum for percentages above 100.
pub fn backlight_raw(brightness_percentage: u8, max_brightness: u8) -> (raw: u8)
    ensures
        raw == brightness_raw(brightness_percentage, max_brightness),
        raw <= max_brightness,
{
    let p = brightness_percentage as u32;
    let m = max_brightness as u32;
    assert(p * m <= 255 * 255) by (nonlinear_arith)
        requires
            p <= 255,
            m <= 255,
    ;
    let raw = (p * m + 50) / 100;
    if raw > max_brightness as u32 {
        max_brightness
    } else {
        raw as u8
    }
}

/// Full brightness is the maximum and none is zero.
pub proof fn lemma_backlight_ends(max_brightness: u8)
    ensures
        brightness_raw(100, max_brightness) == max_brightness,
        brightness_raw(0, max_brightness) == 0,
{
}

/// For a percentage up to 100 the raw brightness is the percentage of the
/// maximum rounded to the nearest integer (halves up), above 100 it is the
/// maximum, and a higher percentage never gives a lower brightness.
pub proof fn lemma_backlight_rounds(p: u8, q: u8, max_brightness: u8)
    ensures
        p <= 100 ==> p * max_brightness - 50 < 100 * brightness_raw(p, max_brightness) <= p
            * max_brightness + 50,
        p >= 100 ==> brightness_raw(p, max_brightness) == max_brightness,
        p <= q ==> brightness_raw(p, max_brightness) <= brightness_raw(q, max_brightness),
{
    let m = max_brightness as int;
    assert(p * m <= 100 * m ==> (p * m + 50) / 100 <= m) by (nonlinear_arith);
    assert(p >= 100 ==> p * m >= 100 * m) by (nonlinear_arith)
        requires
            m >= 0,
    ;
    assert(p <= q ==> p * m <= q * m) by (nonlinear_arith)
        requires
            m >= 0,
    ;
    assert(p <= 100 ==> p * m <= 100 * m) by (nonlinear_arith)
        requires
            m >= 0,
    ;
}

} // verus!
