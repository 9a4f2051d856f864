//! The LED devices of `/sys/class/leds`.
use vstd::prelude::*;
use vstd::string::*;

use crate::sysfs::parse::{split_char, split_str};
use crate::text::{contains_seq, contains_str, trim, trim_ws};


verus! {

/// What a LED device can show.
#[derive(Debug, Copy, Clone, PartialEq, Eq, Structural)]
#[non_exhaustive]
pub enum ControllerMode {
    Rgb,
    Monochrome,
}

impl ControllerMode {
    /// RGB when the device has a multi-intensity file, monochrome otherwise.
    pub fn for_device(has_intensities: bool) -> (mode: Self)
        ensures
            mode == if has_intensities {
                ControllerMode::Rgb
            } else {
                ControllerMode::Monochrome
            },
    {
        if has_intensities {
            ControllerMode::Rgb
        } else {
            ControllerMode::Monochrome
        }
    }
}

/// The function of a LED device named `file_name` (the last `:` separated
/// part, trimmed); `None` for MMC activity LEDs, which are skipped.
pub open spec fn led_function_of(file_name: Seq<char>) -> Option<Seq<char>> {
    if contains_seq(file_name, "mmc"@) {
        None
    } else {
        Some(trim_ws(split_char(file_name, ':').last()))
    }
}

/// The function of the LED device named `file_name`, or `None` when the
/// device is not a useful one (an MMC activity LED).
pub fn led_function(file_name: &str) -> (function: Option<String>)
    ensures
        function is Some <==> led_function_of(file_name@) is Some,
        function matches Some(f) ==> led_function_of(file_name@) == Some(f@),
{
    if contains_str(file_name, "mmc") {
        return None;
    }
    let parts = split_str(file_name, ':');
    proof {
        crate::sysfs::parse::lemma_split_char_nonempty(file_name@, ':');
    }
    let last = parts.len() - 1;
    assert(parts@[last as int]@ == split_char(file_name@, ':').last());
    Some(String::from_str(trim(parts[last].as_str())))
}

/// A device whose maximum brightness is below 2 offers no useful control.
pub fn brightness_supported(max_brightness: u32) -> (supported: bool)
    ensures
        supported == (max_brightness >= 2),
{
    max_brightness >= 2
}

/// The code of `c` in lower case when it is an ASCII capital letter, else
/// its own code.
pub open spec fn ascii_lower(c: char) -> u32 {
    if 'A' <= c <= 'Z' {
        ((c as u32) + 32) as u32
    } else {
        c as u32
    }
}

/// `s` and `t` are equal when ASCII capitals are taken as lower case.
pub open spec fn eq_ignore_ascii_case(s: Seq<char>, t: Seq<char>) -> bool {
    s.len() == t.len() && forall|i: int| 0 <= i < s.len() ==> ascii_lower(#[trigger] s[i])
        == ascii_lower(t[i])
}

/// The `multi_index` file of an RGB device: `red green blue` in any case,
/// surrounded by whitespace or not. (Comparing the lower-cased text with
/// `red green blue` is the same as this ASCII comparison: no character
/// other than an ASCII capital lower-cases to one of its letters.)
pub open spec fn rgb_multi_index(content: Seq<char>) -> bool {
    eq_ignore_ascii_case(trim_ws(content), "red green blue"@)
}

fn ascii_lower_exec(c: char) -> (l: u32)
    ensures
        l == ascii_lower(c),
{
    if 'A' <= c && c <= 'Z' {
        (c as u32) + 32
    } else {
        c as u32
    }
}

/// Whether the `multi_index` file content shows an RGB device.
pub fn is_rgb_multi_index(content: &str) -> (rgb: bool)
    ensures
        rgb == rgb_multi_index(content@),
{
    let s = trim(content);
    let t = "red green blue";
    let n = s.unicode_len();
    if n != t.unicode_len() {
        return false;
    }
    let mut i: usize = 0;
    while i < n
        invariant
            n == s@.len(),
            n == t@.len(),
            s@ == trim_ws(content@),
            t@ == "red green blue"@,
            0 <= i <= n,
            forall|k: int| 0 <= k < i ==> ascii_lower(#[trigger] s@[k]) == ascii_lower(t@[k]),
        decreases n - i,
    {
        if ascii_lower_exec(s.get_char(i)) != ascii_lower_exec(t.get_char(i)) {
            assert(ascii_lower(s@[i as int]) != ascii_lower(t@[i as int]));
            assert(!eq_ignore_ascii_case(s@, t@));
            return false;
        }
        i = i + 1;
    }
    true
}

} // verus!
