//! Battery charge control files of `/sys/class/power_supply`.
use vstd::prelude::*;
use vstd::string::*;

use crate::text::{str_eq, trim, trim_ws};

verus! {

/// Whether the content of a power supply's `type` file shows a battery.
pub fn is_battery(type_content: &str) -> (battery: bool)
    ensures
        battery == (trim_ws(type_content@) == "Battery"@),
{
    str_eq(trim(type_content), "Battery")
}

/// The threshold a threshold file holds: the first number of its list.
pub fn first_threshold(values: &Vec<u32>) -> (threshold: u32)
    requires
        values@.len() > 0,
    ensures
        threshold == values@[0],
{
    values[0]
}

} // verus!
