//! Whether the laptop runs on its power supply.
use vstd::prelude::*;

verus! {

/// Whether the power supply is connected, as last reported. It starts out
/// connected.
#[derive(Debug)]
pub struct PowerSupplyState {
    connected: bool,
}

impl PowerSupplyState {
    /// The state before any report: connected.
    pub fn new() -> (res: Self)
        ensures
            res.connected(),
    {
        Self { connected: true }
    }

    /// Whether the power supply is connected.
    pub closed spec fn connected(&self) -> bool {
        self.connected
    }
}

/// Whether the power supply is connected.
pub fn is_power_connected(state: &PowerSupplyState) -> (connected: bool)
    ensures
        connected == state.connected(),
{
    state.connected
}

/// Records whether the power supply is connected.
pub fn set_power_connected(state: &mut PowerSupplyState, value: bool)
    ensures
        final(state).connected() == value,
{
    state.connected = value;
}

/// Both a battery and a power supply can be used: there are at least two
/// power devices, and among them a power supply and a battery.
pub open spec fn battery_supported_by(is_power_supply: Seq<bool>) -> bool {
    &&& is_power_supply.len() >= 2
    &&& is_power_supply.contains(true)
    &&& is_power_supply.contains(false)
}

/// Whether the machine supports running on battery, from the power devices
/// that UPower lists, each marked whether it is a power supply (capacity of
/// practically 0) or a battery.
pub fn battery_supported(is_power_supply: &Vec<bool>) -> (supported: bool)
    ensures
        supported == battery_supported_by(is_power_supply@),
{
    // At least power supply and battery are necessary.
    if is_power_supply.len() < 2 {
        return false;
    }
    let mut battery_available = false;
    let mut power_supply_available = false;
    let mut i: usize = 0;
    while i < is_power_supply.len()
        invariant
            0 <= i <= is_power_supply@.len(),
            power_supply_available == exists|k: int| 0 <= k < i && is_power_supply@[k],
            battery_available == exists|k: int| 0 <= k < i && !is_power_supply@[k],
        decreases is_power_supply@.len() - i,
    {
        if is_power_supply[i] {
            power_supply_available = true;
        } else {
            battery_available = true;
        }
        i = i + 1;
    }
    proof {
        if power_supply_available {
            let k = choose|k: int| 0 <= k < i && is_power_supply@[k];
            assert(is_power_supply@.contains(true));
        }
        if battery_available {
            let k = choose|k: int| 0 <= k < i && !is_power_supply@[k];
            assert(is_power_supply@[k] == false);
            assert(is_power_supply@.contains(false));
        }
    }
    battery_available && power_supply_available
}

} // verus!
