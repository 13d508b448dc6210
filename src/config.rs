//! Device pairing configuration.
use vstd::prelude::*;

verus! {

/// Identity of a paired wireless device.
#[derive(Clone, Copy, Debug, PartialEq, Eq)]
pub struct DevicePairing {
    pub device_id: u16,
    pub transmission_type: u8,
}

/// The devices the application pairs with.
#[derive(Clone, Copy, Debug, PartialEq, Eq)]
pub struct Pairings {
    pub heart_rate_monitor: DevicePairing,
    pub fitness_equipment: DevicePairing,
}

/// The application configuration.
#[derive(Clone, Copy, Debug, PartialEq, Eq)]
pub struct AppConfig {
    pub devices: Pairings,
}

} // verus!
