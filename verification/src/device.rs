//! Device model: battery status, snapshots and registry records.

use vstd::prelude::*;

verus! {

/// Battery state reported for a device in one observation.
#[derive(Clone, Copy, Debug, PartialEq, Eq, Structural)]
pub enum BatteryStatus {
    Charging,
    Discharging,
    Disconnected,
}

/// Runtime configuration of the notifier.
pub struct Config {
    /// Interval between polls in milliseconds.
    pub polling_interval: u64,
    /// Enable a dump of every registry record after each cycle.
    pub debug: bool,
    /// Battery percentage below which a low-battery notification fires.
    pub battery_threshold: u8,
}

impl Default for Config {
    /// The stock configuration: poll every five seconds, dump records,
    /// warn below ten percent.
    fn default() -> (c: Config)
        ensures
            c.polling_interval == 5000,
            c.debug,
            c.battery_threshold == 10,
    {
        Config { polling_interval: 5000, debug: true, battery_threshold: 10 }
    }
}

/// Mathematical view of a [`Device`]: the name as a character sequence,
/// the other fields as they are.
pub ghost struct DeviceView {
    pub name: Seq<char>,
    pub battery_status: BatteryStatus,
    pub battery: Option<u8>,
    pub last_notif_battery_level: Option<u8>,
}

/// One device, either as a freshly parsed snapshot of one poll cycle or as
/// the registry's remembered record for that device name.
#[derive(Debug)]
pub struct Device {
    /// Device name; acts as the registry key.
    pub name: String,
    /// Battery state seen in the most recent observation.
    pub battery_status: BatteryStatus,
    /// Battery percentage, when the device reported one.
    pub battery: Option<u8>,
    /// Battery percentage at which the most recent notification fired;
    /// `None` after a disconnect or before any notification.
    pub last_notif_battery_level: Option<u8>,
}

impl View for Device {
    type V = DeviceView;

    open spec fn view(&self) -> DeviceView {
        DeviceView {
            name: self.name@,
            battery_status: self.battery_status,
            battery: self.battery,
            last_notif_battery_level: self.last_notif_battery_level,
        }
    }
}

/// Well-formedness shared by snapshots and records: a non-empty name and a
/// battery percentage within range, and never a disconnected observation
/// without any battery level, which carries no information.
pub open spec fn device_wf(d: DeviceView) -> bool {
    &&& d.name.len() > 0
    &&& (d.battery matches Some(b) ==> b <= 100)
    &&& !(d.battery_status is Disconnected && d.battery is None)
    &&& (d.last_notif_battery_level matches Some(b) ==> b <= 100)
}

/// A snapshot fresh out of the parser: well formed, and no notification has
/// been attributed to it yet.
pub open spec fn fresh_snapshot(d: DeviceView) -> bool {
    device_wf(d) && d.last_notif_battery_level is None
}

} // verus!
