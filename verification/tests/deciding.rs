//! Tests for the decision engine, the registry and the poll step.

use headset_notifier::device::{BatteryStatus, Config, Device};
use headset_notifier::engine::update_device;
use headset_notifier::notify::Notification;
use headset_notifier::poll::poll_devices;
use headset_notifier::registry::Registry;

fn config() -> Config {
    Config { polling_interval: 5000, debug: false, battery_threshold: 10 }
}

fn snapshot(name: &str, status: BatteryStatus, battery: Option<u8>) -> Device {
    Device {
        name: name.to_string(),
        battery_status: status,
        battery,
        last_notif_battery_level: None,
    }
}

fn bodies(notifs: &[Notification]) -> Vec<&str> {
    notifs.iter().map(|n| n.body.as_str()).collect()
}

#[test]
fn new_device_flow_greets_then_reports_level() {
    let cfg = config();
    let mut reg = Registry::new();
    let out = update_device(&cfg, &mut reg, snapshot("H", BatteryStatus::Discharging, Some(80)));
    assert_eq!(bodies(&out), vec!["New device connected", "Battery level: 80%"]);
    assert!(out[0].pause_after);
    assert_eq!(out[0].title, "H");
    assert_eq!(out[0].icon, "battery");
    let rec = reg.lookup("H").expect("record stored");
    assert_eq!(rec.last_notif_battery_level, Some(80));
}

#[test]
fn new_device_without_level_greets_only() {
    let cfg = config();
    let mut reg = Registry::new();
    let out = update_device(&cfg, &mut reg, snapshot("H", BatteryStatus::Charging, None));
    assert_eq!(bodies(&out), vec!["New device connected"]);
    let rec = reg.lookup("H").expect("record stored");
    assert_eq!(rec.last_notif_battery_level, None);
}

#[test]
fn discharge_reports_on_five_percent_steps() {
    let cfg = config();
    let mut reg = Registry::new();
    reg.upsert(snapshot("H", BatteryStatus::Discharging, Some(81)));
    let out = update_device(&cfg, &mut reg, snapshot("H", BatteryStatus::Discharging, Some(80)));
    assert_eq!(bodies(&out), vec!["Battery level: 80%"]);
    assert_eq!(out[0].icon, "battery");
}

#[test]
fn discharge_between_steps_is_quiet() {
    let cfg = config();
    let mut reg = Registry::new();
    reg.upsert(snapshot("H", BatteryStatus::Discharging, Some(79)));
    let out = update_device(&cfg, &mut reg, snapshot("H", BatteryStatus::Discharging, Some(78)));
    assert!(out.is_empty());
    let rec = reg.lookup("H").expect("record stored");
    assert_eq!(rec.battery, Some(78));
    assert_eq!(rec.last_notif_battery_level, None);
}

#[test]
fn low_battery_warns_below_threshold() {
    let cfg = config();
    let mut reg = Registry::new();
    reg.upsert(snapshot("H", BatteryStatus::Discharging, Some(15)));
    let out = update_device(&cfg, &mut reg, snapshot("H", BatteryStatus::Discharging, Some(9)));
    assert_eq!(bodies(&out), vec!["Battery level low: 9%"]);
    assert_eq!(out[0].icon, "battery-low");
    let rec = reg.lookup("H").expect("record stored");
    assert_eq!(rec.last_notif_battery_level, Some(9));
}

#[test]
fn full_charge_is_reported() {
    let cfg = config();
    let mut reg = Registry::new();
    reg.upsert(snapshot("H", BatteryStatus::Charging, Some(95)));
    let out = update_device(&cfg, &mut reg, snapshot("H", BatteryStatus::Charging, Some(100)));
    assert_eq!(bodies(&out), vec!["Battery level full: 100%"]);
}

#[test]
fn charging_milestone_every_five_percent() {
    let cfg = config();
    let mut reg = Registry::new();
    reg.upsert(snapshot("H", BatteryStatus::Charging, Some(82)));
    let out = update_device(&cfg, &mut reg, snapshot("H", BatteryStatus::Charging, Some(85)));
    assert_eq!(bodies(&out), vec!["Charging 85%"]);
}

#[test]
fn charging_between_milestones_is_quiet() {
    let cfg = config();
    let mut reg = Registry::new();
    reg.upsert(snapshot("H", BatteryStatus::Charging, Some(82)));
    let out = update_device(&cfg, &mut reg, snapshot("H", BatteryStatus::Charging, Some(84)));
    assert!(out.is_empty());
}

#[test]
fn disconnect_warns_and_clears_remembered_level() {
    let cfg = config();
    let mut reg = Registry::new();
    reg.upsert(snapshot("H", BatteryStatus::Discharging, Some(50)));
    let out = update_device(&cfg, &mut reg, snapshot("H", BatteryStatus::Disconnected, Some(50)));
    assert_eq!(bodies(&out), vec!["Device disconnected"]);
    assert_eq!(out[0].icon, "battery-caution");
    let rec = reg.lookup("H").expect("record stored");
    assert_eq!(rec.last_notif_battery_level, None);
    assert_eq!(rec.battery_status, BatteryStatus::Disconnected);
}

#[test]
fn reconnect_greets_again() {
    let cfg = config();
    let mut reg = Registry::new();
    reg.upsert(snapshot("H", BatteryStatus::Disconnected, Some(50)));
    let out = update_device(&cfg, &mut reg, snapshot("H", BatteryStatus::Discharging, Some(50)));
    assert_eq!(bodies(&out), vec!["New device connected", "Battery level: 50%"]);
    let rec = reg.lookup("H").expect("record stored");
    assert_eq!(rec.last_notif_battery_level, Some(50));
}

#[test]
fn suppression_gate_skips_once_a_level_is_remembered() {
    let cfg = config();
    let mut reg = Registry::new();
    let mut stored = snapshot("H", BatteryStatus::Discharging, Some(80));
    stored.last_notif_battery_level = Some(80);
    reg.upsert(stored);
    // A genuine decrease to a five-percent step would normally notify, but
    // the remembered level differs from the fresh snapshot's absent one.
    let out = update_device(&cfg, &mut reg, snapshot("H", BatteryStatus::Discharging, Some(75)));
    assert!(out.is_empty());
    let rec = reg.lookup("H").expect("record kept");
    assert_eq!(rec.battery, Some(80));
}

#[test]
fn same_snapshot_twice_is_quiet_the_second_time() {
    let cfg = config();
    let mut reg = Registry::new();
    let first = update_device(&cfg, &mut reg, snapshot("H", BatteryStatus::Discharging, Some(78)));
    assert_eq!(bodies(&first), vec!["New device connected", "Battery level: 78%"]);
    let second = update_device(&cfg, &mut reg, snapshot("H", BatteryStatus::Discharging, Some(78)));
    assert!(second.is_empty());
    // Also for a record that remembers no level at all.
    let first = update_device(&cfg, &mut reg, snapshot("K", BatteryStatus::Charging, None));
    assert_eq!(bodies(&first), vec!["New device connected"]);
    let second = update_device(&cfg, &mut reg, snapshot("K", BatteryStatus::Charging, None));
    assert!(second.is_empty());
}

#[test]
fn poll_handles_several_blocks_in_order() {
    let cfg = config();
    let mut reg = Registry::new();
    let raw = "Found Alpha!\nStatus: BATTERY_AVAILABLE\nLevel: 80%\nFound Beta!\nStatus: BATTERY_CHARGING\nLevel: 60%\n";
    let out = poll_devices(&cfg, &mut reg, raw);
    assert_eq!(
        bodies(&out),
        vec![
            "New device connected",
            "Battery level: 80%",
            "New device connected",
            "Battery level: 60%",
        ]
    );
    assert_eq!(out[0].title, "Alpha");
    assert_eq!(out[2].title, "Beta");
    // The same text again: every device has a remembered level, so the
    // gate keeps the second cycle quiet.
    let again = poll_devices(&cfg, &mut reg, raw);
    assert!(again.is_empty());
}

#[test]
fn poll_skips_unparseable_blocks() {
    let cfg = config();
    let mut reg = Registry::new();
    let raw = "Found nothing recognizable\nFound Gamma!\nStatus: BATTERY_AVAILABLE\nLevel: 33%\n";
    let out = poll_devices(&cfg, &mut reg, raw);
    assert_eq!(bodies(&out), vec!["New device connected", "Battery level: 33%"]);
    assert!(reg.lookup("Gamma").is_some());
    assert!(reg.lookup("nothing recognizable").is_none());
}

#[test]
fn registry_lookup_and_upsert_are_total_overwrites() {
    let mut reg = Registry::new();
    assert!(reg.lookup("H").is_none());
    reg.upsert(snapshot("H", BatteryStatus::Charging, Some(10)));
    reg.upsert(snapshot("K", BatteryStatus::Discharging, Some(20)));
    reg.upsert(snapshot("H", BatteryStatus::Discharging, Some(30)));
    let rec = reg.lookup("H").expect("record stored");
    assert_eq!(rec.battery, Some(30));
    assert_eq!(rec.battery_status, BatteryStatus::Discharging);
    assert_eq!(reg.records().len(), 2);
}
