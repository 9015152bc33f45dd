//! Tests for the snapshot parser and the text utilities.

use headset_notifier::device::BatteryStatus;
use headset_notifier::notify::resolve_icon;
use headset_notifier::numbers::{parse_u8, u8_to_dec};
use headset_notifier::parser::parse_device;
use headset_notifier::text::{remove_all, split_lines, split_str, str_contains, str_eq, trim_str};

#[test]
fn parse_block_without_name_is_rejected() {
    let r = parse_device("Status: BATTERY_AVAILABLE\nLevel: 50%");
    assert!(r.is_none());
}

#[test]
fn parse_disconnected_without_level_is_rejected() {
    // A name line alone: default status is Disconnected and no level field.
    let r = parse_device(" Foo Headset!\n");
    assert!(r.is_none());
}

#[test]
fn parse_strips_parenthetical_suffix() {
    let r = parse_device(" Foo Headset (wireless)!\nStatus: BATTERY_AVAILABLE\nLevel: 50%\n")
        .expect("block should parse");
    assert_eq!(r.name, "Foo Headset");
    assert_eq!(r.battery_status, BatteryStatus::Discharging);
    assert_eq!(r.battery, Some(50));
    assert_eq!(r.last_notif_battery_level, None);
}

#[test]
fn parse_name_only_parenthetical_is_rejected() {
    // After truncation at '(' and trimming, nothing of the name remains.
    let r = parse_device(" (wireless)!\nStatus: BATTERY_AVAILABLE\nLevel: 50%\n");
    assert!(r.is_none());
}

#[test]
fn parse_charging_block() {
    let r = parse_device(" Foo Headset!\nStatus: BATTERY_CHARGING\nLevel: 85%\n")
        .expect("block should parse");
    assert_eq!(r.battery_status, BatteryStatus::Charging);
    assert_eq!(r.battery, Some(85));
}

#[test]
fn parse_malformed_level_is_rejected() {
    let r = parse_device(" Foo Headset!\nStatus: BATTERY_AVAILABLE\nLevel: 8x%\n");
    assert!(r.is_none());
}

#[test]
fn parse_level_above_hundred_is_rejected() {
    let r = parse_device(" Foo Headset!\nStatus: BATTERY_AVAILABLE\nLevel: 150%\n");
    assert!(r.is_none());
}

#[test]
fn parse_unknown_lines_are_ignored() {
    let r = parse_device("junk\n Foo!\nStatus: BATTERY_AVAILABLE\nLevel: 7%\nmore junk\n")
        .expect("block should parse");
    assert_eq!(r.name, "Foo");
    assert_eq!(r.battery, Some(7));
}

#[test]
fn parse_disconnected_with_level_is_kept() {
    let r = parse_device(" Foo!\nLevel: 40%\n").expect("block should parse");
    assert_eq!(r.battery_status, BatteryStatus::Disconnected);
    assert_eq!(r.battery, Some(40));
}

#[test]
fn unrecognized_icon_falls_back_to_informational() {
    assert_eq!(resolve_icon("no-such-icon"), "dialog-information");
    assert_eq!(resolve_icon(""), "dialog-information");
}

#[test]
fn recognized_icons_pass_through() {
    assert_eq!(resolve_icon("battery"), "battery");
    assert_eq!(resolve_icon("battery-low"), "battery-low");
    assert_eq!(resolve_icon("battery-caution"), "battery-caution");
    assert_eq!(resolve_icon("dialog-information"), "dialog-information");
}

#[test]
fn parse_u8_accepts_plain_and_signed_digits() {
    assert_eq!(parse_u8("85"), Some(85));
    assert_eq!(parse_u8("+85"), Some(85));
    assert_eq!(parse_u8("0"), Some(0));
    assert_eq!(parse_u8("007"), Some(7));
    assert_eq!(parse_u8("255"), Some(255));
}

#[test]
fn parse_u8_rejects_bad_input() {
    assert_eq!(parse_u8(""), None);
    assert_eq!(parse_u8("+"), None);
    assert_eq!(parse_u8("8x"), None);
    assert_eq!(parse_u8("256"), None);
    assert_eq!(parse_u8("99999999999999999999"), None);
    assert_eq!(parse_u8("-1"), None);
}

#[test]
fn u8_renders_in_decimal() {
    assert_eq!(u8_to_dec(0), "0");
    assert_eq!(u8_to_dec(9), "9");
    assert_eq!(u8_to_dec(80), "80");
    assert_eq!(u8_to_dec(100), "100");
    assert_eq!(u8_to_dec(255), "255");
}

#[test]
fn text_utilities_match_std() {
    assert!(str_eq("abc", "abc"));
    assert!(!str_eq("abc", "abd"));
    assert!(str_contains("Status: BATTERY_AVAILABLE", "BATTERY"));
    assert!(!str_contains("short", "longer pattern"));
    assert_eq!(trim_str("  padded \t"), "padded");
    assert_eq!(remove_all("Level: 85%", "Level: "), "85%");
    assert_eq!(remove_all("a%b%%c", "%"), "abc");
    assert_eq!(split_str("aFoundbFoundc", "Found"), vec!["a", "b", "c"]);
    assert_eq!(split_str("FoundX", "Found"), vec!["", "X"]);
    assert_eq!(split_lines("a\r\nb\nc"), vec!["a", "b", "c"]);
    assert_eq!(split_lines("a\n"), vec!["a"]);
}
