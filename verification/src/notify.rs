//! Notification intents and icon handling.
//!
//! The decision engine produces [`Notification`] values; dispatching them
//! to a desktop notification daemon is left to the caller.

use crate::numbers::{spec_dec, u8_to_dec};
use crate::text::str_eq;
use vstd::prelude::*;

verus! {

/// Mathematical view of a [`Notification`].
pub ghost struct NotificationView {
    pub title: Seq<char>,
    pub body: Seq<char>,
    pub icon: Seq<char>,
    pub pause_after: bool,
}

/// One notification the decision engine wants emitted: a title (the device
/// name), a body, an icon identifier, and whether the dispatcher should
/// pause briefly afterwards so that the next notification does not
/// coalesce with this one in the notification daemon.
pub struct Notification {
    pub title: String,
    pub body: String,
    pub icon: String,
    pub pause_after: bool,
}

impl View for Notification {
    type V = NotificationView;

    open spec fn view(&self) -> NotificationView {
        NotificationView {
            title: self.title@,
            body: self.body@,
            icon: self.icon@,
            pause_after: self.pause_after,
        }
    }
}

/// The views of a sequence of notifications.
pub open spec fn notif_views(v: Seq<Notification>) -> Seq<NotificationView> {
    v.map_values(|n: Notification| n@)
}

/// Body of the greeting for a newly seen or reconnected device.
pub open spec fn msg_new_device() -> Seq<char> {
    "New device connected"@
}

/// Body of the disconnect notification.
pub open spec fn msg_disconnected() -> Seq<char> {
    "Device disconnected"@
}

/// Body of a plain battery level report.
pub open spec fn msg_level(b: u8) -> Seq<char> {
    "Battery level: "@ + spec_dec(b as int) + "%"@
}

/// Body of a low battery warning.
pub open spec fn msg_low(b: u8) -> Seq<char> {
    "Battery level low: "@ + spec_dec(b as int) + "%"@
}

/// Body of a full charge report.
pub open spec fn msg_full(b: u8) -> Seq<char> {
    "Battery level full: "@ + spec_dec(b as int) + "%"@
}

/// Body of a charging milestone report.
pub open spec fn msg_charging(b: u8) -> Seq<char> {
    "Charging "@ + spec_dec(b as int) + "%"@
}

/// Builds the body of a plain battery level report.
pub fn level_body(b: u8) -> (r: String)
    ensures
        r@ == msg_level(b),
{
    let mut s = "Battery level: ".to_owned();
    s.append(u8_to_dec(b).as_str());
    s.append("%");
    s
}

/// Builds the body of a low battery warning.
pub fn low_body(b: u8) -> (r: String)
    ensures
        r@ == msg_low(b),
{
    let mut s = "Battery level low: ".to_owned();
    s.append(u8_to_dec(b).as_str());
    s.append("%");
    s
}

/// Builds the body of a full charge report.
pub fn full_body(b: u8) -> (r: String)
    ensures
        r@ == msg_full(b),
{
    let mut s = "Battery level full: ".to_owned();
    s.append(u8_to_dec(b).as_str());
    s.append("%");
    s
}

/// Builds the body of a charging milestone report.
pub fn charging_body(b: u8) -> (r: String)
    ensures
        r@ == msg_charging(b),
{
    let mut s = "Charging ".to_owned();
    s.append(u8_to_dec(b).as_str());
    s.append("%");
    s
}

/// The icon identifiers the notifier recognizes.
pub open spec fn known_icon(icon: Seq<char>) -> bool {
    ||| icon == "dialog-information"@
    ||| icon == "battery-caution"@
    ||| icon == "battery-low"@
    ||| icon == "battery"@
}

/// The icon actually displayed for a requested icon: the icon itself when
/// recognized, the generic informational icon otherwise.
pub open spec fn spec_resolve_icon(icon: Seq<char>) -> Seq<char> {
    if known_icon(icon) {
        icon
    } else {
        "dialog-information"@
    }
}

/// Validates `icon` against the allow-list of recognized icons and
/// substitutes the generic informational icon when it is not recognized.
pub fn resolve_icon(icon: &str) -> (r: String)
    ensures
        r@ == spec_resolve_icon(icon@),
{
    if str_eq(icon, "dialog-information") || str_eq(icon, "battery-caution") || str_eq(
        icon,
        "battery-low",
    ) || str_eq(icon, "battery") {
        icon.to_owned()
    } else {
        "dialog-information".to_owned()
    }
}

} // verus!
