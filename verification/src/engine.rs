//! The notification decision engine.
//!
//! Given the registry's previous record for a device and a freshly parsed
//! snapshot, decide which notifications to emit, in order, and what record
//! to remember, so that duplicate notifications are suppressed.

use crate::device::{fresh_snapshot, BatteryStatus, Config, Device, DeviceView};
use crate::notify::{
    charging_body, full_body, level_body, low_body, msg_charging, msg_disconnected, msg_full,
    msg_level, msg_low, msg_new_device, notif_views, Notification, NotificationView,
};
use crate::registry::Registry;
use vstd::prelude::*;

verus! {

/// `d` with its remembered notification level replaced.
pub open spec fn with_last(d: DeviceView, last: Option<u8>) -> DeviceView {
    DeviceView {
        name: d.name,
        battery_status: d.battery_status,
        battery: d.battery,
        last_notif_battery_level: last,
    }
}

/// The disconnect notification for a device.
pub open spec fn disconnect_notif(name: Seq<char>) -> NotificationView {
    NotificationView {
        title: name,
        body: msg_disconnected(),
        icon: "battery-caution"@,
        pause_after: false,
    }
}

/// The notifications greeting a newly seen or reconnected device: the
/// greeting itself, then, when a battery level is present, that level.
/// The dispatcher pauses after the greeting so the two do not coalesce.
pub open spec fn connect_notifs(name: Seq<char>, battery: Option<u8>) -> Seq<NotificationView> {
    let hello = NotificationView {
        title: name,
        body: msg_new_device(),
        icon: "battery"@,
        pause_after: true,
    };
    match battery {
        Some(b) => seq![
            hello,
            NotificationView { title: name, body: msg_level(b), icon: "battery"@, pause_after: false },
        ],
        None => seq![hello],
    }
}

/// The remembered notification level after a connect: the reported battery
/// level when there is one, else the previous value.
pub open spec fn connect_last(battery: Option<u8>, prev: Option<u8>) -> Option<u8> {
    if battery is Some {
        battery
    } else {
        prev
    }
}

/// Outcome of the connection-state transition of one cycle: the
/// notifications to emit and the updated candidate record.
pub open spec fn status_change_result(old: DeviceView, new: DeviceView) -> (
    Seq<NotificationView>,
    DeviceView,
) {
    if !(old.battery_status is Disconnected) && new.battery_status is Disconnected {
        (seq![disconnect_notif(new.name)], with_last(new, None))
    } else if old.battery_status is Disconnected && !(new.battery_status is Disconnected) {
        (
            connect_notifs(new.name, new.battery),
            with_last(new, connect_last(new.battery, new.last_notif_battery_level)),
        )
    } else {
        (Seq::empty(), new)
    }
}

/// Outcome of a genuine battery decrease while discharging: a warning
/// below the threshold, a report on every five-percent step, else nothing.
pub open spec fn discharge_result(dev: DeviceView, battery: u8, threshold: u8) -> (
    Seq<NotificationView>,
    DeviceView,
) {
    if battery < threshold {
        (
            seq![
                NotificationView {
                    title: dev.name,
                    body: msg_low(battery),
                    icon: "battery-low"@,
                    pause_after: false,
                },
            ],
            with_last(dev, Some(battery)),
        )
    } else if battery % 5 == 0 {
        (
            seq![
                NotificationView {
                    title: dev.name,
                    body: msg_level(battery),
                    icon: "battery"@,
                    pause_after: false,
                },
            ],
            with_last(dev, Some(battery)),
        )
    } else {
        (Seq::empty(), dev)
    }
}

/// Outcome of a genuine battery increase while charging: a report at full
/// charge, a milestone on every five-percent step, else nothing.
pub open spec fn charge_result(dev: DeviceView, battery: u8) -> (Seq<NotificationView>, DeviceView) {
    if battery == 100 {
        (
            seq![
                NotificationView {
                    title: dev.name,
                    body: msg_full(battery),
                    icon: "battery"@,
                    pause_after: false,
                },
            ],
            with_last(dev, Some(battery)),
        )
    } else if battery % 5 == 0 {
        (
            seq![
                NotificationView {
                    title: dev.name,
                    body: msg_charging(battery),
                    icon: "battery"@,
                    pause_after: false,
                },
            ],
            with_last(dev, Some(battery)),
        )
    } else {
        (Seq::empty(), dev)
    }
}

/// Outcome of the battery level transition of one cycle, evaluated only
/// when both the old record and the new sighting carry a level.
pub open spec fn battery_change_result(old_battery: Option<u8>, dev: DeviceView, threshold: u8) -> (
    Seq<NotificationView>,
    DeviceView,
) {
    if old_battery is Some && dev.battery is Some {
        let ob = old_battery.unwrap();
        let nb = dev.battery.unwrap();
        if dev.battery_status is Discharging && nb < ob {
            discharge_result(dev, nb, threshold)
        } else if dev.battery_status is Charging && nb > ob {
            charge_result(dev, nb)
        } else {
            (Seq::empty(), dev)
        }
    } else {
        (Seq::empty(), dev)
    }
}

/// The decision engine for one device sighting.  Returns the notifications
/// to emit, in order, and the record to store; `None` for the record means
/// the suppression gate skipped the cycle and the registry keeps what it
/// had.
///
/// The suppression gate compares the stored record's remembered
/// notification level with the incoming snapshot's, which a fresh parse
/// always leaves absent: once a notification with a level has fired for a
/// device, every later cycle is skipped until a disconnect clears the
/// remembered level.  Odd as that reads, it is the engine's observable
/// behaviour and is kept deliberately; a cycle skipped this way leaves
/// the registry untouched.
pub open spec fn update_result(old: Option<DeviceView>, new: DeviceView, threshold: u8) -> (
    Seq<NotificationView>,
    Option<DeviceView>,
) {
    match old {
        Some(o) => {
            if o.last_notif_battery_level != new.last_notif_battery_level {
                (Seq::empty(), None)
            } else {
                let s = status_change_result(o, new);
                let b = battery_change_result(o.battery, s.1, threshold);
                (s.0 + b.0, Some(b.1))
            }
        },
        None => {
            (
                connect_notifs(new.name, new.battery),
                Some(with_last(new, connect_last(new.battery, new.last_notif_battery_level))),
            )
        },
    }
}

/// Law: applying the same snapshot twice in a row is quiet the second
/// time.  Whatever record the first sighting of a fresh snapshot stores,
/// a second sighting of the very same snapshot emits no notification and
/// leaves the stored record as it was.
pub proof fn lemma_second_application_silent(
    prior: Option<DeviceView>,
    snap: DeviceView,
    threshold: u8,
)
    requires
        fresh_snapshot(snap),
    ensures
        ({
            let first = update_result(prior, snap, threshold);
            match first.1 {
                Some(rec) => {
                    let second = update_result(Some(rec), snap, threshold);
                    second.0 == Seq::<NotificationView>::empty() && (second.1
                        == Option::<DeviceView>::None || second.1 == Some(rec))
                },
                None => first.0 == Seq::<NotificationView>::empty(),
            }
        }),
{
    let first = update_result(prior, snap, threshold);
    if first.1 is Some {
        let rec = first.1.unwrap();
        // The engine only ever rewrites the remembered notification level:
        // name, status and battery come through unchanged.
        assert(rec.name == snap.name);
        assert(rec.battery_status == snap.battery_status);
        assert(rec.battery == snap.battery);
        if rec.last_notif_battery_level is None {
            // The cycle is processed, but nothing changed: no status
            // transition, no battery movement, and the record is the
            // snapshot itself.
            assert(rec == snap);
            let second = update_result(Some(rec), snap, threshold);
            assert(second.0 =~= Seq::<NotificationView>::empty());
        }
        // Otherwise the suppression gate skips the cycle outright.
    }
}

/// Mapping the views over a push appends the pushed view.
proof fn lemma_notif_views_push(v: Seq<Notification>, n: Notification)
    ensures
        notif_views(v.push(n)) == notif_views(v) + seq![n@],
{
    assert(notif_views(v.push(n)) =~= notif_views(v) + seq![n@]);
}

/// Equality of two optional battery levels.
fn opt_u8_eq(a: Option<u8>, b: Option<u8>) -> (r: bool)
    ensures
        r == (a == b),
{
    match (a, b) {
        (None, None) => true,
        (Some(x), Some(y)) => x == y,
        _ => false,
    }
}

/// Handles a change of connection state: a disconnect clears the
/// remembered level and warns; a reconnect greets the device and reports
/// its level when it carries one.
pub fn handle_device_status_change(
    old_device: &Device,
    new_device: &mut Device,
    out: &mut Vec<Notification>,
)
    ensures
        final(new_device)@ == status_change_result(old_device@, old(new_device)@).1,
        notif_views(final(out)@) == notif_views(old(out)@) + status_change_result(
            old_device@,
            old(new_device)@,
        ).0,
{
    if old_device.battery_status != BatteryStatus::Disconnected && new_device.battery_status
        == BatteryStatus::Disconnected {
        new_device.last_notif_battery_level = None;
        let n = Notification {
            title: new_device.name.clone(),
            body: "Device disconnected".to_owned(),
            icon: "battery-caution".to_owned(),
            pause_after: false,
        };
        proof {
            lemma_notif_views_push(out@, n);
        }
        out.push(n);
    } else if old_device.battery_status == BatteryStatus::Disconnected && new_device.battery_status
        != BatteryStatus::Disconnected {
        let hello = Notification {
            title: new_device.name.clone(),
            body: "New device connected".to_owned(),
            icon: "battery".to_owned(),
            pause_after: true,
        };
        proof {
            lemma_notif_views_push(out@, hello);
        }
        out.push(hello);
        if let Some(b) = new_device.battery {
            new_device.last_notif_battery_level = Some(b);
            let n = Notification {
                title: new_device.name.clone(),
                body: level_body(b),
                icon: "battery".to_owned(),
                pause_after: false,
            };
            proof {
                lemma_notif_views_push(out@, n);
                assert((notif_views(old(out)@) + seq![hello@]) + seq![n@] =~= notif_views(
                    old(out)@,
                ) + (seq![hello@] + seq![n@]));
                assert(seq![hello@] + seq![n@] =~= connect_notifs(
                    old(new_device)@.name,
                    old(new_device)@.battery,
                ));
            }
            out.push(n);
        }
    } else {
        proof {
            assert(notif_views(out@) + Seq::<NotificationView>::empty() =~= notif_views(out@));
        }
    }
}

/// Notifications for a genuine battery decrease while discharging: a
/// warning below the configured threshold, a level report on every
/// five-percent step, else nothing.
pub fn handle_discharging(
    config: &Config,
    device: &mut Device,
    battery: u8,
    out: &mut Vec<Notification>,
)
    ensures
        final(device)@ == discharge_result(old(device)@, battery, config.battery_threshold).1,
        notif_views(final(out)@) == notif_views(old(out)@) + discharge_result(
            old(device)@,
            battery,
            config.battery_threshold,
        ).0,
{
    if battery < config.battery_threshold {
        device.last_notif_battery_level = Some(battery);
        let n = Notification {
            title: device.name.clone(),
            body: low_body(battery),
            icon: "battery-low".to_owned(),
            pause_after: false,
        };
        proof {
            lemma_notif_views_push(out@, n);
        }
        out.push(n);
    } else if battery % 5 == 0 {
        device.last_notif_battery_level = Some(battery);
        let n = Notification {
            title: device.name.clone(),
            body: level_body(battery),
            icon: "battery".to_owned(),
            pause_after: false,
        };
        proof {
            lemma_notif_views_push(out@, n);
        }
        out.push(n);
    } else {
        proof {
            assert(notif_views(out@) + Seq::<NotificationView>::empty() =~= notif_views(out@));
        }
    }
}

/// Notifications for a genuine battery increase while charging: a full
/// charge report at one hundred percent, a milestone on every five-percent
/// step, else nothing.
pub fn handle_charging(device: &mut Device, battery: u8, out: &mut Vec<Notification>)
    ensures
        final(device)@ == charge_result(old(device)@, battery).1,
        notif_views(final(out)@) == notif_views(old(out)@) + charge_result(
            old(device)@,
            battery,
        ).0,
{
    if battery == 100 {
        device.last_notif_battery_level = Some(battery);
        let n = Notification {
            title: device.name.clone(),
            body: full_body(battery),
            icon: "battery".to_owned(),
            pause_after: false,
        };
        proof {
            lemma_notif_views_push(out@, n);
        }
        out.push(n);
    } else if battery % 5 == 0 {
        device.last_notif_battery_level = Some(battery);
        let n = Notification {
            title: device.name.clone(),
            body: charging_body(battery),
            icon: "battery".to_owned(),
            pause_after: false,
        };
        proof {
            lemma_notif_views_push(out@, n);
        }
        out.push(n);
    } else {
        proof {
            assert(notif_views(out@) + Seq::<NotificationView>::empty() =~= notif_views(out@));
        }
    }
}

/// Handles a battery level transition, evaluated only when both the old
/// record and the new sighting carry a level.
pub fn handle_battery_level_change(
    config: &Config,
    old_device: &Device,
    new_device: &mut Device,
    out: &mut Vec<Notification>,
)
    ensures
        final(new_device)@ == battery_change_result(
            old_device@.battery,
            old(new_device)@,
            config.battery_threshold,
        ).1,
        notif_views(final(out)@) == notif_views(old(out)@) + battery_change_result(
            old_device@.battery,
            old(new_device)@,
            config.battery_threshold,
        ).0,
{
    let mut acted = false;
    if let (Some(old_battery), Some(new_battery)) = (old_device.battery, new_device.battery) {
        if new_device.battery_status == BatteryStatus::Discharging && new_battery < old_battery {
            handle_discharging(config, new_device, new_battery, out);
            acted = true;
        } else if new_device.battery_status == BatteryStatus::Charging && new_battery
            > old_battery {
            handle_charging(new_device, new_battery, out);
            acted = true;
        }
    }
    if !acted {
        proof {
            assert(notif_views(out@) + Seq::<NotificationView>::empty() =~= notif_views(out@));
        }
    }
}

/// Greets a device seen for the first time and reports its level when it
/// carries one.
pub fn handle_new_device(device: &mut Device, out: &mut Vec<Notification>)
    ensures
        final(device)@ == with_last(
            old(device)@,
            connect_last(old(device)@.battery, old(device)@.last_notif_battery_level),
        ),
        notif_views(final(out)@) == notif_views(old(out)@) + connect_notifs(
            old(device)@.name,
            old(device)@.battery,
        ),
{
    let hello = Notification {
        title: device.name.clone(),
        body: "New device connected".to_owned(),
        icon: "battery".to_owned(),
        pause_after: true,
    };
    proof {
        lemma_notif_views_push(out@, hello);
    }
    out.push(hello);
    if let Some(b) = device.battery {
        device.last_notif_battery_level = Some(b);
        let n = Notification {
            title: device.name.clone(),
            body: level_body(b),
            icon: "battery".to_owned(),
            pause_after: false,
        };
        proof {
            lemma_notif_views_push(out@, n);
            assert((notif_views(old(out)@) + seq![hello@]) + seq![n@] =~= notif_views(old(out)@) + (
            seq![hello@] + seq![n@]));
            assert(seq![hello@] + seq![n@] =~= connect_notifs(
                old(device)@.name,
                old(device)@.battery,
            ));
        }
        out.push(n);
    }
}

/// One device sighting against the registry: consults the stored record,
/// runs the decision engine, stores the resulting record and returns the
/// notifications to emit, in order.  When the suppression gate skips the
/// cycle, nothing is emitted and the registry keeps its previous record.
pub fn update_device(config: &Config, devices: &mut Registry, new_device: Device) -> (out: Vec<
    Notification,
>)
    requires
        old(devices).wf(),
    ensures
        final(devices).wf(),
        ({
            let prior = if old(devices)@.contains_key(new_device@.name) {
                Some(old(devices)@[new_device@.name])
            } else {
                None
            };
            let r = update_result(prior, new_device@, config.battery_threshold);
            notif_views(out@) == r.0 && final(devices)@ == (match r.1 {
                Some(rec) => old(devices)@.insert(new_device@.name, rec),
                None => old(devices)@,
            })
        }),
{
    let mut out: Vec<Notification> = Vec::new();
    proof {
        assert(notif_views(out@) =~= Seq::<NotificationView>::empty());
    }
    let mut nd = new_device;
    match devices.lookup(nd.name.as_str()) {
        Some(old_device) => {
            if !opt_u8_eq(old_device.last_notif_battery_level, nd.last_notif_battery_level) {
                return out;
            }
            let ghost o = old_device@;
            handle_device_status_change(old_device, &mut nd, &mut out);
            handle_battery_level_change(config, old_device, &mut nd, &mut out);
            proof {
                let s = status_change_result(o, new_device@);
                let b = battery_change_result(o.battery, s.1, config.battery_threshold);
                assert((Seq::<NotificationView>::empty() + s.0) + b.0 =~= s.0 + b.0);
                assert(nd@.name == new_device@.name);
            }
        },
        None => {
            handle_new_device(&mut nd, &mut out);
            proof {
                assert(Seq::<NotificationView>::empty() + connect_notifs(
                    new_device@.name,
                    new_device@.battery,
                ) =~= connect_notifs(new_device@.name, new_device@.battery));
                assert(nd@.name == new_device@.name);
            }
        },
    }
    devices.upsert(nd);
    out
}

} // verus!
