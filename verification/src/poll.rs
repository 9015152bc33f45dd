//! One poll tick over the whole status text: split into per-device
//! blocks, parse each, and run the decision engine against the registry.
//!
//! Fetching the status text, dispatching the returned notifications and
//! sleeping until the next tick are the caller's business.

use crate::device::{Config, DeviceView};
use crate::engine::{update_device, update_result};
use crate::notify::{notif_views, Notification, NotificationView};
use crate::parser::{parse_device, spec_parse_device};
use crate::registry::Registry;
use crate::text::{seq_views, spec_split, split_str};
use vstd::prelude::*;

verus! {

/// One block's effect: an empty or unparseable block does nothing; a
/// parsed snapshot runs the decision engine and stores its record.
pub open spec fn block_result(
    block: Seq<char>,
    reg: Map<Seq<char>, DeviceView>,
    threshold: u8,
) -> (Seq<NotificationView>, Map<Seq<char>, DeviceView>) {
    if block.len() == 0 {
        (Seq::empty(), reg)
    } else {
        match spec_parse_device(block) {
            Some(d) => {
                let prior = if reg.contains_key(d.name) {
                    Some(reg[d.name])
                } else {
                    None
                };
                let r = update_result(prior, d, threshold);
                (
                    r.0,
                    match r.1 {
                        Some(rec) => reg.insert(d.name, rec),
                        None => reg,
                    },
                )
            },
            None => (Seq::empty(), reg),
        }
    }
}

/// The effect of a tick's blocks, first block first: the notifications in
/// discovery order and the resulting registry.
pub open spec fn poll_result(
    blocks: Seq<Seq<char>>,
    reg: Map<Seq<char>, DeviceView>,
    threshold: u8,
) -> (Seq<NotificationView>, Map<Seq<char>, DeviceView>)
    decreases blocks.len(),
{
    if blocks.len() == 0 {
        (Seq::empty(), reg)
    } else {
        let f = block_result(blocks[0], reg, threshold);
        let rest = poll_result(blocks.drop_first(), f.1, threshold);
        (f.0 + rest.0, rest.1)
    }
}

/// One poll tick: splits the raw status text on the block separator,
/// parses each block, consults and updates the registry, and returns the
/// notifications to emit, in order.
pub fn poll_devices(config: &Config, devices: &mut Registry, raw: &str) -> (out: Vec<Notification>)
    requires
        old(devices).wf(),
    ensures
        final(devices).wf(),
        ({
            let r = poll_result(
                spec_split(raw@, "Found"@),
                old(devices)@,
                config.battery_threshold,
            );
            notif_views(out@) == r.0 && final(devices)@ == r.1
        }),
{
    proof {
        reveal_strlit("Found");
    }
    let blocks = split_str(raw, "Found");
    let n = blocks.len();
    let mut out: Vec<Notification> = Vec::new();
    let mut i: usize = 0;
    proof {
        assert(seq_views(blocks@).skip(0) =~= seq_views(blocks@));
        assert(notif_views(out@) =~= Seq::<NotificationView>::empty());
        assert(Seq::<NotificationView>::empty() + poll_result(
            seq_views(blocks@),
            devices@,
            config.battery_threshold,
        ).0 =~= poll_result(seq_views(blocks@), devices@, config.battery_threshold).0);
    }
    while i < n
        invariant
            i <= n,
            n == blocks@.len(),
            devices.wf(),
            seq_views(blocks@) == spec_split(raw@, "Found"@),
            ({
                let r = poll_result(
                    seq_views(blocks@),
                    old(devices)@,
                    config.battery_threshold,
                );
                let rem = poll_result(
                    seq_views(blocks@).skip(i as int),
                    devices@,
                    config.battery_threshold,
                );
                notif_views(out@) + rem.0 == r.0 && rem.1 == r.1
            }),
        decreases n - i,
    {
        let ghost remaining = seq_views(blocks@).skip(i as int);
        let ghost reg_before = devices@;
        proof {
            assert(remaining[0] == blocks@[i as int]@);
            assert(remaining.drop_first() =~= seq_views(blocks@).skip(i + 1));
        }
        let block: &str = blocks[i].as_str();
        if block.unicode_len() > 0 {
            if let Some(device) = parse_device(block) {
                let mut notifs = update_device(config, devices, device);
                proof {
                    let f = block_result(remaining[0], reg_before, config.battery_threshold);
                    assert(notif_views(notifs@) == f.0);
                    assert(notif_views(out@ + notifs@) =~= notif_views(out@) + notif_views(
                        notifs@,
                    ));
                    assert((notif_views(out@) + f.0) + poll_result(
                        seq_views(blocks@).skip(i + 1),
                        devices@,
                        config.battery_threshold,
                    ).0 =~= notif_views(out@) + (f.0 + poll_result(
                        seq_views(blocks@).skip(i + 1),
                        devices@,
                        config.battery_threshold,
                    ).0));
                }
                out.append(&mut notifs);
            } else {
                proof {
                    let f = block_result(remaining[0], reg_before, config.battery_threshold);
                    assert(f.0 =~= Seq::<NotificationView>::empty());
                    assert(notif_views(out@) + (Seq::<NotificationView>::empty() + poll_result(
                        seq_views(blocks@).skip(i + 1),
                        devices@,
                        config.battery_threshold,
                    ).0) =~= notif_views(out@) + poll_result(
                        seq_views(blocks@).skip(i + 1),
                        devices@,
                        config.battery_threshold,
                    ).0);
                }
            }
        } else {
            proof {
                let f = block_result(remaining[0], reg_before, config.battery_threshold);
                assert(f.0 =~= Seq::<NotificationView>::empty());
                assert(notif_views(out@) + (Seq::<NotificationView>::empty() + poll_result(
                    seq_views(blocks@).skip(i + 1),
                    devices@,
                    config.battery_threshold,
                ).0) =~= notif_views(out@) + poll_result(
                    seq_views(blocks@).skip(i + 1),
                    devices@,
                    config.battery_threshold,
                ).0);
            }
        }
        i += 1;
    }
    proof {
        assert(seq_views(blocks@).skip(n as int) =~= Seq::<Seq<char>>::empty());
        assert(notif_views(out@) + Seq::<NotificationView>::empty() =~= notif_views(out@));
    }
    out
}

} // verus!
