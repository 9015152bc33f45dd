//! The device snapshot parser: one textual status block in, one snapshot
//! out, or nothing when the block carries no usable device.

use crate::device::{fresh_snapshot, BatteryStatus, Device, DeviceView};
use crate::numbers::spec_parse_u8;
use crate::numbers::parse_u8;
use crate::text::{
    first_match, is_space_char, is_wspace, lemma_first_match, match_at, remove_all, spec_contains,
    spec_lines, spec_trim, split_lines, seq_views, str_contains, strip_all, trim_str,
};
use vstd::prelude::*;

verus! {

/// The fields gathered while walking the lines of one block.
pub ghost struct RawParse {
    pub name: Seq<char>,
    pub status: BatteryStatus,
    pub battery: Option<u8>,
    pub bad_level: bool,
}

/// `s` with its trailing exclamation marks removed.
pub open spec fn strip_excl(s: Seq<char>) -> Seq<char>
    decreases s.len(),
{
    if s.len() > 0 && s.last() == '!' {
        strip_excl(s.drop_last())
    } else {
        s
    }
}

/// The name a name line carries: the line trimmed, trailing exclamation
/// marks removed.
pub open spec fn name_of_line(line: Seq<char>) -> Seq<char> {
    strip_excl(spec_trim(line))
}

/// The battery percentage a level line carries: the line trimmed, the
/// label and the percent signs removed, the rest parsed as a number.
pub open spec fn level_of_line(line: Seq<char>) -> Option<u8> {
    spec_parse_u8(strip_all(strip_all(spec_trim(line), "Level: "@), "%"@))
}

/// What one line contributes to the gathered fields.  The first matching
/// rule wins; a line matching none is ignored.  A level that does not
/// parse, or is no percentage, poisons the block.
pub open spec fn line_step(acc: RawParse, line: Seq<char>) -> RawParse {
    if spec_contains(line, "Status: BATTERY_AVAILABLE"@) {
        RawParse { status: BatteryStatus::Discharging, ..acc }
    } else if spec_contains(line, "Status: BATTERY_CHARGING"@) {
        RawParse { status: BatteryStatus::Charging, ..acc }
    } else if line.len() > 0 && line.last() == '!' && is_wspace(line[0]) {
        RawParse { name: name_of_line(line), ..acc }
    } else if spec_contains(line, "Level: "@) {
        match level_of_line(line) {
            Some(v) => {
                if v <= 100 {
                    RawParse { battery: Some(v), ..acc }
                } else {
                    RawParse { bad_level: true, ..acc }
                }
            },
            None => RawParse { bad_level: true, ..acc },
        }
    } else {
        acc
    }
}

/// Before any line is read: no name, disconnected, no level.
pub open spec fn parse_init() -> RawParse {
    RawParse {
        name: Seq::empty(),
        status: BatteryStatus::Disconnected,
        battery: None,
        bad_level: false,
    }
}

/// The fields gathered over a sequence of lines, first line first.
pub open spec fn parse_fold(lines: Seq<Seq<char>>) -> RawParse
    decreases lines.len(),
{
    if lines.len() == 0 {
        parse_init()
    } else {
        line_step(parse_fold(lines.drop_last()), lines.last())
    }
}

/// The device name after post-processing: truncated at the first opening
/// parenthesis, then trimmed again.
pub open spec fn bare_name(name: Seq<char>) -> Seq<char> {
    let cut = first_match(name, seq!['(']);
    spec_trim(
        if cut < 0 {
            name
        } else {
            name.take(cut)
        },
    )
}

/// The snapshot one status block yields: the gathered fields, unless the
/// block is poisoned, leaves the name empty, or reports a disconnected
/// device without any level, which carries no actionable information.
pub open spec fn spec_parse_device(block: Seq<char>) -> Option<DeviceView> {
    let raw = parse_fold(spec_lines(block));
    let bare = bare_name(raw.name);
    if raw.bad_level || bare.len() == 0 || (raw.status is Disconnected && raw.battery is None) {
        None
    } else {
        Some(
            DeviceView {
                name: bare,
                battery_status: raw.status,
                battery: raw.battery,
                last_notif_battery_level: None,
            },
        )
    }
}

/// Law: a block whose lines leave no device name, and a block reporting a
/// disconnected device without any battery level, yield no snapshot.
pub proof fn lemma_parse_rejects_uninformative(block: Seq<char>)
    ensures
        parse_fold(spec_lines(block)).name.len() == 0 ==> spec_parse_device(block) is None,
        parse_fold(spec_lines(block)).status is Disconnected && parse_fold(
            spec_lines(block),
        ).battery is None ==> spec_parse_device(block) is None,
{
    let raw = parse_fold(spec_lines(block));
    if raw.name.len() == 0 {
        assert(bare_name(raw.name).len() == 0);
    }
}

/// The view of an optional device.
pub open spec fn opt_view(r: Option<Device>) -> Option<DeviceView> {
    match r {
        Some(d) => Some(d@),
        None => None,
    }
}

/// When everything from `k` on is an exclamation mark and the character
/// before `k` is not, stripping keeps exactly the first `k`.
proof fn lemma_strip_excl_take(s: Seq<char>, k: int)
    requires
        0 <= k <= s.len(),
        forall|j: int| k <= j < s.len() ==> s[j] == '!',
        k == 0 || s[k - 1] != '!',
    ensures
        strip_excl(s) == s.take(k),
    decreases s.len() - k,
{
    if k == s.len() {
        assert(s.take(k) =~= s);
    } else {
        lemma_strip_excl_take(s.drop_last(), k);
        assert(s.drop_last().take(k) =~= s.take(k));
    }
}

/// The name a name line carries, as [`name_of_line`] states it.
fn read_name(line: &str) -> (r: String)
    ensures
        r@ == name_of_line(line@),
{
    let t = trim_str(line);
    let n = t.unicode_len();
    let mut end = n;
    while end > 0 && t.get_char(end - 1) == '!'
        invariant
            end <= n,
            n == t@.len(),
            forall|j: int| end <= j < n ==> t@[j] == '!',
        decreases end,
    {
        end -= 1;
    }
    proof {
        lemma_strip_excl_take(t@, end as int);
    }
    t.substring_char(0, end).to_owned()
}

/// The battery percentage a level line carries, as [`level_of_line`]
/// states it.
fn read_level(line: &str) -> (r: Option<u8>)
    ensures
        r == level_of_line(line@),
{
    let t = trim_str(line);
    proof {
        reveal_strlit("Level: ");
        reveal_strlit("%");
    }
    let without_label = remove_all(t, "Level: ");
    let digits = remove_all(without_label.as_str(), "%");
    parse_u8(digits.as_str())
}

/// Parses one status block into a device snapshot.  Yields `None` when
/// the block is poisoned by a bad level field, leaves no name, or reports
/// a disconnected device without a level.
pub fn parse_device(device_str: &str) -> (r: Option<Device>)
    ensures
        opt_view(r) == spec_parse_device(device_str@),
        r matches Some(d) ==> fresh_snapshot(d@),
{
    let lines = split_lines(device_str);
    let n = lines.len();
    let mut name = String::new();
    let mut status = BatteryStatus::Disconnected;
    let mut battery: Option<u8> = None;
    let mut bad_level = false;
    let mut i: usize = 0;
    proof {
        assert(seq_views(lines@).take(0) =~= Seq::<Seq<char>>::empty());
    }
    while i < n
        invariant
            i <= n,
            n == lines@.len(),
            seq_views(lines@) == spec_lines(device_str@),
            name@ == parse_fold(seq_views(lines@).take(i as int)).name,
            status == parse_fold(seq_views(lines@).take(i as int)).status,
            battery == parse_fold(seq_views(lines@).take(i as int)).battery,
            bad_level == parse_fold(seq_views(lines@).take(i as int)).bad_level,
            battery matches Some(v) ==> v <= 100,
        decreases n - i,
    {
        let line: &str = lines[i].as_str();
        proof {
            assert(seq_views(lines@).take(i + 1).drop_last() =~= seq_views(lines@).take(i as int));
            assert(seq_views(lines@).take(i + 1).last() == line@);
        }
        if str_contains(line, "Status: BATTERY_AVAILABLE") {
            status = BatteryStatus::Discharging;
        } else if str_contains(line, "Status: BATTERY_CHARGING") {
            status = BatteryStatus::Charging;
        } else {
            let llen = line.unicode_len();
            if llen > 0 && line.get_char(llen - 1) == '!' && is_space_char(line.get_char(0)) {
                name = read_name(line);
            } else if str_contains(line, "Level: ") {
                match read_level(line) {
                    Some(v) => {
                        if v <= 100 {
                            battery = Some(v);
                        } else {
                            bad_level = true;
                        }
                    },
                    None => {
                        bad_level = true;
                    },
                }
            }
        }
        i += 1;
    }
    proof {
        assert(seq_views(lines@).take(n as int) =~= seq_views(lines@));
    }
    if bad_level {
        return None;
    }
    // Truncate the name at the first opening parenthesis and trim again.
    let ghost paren: Seq<char> = seq!['('];
    let nlen = name.as_str().unicode_len();
    let mut cut: usize = 0;
    while cut < nlen && name.as_str().get_char(cut) != '('
        invariant
            cut <= nlen,
            nlen == name@.len(),
            paren == seq!['('],
            forall|j: int| 0 <= j < cut ==> name@[j] != '(',
        decreases nlen - cut,
    {
        cut += 1;
    }
    proof {
        if cut < nlen {
            assert(name@.subrange(cut as int, cut + 1) =~= seq![name@[cut as int]]);
            assert forall|j: int| 0 <= j < cut implies !match_at(name@, paren, j) by {
                assert(name@.subrange(j, j + 1) =~= seq![name@[j]]);
                if name@.subrange(j, j + 1) == paren {
                    assert(name@.subrange(j, j + 1)[0] == '(');
                }
            }
            lemma_first_match(name@, paren);
            assert(first_match(name@, paren) == cut as int) by {
                let f = first_match(name@, paren);
                assert(match_at(name@, paren, cut as int));
                if f < cut as int {
                    assert(!match_at(name@, paren, f));
                }
            }
            assert(name@.take(cut as int) =~= name@.subrange(0, cut as int));
        } else {
            assert forall|j: int| !match_at(name@, paren, j) by {
                if 0 <= j && j + 1 <= name@.len() {
                    assert(name@.subrange(j, j + 1) =~= seq![name@[j]]);
                    if name@.subrange(j, j + 1) == paren {
                        assert(name@.subrange(j, j + 1)[0] == '(');
                    }
                }
            }
            lemma_first_match(name@, paren);
            assert(name@.subrange(0, nlen as int) =~= name@);
        }
    }
    let base: &str = name.as_str().substring_char(0, cut);
    let bare = trim_str(base).to_owned();
    proof {
        assert(bare@ == bare_name(name@));
    }
    if bare.as_str().unicode_len() == 0 {
        return None;
    }
    if status == BatteryStatus::Disconnected && battery.is_none() {
        return None;
    }
    Some(
        Device {
            name: bare,
            battery_status: status,
            battery,
            last_notif_battery_level: None,
        },
    )
}

} // verus!
