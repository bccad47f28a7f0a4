use crate::calendar::{chrono_instant, fits_i64, hour_of, minute_of, second_in_day};
use crate::resolve::{is_offset, to_wall, Instant};
use chrono::{Offset, TimeZone};
use vstd::prelude::*;
use vstd::string::*;

verus! {

/// A time zone of the tz database, by name, and the label its line carries.
#[derive(Debug, Clone, Copy)]
pub struct ZoneEntry {
    pub tz_name: &'static str,
    pub label: &'static str,
}

/// The offset from UTC, in seconds, of the tz database zone `zone` at the
/// instant `t`.
pub uninterp spec fn zone_offset_of(zone: Seq<char>, t: int) -> int;

/// Whether the tz database has a zone named `zone`.
pub uninterp spec fn zone_known(zone: Seq<char>) -> bool;

/// The names of the zones that `world_zones` lists.
pub open spec fn zone_listed(name: Seq<char>) -> bool {
    ||| name == "Canada/Eastern"@
    ||| name == "UTC"@
    ||| name == "Europe/London"@
    ||| name == "Europe/Prague"@
    ||| name == "Asia/Jerusalem"@
    ||| name == "Indian/Mauritius"@
    ||| name == "Asia/Calcutta"@
    ||| name == "Asia/Shanghai"@
}

/// Relies on chrono-tz's `Tz::from_str`, a lookup of `name` in its table of
/// zones (which holds the listed names), and on its
/// `TimeZone::offset_from_utc_datetime` with chrono's `Offset::fix` for the
/// zone's offset at `t`; chrono's `DateTime::from_timestamp` accepts exactly
/// the instants of `chrono_instant`.
#[verifier::external_body]
fn tz_offset(name: &str, t: i64) -> (r: Option<i32>)
    ensures
        r matches Some(o) ==> o == zone_offset_of(name@, t as int) && is_offset(o as int)
            && zone_known(name@) && chrono_instant(t as int),
        (r is None) ==> !(zone_known(name@) && chrono_instant(t as int)),
        zone_listed(name@) && chrono_instant(t as int) ==> (r is Some),
{
    let tz: chrono_tz::Tz = name.parse().ok()?;
    chrono::DateTime::from_timestamp(t, 0).map(
        |u| tz.offset_from_utc_datetime(&u.naive_utc()).fix().local_minus_utc(),
    )
}

/// The offset from UTC, in seconds, of the zone named `name` at `t`; `None`
/// exactly where the tz database has no such zone or chrono cannot hold `t`.
pub fn zone_offset(name: &str, t: Instant) -> (r: Option<i32>)
    ensures
        (r is Some) <==> (zone_known(name@) && chrono_instant(t.secs as int)),
        zone_listed(name@) && chrono_instant(t.secs as int) ==> (r is Some),
        r matches Some(o) ==> o == zone_offset_of(name@, t.secs as int) && is_offset(o as int),
{
    tz_offset(name, t.secs)
}

/// Projecting an instant into a zone, as `zone_wall` does, and taking that wall
/// time back by the zone's offset, as `from_wall` does, recovers the instant.
pub proof fn lemma_zone_round_trip(t: Instant, zone: Seq<char>, offset: i32, wall: i64)
    requires
        offset == zone_offset_of(zone, t.secs as int),
        is_offset(offset as int),
        wall == t.secs + zone_offset_of(zone, t.secs as int),
    ensures
        fits_i64(wall - offset),
        (Instant { secs: (wall - offset) as i64 }) == t,
{
}

pub open spec fn digit_char(d: int) -> char {
    seq!['0', '1', '2', '3', '4', '5', '6', '7', '8', '9'][d]
}

pub open spec fn two_digits(n: int) -> Seq<char> {
    seq![digit_char(n / 10), digit_char(n % 10)]
}

/// `HH:MM` of a wall time, on a 24-hour clock.
pub open spec fn clock_text(wall: int) -> Seq<char> {
    two_digits(hour_of(wall)) + seq![':'] + two_digits(minute_of(wall))
}

/// The line of one zone: four spaces, `HH:MM`, a space and the label.
pub open spec fn zone_line(label: Seq<char>, wall: int) -> Seq<char> {
    seq![' ', ' ', ' ', ' '] + clock_text(wall) + seq![' '] + label
}

/// The lines of `zones`, in their order, for the instant `t`.
pub open spec fn rendered(t: int, zones: Seq<ZoneEntry>) -> Seq<Seq<char>> {
    Seq::new(
        zones.len(),
        |i: int| zone_line(zones[i].label@, t + zone_offset_of(zones[i].tz_name@, t)),
    )
}

/// Whether `render` can place every zone: each is known to the tz database,
/// and chrono can hold the instant where there is a zone to place it in.
pub open spec fn renderable(t: int, zones: Seq<ZoneEntry>) -> bool {
    &&& (zones.len() == 0 || chrono_instant(t))
    &&& forall|i: int| 0 <= i < zones.len() ==> zone_known(#[trigger] zones[i].tz_name@)
}

pub open spec fn line_views(lines: Seq<String>) -> Seq<Seq<char>> {
    lines.map_values(|l: String| l@)
}

/// The lines depend on the instant and the zones alone: rendering the same
/// instant twice gives the same lines, one per zone.
pub proof fn lemma_render_repeatable(
    t: Instant,
    zones: Seq<ZoneEntry>,
    first: Seq<String>,
    second: Seq<String>,
)
    requires
        line_views(first) == rendered(t.secs as int, zones),
        line_views(second) == rendered(t.secs as int, zones),
    ensures
        line_views(first) == line_views(second),
        first.len() == zones.len(),
        second.len() == zones.len(),
{
    assert(line_views(first).len() == first.len());
    assert(line_views(second).len() == second.len());
}

fn digit_text(d: i64) -> (r: &'static str)
    requires
        0 <= d < 10,
    ensures
        r@ == seq![digit_char(d as int)],
{
    proof {
        reveal_strlit("0");
        reveal_strlit("1");
        reveal_strlit("2");
        reveal_strlit("3");
        reveal_strlit("4");
        reveal_strlit("5");
        reveal_strlit("6");
        reveal_strlit("7");
        reveal_strlit("8");
        reveal_strlit("9");
    }
    let r = match d {
        0 => "0",
        1 => "1",
        2 => "2",
        3 => "3",
        4 => "4",
        5 => "5",
        6 => "6",
        7 => "7",
        8 => "8",
        _ => "9",
    };
    assert(r@ =~= seq![digit_char(d as int)]);
    r
}

/// `HH:MM` of the wall time `wall`.
pub fn clock_of(wall: i64) -> (r: String)
    ensures
        r@ == clock_text(wall as int),
{
    let s = second_in_day(wall);
    let hour = s / 3600;
    let minute = (s % 3600) / 60;
    proof {
        reveal_strlit(":");
    }
    let mut text = String::from_str(digit_text(hour / 10));
    text.append(digit_text(hour % 10));
    text.append(":");
    text.append(digit_text(minute / 10));
    text.append(digit_text(minute % 10));
    assert(text@ =~= clock_text(wall as int));
    text
}

/// The line of a zone whose wall time is `wall`.
pub fn render_line(label: &str, wall: i64) -> (r: String)
    ensures
        r@ == zone_line(label@, wall as int),
{
    proof {
        reveal_strlit("    ");
        reveal_strlit(" ");
    }
    let mut line = String::from_str("    ");
    let clock = clock_of(wall);
    line.append(clock.as_str());
    line.append(" ");
    line.append(label);
    assert(line@ =~= zone_line(label@, wall as int));
    line
}

/// The wall time of `t` in the zone named `name`; `None` exactly where the tz
/// database has no such zone or chrono cannot hold `t`.
pub fn zone_wall(t: Instant, name: &str) -> (r: Option<i64>)
    ensures
        (r is Some) <==> (zone_known(name@) && chrono_instant(t.secs as int)),
        zone_listed(name@) && chrono_instant(t.secs as int) ==> (r is Some),
        r matches Some(w) ==> w == t.secs + zone_offset_of(name@, t.secs as int),
{
    match zone_offset(name, t) {
        Some(o) => to_wall(t, o),
        None => None,
    }
}

/// The zones shown, in order, with their labels.
pub fn world_zones() -> (r: Vec<ZoneEntry>)
    ensures
        r.len() == 8,
        r[0].tz_name@ == "Canada/Eastern"@ && r[0].label@ == "Eastern time"@,
        r[1].tz_name@ == "UTC"@ && r[1].label@ == "UTC"@,
        r[2].tz_name@ == "Europe/London"@ && r[2].label@ == "London"@,
        r[3].tz_name@ == "Europe/Prague"@ && r[3].label@ == "Brno"@,
        r[4].tz_name@ == "Asia/Jerusalem"@ && r[4].label@ == "Israel"@,
        r[5].tz_name@ == "Indian/Mauritius"@ && r[5].label@ == "Mauritius"@,
        r[6].tz_name@ == "Asia/Calcutta"@ && r[6].label@ == "Pune"@,
        r[7].tz_name@ == "Asia/Shanghai"@ && r[7].label@ == "Beijing"@,
        forall|i: int| 0 <= i < r.len() ==> zone_listed(#[trigger] r[i].tz_name@),
{
    vec![
        ZoneEntry { tz_name: "Canada/Eastern", label: "Eastern time" },
        ZoneEntry { tz_name: "UTC", label: "UTC" },
        ZoneEntry { tz_name: "Europe/London", label: "London" },
        ZoneEntry { tz_name: "Europe/Prague", label: "Brno" },
        ZoneEntry { tz_name: "Asia/Jerusalem", label: "Israel" },
        ZoneEntry { tz_name: "Indian/Mauritius", label: "Mauritius" },
        ZoneEntry { tz_name: "Asia/Calcutta", label: "Pune" },
        ZoneEntry { tz_name: "Asia/Shanghai", label: "Beijing" },
    ]
}

/// The line of each zone, in order, for the instant `t`; `None` exactly where
/// a zone is unknown to the tz database or chrono cannot hold `t`.
pub fn render(t: Instant, zones: &Vec<ZoneEntry>) -> (r: Option<Vec<String>>)
    ensures
        (r is Some) <==> (renderable(t.secs as int, zones@)),
        chrono_instant(t.secs as int) && (forall|i: int|
            0 <= i < zones.len() ==> zone_listed(#[trigger] zones[i].tz_name@)) ==> (r is Some),
        r matches Some(lines) ==> line_views(lines@) == rendered(t.secs as int, zones@),
{
    let mut lines: Vec<String> = Vec::new();
    let mut i: usize = 0;
    while i < zones.len()
        invariant
            i <= zones.len(),
            lines.len() == i,
            i > 0 ==> chrono_instant(t.secs as int),
            forall|j: int| 0 <= j < i ==> zone_known(#[trigger] zones@[j].tz_name@),
            forall|j: int|
                0 <= j < i ==> (#[trigger] lines[j])@ == rendered(t.secs as int, zones@)[j],
        decreases zones.len() - i,
    {
        let z = zones[i];
        let wall = match zone_wall(t, z.tz_name) {
            Some(w) => w,
            None => {
                assert(!zone_known(zones@[i as int].tz_name@) || !chrono_instant(t.secs as int));
                return None;
            },
        };
        let line = render_line(z.label, wall);
        lines.push(line);
        i = i + 1;
    }
    assert(line_views(lines@) =~= rendered(t.secs as int, zones@));
    Some(lines)
}

} // verus!
