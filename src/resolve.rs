use crate::calendar::{
    chrono_instant, civil_seconds, civil_to_seconds, civil_valid, day_number, fits_i64, hour_of,
    lemma_with_hour_minute, minute_of, set_hour_minute, with_hour_minute,
};
use crate::text::{hour_minute_of_text, read_hour_minute, read_yy_mm_dd, ymd_of_text};
use chrono::TimeZone;
use vstd::prelude::*;

verus! {

/// An absolute point in time: seconds from 1970-01-01 00:00:00 UTC.
#[derive(Debug, Clone, Copy, PartialEq, Eq, Structural)]
pub struct Instant {
    pub secs: i64,
}

/// The frame in which a given time and date are read.
#[derive(Debug, Clone, Copy, PartialEq, Eq, Structural)]
pub enum Frame {
    Utc,
    Local,
}

/// Why no instant could be resolved.
#[derive(Debug, Clone, Copy, PartialEq, Eq, Structural)]
pub enum ResolveError {
    /// The time is not written `HH:MM`.
    MalformedTime,
    /// The date is not written `YYYY-MM-DD`.
    MalformedDate,
    /// A date came without a time.
    DateWithoutTime,
    /// The hour, minute or date does not exist, or the moment lies outside the
    /// supported range.
    OutOfRange,
    /// The local wall time falls in a gap or an overlap of the local zone.
    NoSingleLocalTime,
}

impl ResolveError {
    /// The message shown to a user.
    pub fn message(&self) -> (r: &'static str)
        ensures
            *self == ResolveError::MalformedTime ==> r@
                == "Cannot parse the time. Needs to be in format HH:MM"@,
            *self == ResolveError::MalformedDate ==> r@
                == "Cannot parse the date. Needs to be in format yyyy-mm-dd"@,
            *self == ResolveError::DateWithoutTime ==> r@
                == "A date needs a time before it"@,
            *self == ResolveError::OutOfRange ==> r@
                == "The time or date does not exist"@,
            *self == ResolveError::NoSingleLocalTime ==> r@
                == "The local time is skipped or repeated in the local zone"@,
    {
        match self {
            ResolveError::MalformedTime => "Cannot parse the time. Needs to be in format HH:MM",
            ResolveError::MalformedDate => "Cannot parse the date. Needs to be in format yyyy-mm-dd",
            ResolveError::DateWithoutTime => "A date needs a time before it",
            ResolveError::OutOfRange => "The time or date does not exist",
            ResolveError::NoSingleLocalTime => "The local time is skipped or repeated in the local zone",
        }
    }
}

/// A time, and maybe a date, as read from their texts.
pub type Fields = ((u32, u32), Option<(i32, u32, u32)>);

pub open spec fn view_text(t: Option<&str>) -> Option<Seq<char>> {
    match t {
        Some(s) => Some(s@),
        None => None,
    }
}

/// What the texts say: nothing (the current instant), a time with maybe a date,
/// or why they are refused.
pub open spec fn fields_of(time: Option<Seq<char>>, date: Option<Seq<char>>) -> Result<
    Option<Fields>,
    ResolveError,
> {
    match time {
        None => if date is Some {
            Err(ResolveError::DateWithoutTime)
        } else {
            Ok(None)
        },
        Some(t) => match hour_minute_of_text(t) {
            None => Err(ResolveError::MalformedTime),
            Some(hm) => match date {
                None => Ok(Some((hm, None))),
                Some(d) => match ymd_of_text(d) {
                    None => Err(ResolveError::MalformedDate),
                    Some(ymd) => Ok(Some((hm, Some(ymd)))),
                },
            },
        },
    }
}

/// The wall time that a time and maybe a date designate, read against the wall
/// time `reference`: the date given, or else the reference's day.
pub open spec fn target_wall(f: Fields, reference: int) -> Option<int> {
    let h = f.0.0 as int;
    let mi = f.0.1 as int;
    if !(h < 24 && mi < 60) {
        None
    } else {
        match f.1 {
            None => if fits_i64(with_hour_minute(reference, h, mi)) {
                Some(with_hour_minute(reference, h, mi))
            } else {
                None
            },
            Some(ymd) => if civil_valid(ymd.0 as int, ymd.1 as int, ymd.2 as int, h, mi, 0) {
                Some(civil_seconds(ymd.0 as int, ymd.1 as int, ymd.2 as int, h, mi, 0))
            } else {
                None
            },
        }
    }
}

/// Whether the fields are refused whatever the reference: an hour or minute out
/// of range, or a date that does not exist.
pub open spec fn fields_impossible(f: Fields) -> bool {
    !(f.0.0 < 24 && f.0.1 < 60) || (f.1 matches Some(ymd) && !civil_valid(
        ymd.0 as int,
        ymd.1 as int,
        ymd.2 as int,
        f.0.0 as int,
        f.0.1 as int,
        0,
    ))
}

/// The instant resolved from the texts, when the reference frame is `ref_offset`
/// seconds ahead of UTC at `now` and `wall_offset` seconds ahead at the target
/// wall time.
pub open spec fn resolved_with(
    fields: Result<Option<Fields>, ResolveError>,
    now: int,
    ref_offset: int,
    wall_offset: int,
) -> Result<int, ResolveError> {
    match fields {
        Err(e) => Err(e),
        Ok(None) => Ok(now),
        Ok(Some(f)) => match target_wall(f, now + ref_offset) {
            None => Err(ResolveError::OutOfRange),
            Some(w) => if fits_i64(w - wall_offset) {
                Ok(w - wall_offset)
            } else {
                Err(ResolveError::OutOfRange)
            },
        },
    }
}

/// Whether the texts designate a wall time when read against `now` in a frame
/// `ref_offset` seconds ahead of UTC.
pub open spec fn wall_found(
    fields: Result<Option<Fields>, ResolveError>,
    now: int,
    ref_offset: int,
) -> bool {
    match fields {
        Ok(Some(f)) => target_wall(f, now + ref_offset) is Some,
        _ => false,
    }
}

pub open spec fn is_offset(o: int) -> bool {
    -86400 < o < 86400
}

/// A time given without a date lands on the day of the reference, at the hour
/// and minute given, in the frame of the reference.
pub proof fn lemma_time_only_lands_on_reference_day(
    hm: (u32, u32),
    now: int,
    ref_offset: int,
    wall_offset: int,
    t: int,
)
    requires
        resolved_with(Ok(Some((hm, None))), now, ref_offset, wall_offset) == Ok::<
            int,
            ResolveError,
        >(t),
    ensures
        hour_of(t + wall_offset) == hm.0,
        minute_of(t + wall_offset) == hm.1,
        day_number(t + wall_offset) == day_number(now + ref_offset),
{
    lemma_with_hour_minute(now + ref_offset, hm.0 as int, hm.1 as int);
}

/// A time with a date of the calendar resolves to exactly that wall-clock moment,
/// taken back to UTC by the frame's offset.
pub proof fn lemma_date_and_time_exact(
    hm: (u32, u32),
    ymd: (i32, u32, u32),
    now: int,
    ref_offset: int,
    wall_offset: int,
)
    requires
        civil_valid(ymd.0 as int, ymd.1 as int, ymd.2 as int, hm.0 as int, hm.1 as int, 0),
        fits_i64(
            civil_seconds(ymd.0 as int, ymd.1 as int, ymd.2 as int, hm.0 as int, hm.1 as int, 0)
                - wall_offset,
        ),
    ensures
        resolved_with(Ok(Some((hm, Some(ymd)))), now, ref_offset, wall_offset) == Ok::<
            int,
            ResolveError,
        >(civil_seconds(ymd.0 as int, ymd.1 as int, ymd.2 as int, hm.0 as int, hm.1 as int, 0)
            - wall_offset),
{
}

/// Reads the time and date texts.
pub fn read_fields(time: Option<&str>, date: Option<&str>) -> (r: Result<
    Option<Fields>,
    ResolveError,
>)
    ensures
        r == fields_of(view_text(time), view_text(date)),
{
    match time {
        None => match date {
            Some(_) => Err(ResolveError::DateWithoutTime),
            None => Ok(None),
        },
        Some(t) => match read_hour_minute(t) {
            Err(_) => Err(ResolveError::MalformedTime),
            Ok(hm) => match date {
                None => Ok(Some((hm, None))),
                Some(d) => match read_yy_mm_dd(d) {
                    Err(_) => Err(ResolveError::MalformedDate),
                    Ok(ymd) => Ok(Some((hm, Some(ymd)))),
                },
            },
        },
    }
}

/// The wall time that the fields designate, read against the wall time
/// `reference`.
pub fn wall_target(f: Fields, reference: i64) -> (r: Result<i64, ResolveError>)
    ensures
        match target_wall(f, reference as int) {
            Some(w) => r == Ok::<i64, ResolveError>(w as i64),
            None => r == Err::<i64, ResolveError>(ResolveError::OutOfRange),
        },
{
    let (hm, date) = f;
    let (hour, minute) = hm;
    if hour >= 24 || minute >= 60 {
        return Err(ResolveError::OutOfRange);
    }
    let w = match date {
        None => set_hour_minute(reference, hour, minute),
        Some(ymd) => civil_to_seconds(ymd.0, ymd.1, ymd.2, hour, minute, 0),
    };
    match w {
        Some(w) => Ok(w),
        None => Err(ResolveError::OutOfRange),
    }
}

/// The wall time of `t` in a frame `offset` seconds ahead of UTC.
pub fn to_wall(t: Instant, offset: i32) -> (r: Option<i64>)
    ensures
        fits_i64(t.secs + offset) ==> r == Some((t.secs + offset) as i64),
        !fits_i64(t.secs + offset) ==> r is None,
{
    t.secs.checked_add(offset as i64)
}

/// The instant of the wall time `wall` in a frame `offset` seconds ahead of UTC.
pub fn from_wall(wall: i64, offset: i32) -> (r: Option<Instant>)
    ensures
        fits_i64(wall - offset) ==> r == Some(Instant { secs: (wall - offset) as i64 }),
        !fits_i64(wall - offset) ==> r is None,
{
    match wall.checked_sub(offset as i64) {
        Some(s) => Some(Instant { secs: s }),
        None => None,
    }
}

/// Relies on chrono's `Local` time zone, `TimeZone::offset_from_utc_datetime`:
/// the offset of the machine's zone at the instant `t`; `None` exactly where
/// chrono's `DateTime::from_timestamp` cannot hold `t`. Its value depends on
/// the machine.
#[verifier::external_body]
fn local_offset_at(t: i64) -> (r: Option<i32>)
    ensures
        r matches Some(o) ==> is_offset(o as int),
        (r is Some) <==> chrono_instant(t as int),
{
    chrono::DateTime::from_timestamp(t, 0).map(
        |u| chrono::Local.offset_from_utc_datetime(&u.naive_utc()).local_minus_utc(),
    )
}

/// Relies on chrono's `Local` time zone, `TimeZone::offset_from_local_datetime`:
/// the offset of the machine's zone at the local wall time `wall`, where that
/// wall time occurs exactly once. Its value depends on the machine.
#[verifier::external_body]
fn local_offset_of_wall(wall: i64) -> (r: Option<i32>)
    ensures
        r matches Some(o) ==> is_offset(o as int),
{
    let naive = chrono::DateTime::from_timestamp(wall, 0)?.naive_utc();
    chrono::Local.offset_from_local_datetime(&naive).single().map(|o| o.local_minus_utc())
}

/// Resolves the time and date texts to one instant. Without a time the result is
/// `now`. A time without a date keeps the reference day and second, a time with a
/// date names its moment; both are read in `frame` and taken back to UTC.
pub fn resolve(time: Option<&str>, date: Option<&str>, frame: Frame, now: Instant) -> (r: Result<
    Instant,
    ResolveError,
>)
    ensures
        ({
            let fields = fields_of(view_text(time), view_text(date));
            &&& match fields {
                Err(e) => r == Err::<Instant, ResolveError>(e),
                Ok(None) => r == Ok::<Instant, ResolveError>(now),
                Ok(Some(f)) => fields_impossible(f) ==> r == Err::<Instant, ResolveError>(
                    ResolveError::OutOfRange,
                ),
            }
            &&& frame == Frame::Utc ==> match resolved_with(fields, now.secs as int, 0, 0) {
                Ok(t) => r == Ok::<Instant, ResolveError>(Instant { secs: t as i64 }),
                Err(e) => r == Err::<Instant, ResolveError>(e),
            }
            &&& frame == Frame::Local ==> match r {
                Ok(t) => exists|o1: int, o2: int|
                    is_offset(o1) && is_offset(o2) && resolved_with(fields, now.secs as int, o1, o2)
                        == Ok::<int, ResolveError>(t.secs as int),
                Err(e) => fields == Err::<Option<Fields>, ResolveError>(e) || (e
                    == ResolveError::OutOfRange && (!chrono_instant(now.secs as int) || exists|
                    o1: int,
                    o2: int,
                |
                    is_offset(o1) && is_offset(o2) && resolved_with(fields, now.secs as int, o1, o2)
                        == Err::<int, ResolveError>(ResolveError::OutOfRange))) || (e
                    == ResolveError::NoSingleLocalTime && exists|o1: int|
                    is_offset(o1) && wall_found(fields, now.secs as int, o1)),
            }
        }),
{
    let fields = match read_fields(time, date) {
        Err(e) => return Err(e),
        Ok(None) => return Ok(now),
        Ok(Some(f)) => f,
    };
    match frame {
        Frame::Utc => match wall_target(fields, now.secs) {
            Ok(w) => Ok(Instant { secs: w }),
            Err(e) => Err(e),
        },
        Frame::Local => {
            if fields_impossible_exec(fields) {
                return Err(ResolveError::OutOfRange);
            }
            let o1 = match local_offset_at(now.secs) {
                Some(o) => o,
                None => return Err(ResolveError::OutOfRange),
            };
            let reference = match to_wall(now, o1) {
                Some(w) => w,
                None => return Err(ResolveError::OutOfRange),
            };
            let w = match wall_target(fields, reference) {
                Ok(w) => w,
                Err(e) => return Err(e),
            };
            let o2 = match local_offset_of_wall(w) {
                Some(o) => o,
                None => return Err(ResolveError::NoSingleLocalTime),
            };
            match from_wall(w, o2) {
                Some(t) => {
                    assert(resolved_with(
                        fields_of(view_text(time), view_text(date)),
                        now.secs as int,
                        o1 as int,
                        o2 as int,
                    ) == Ok::<int, ResolveError>(t.secs as int));
                    Ok(t)
                },
                None => Err(ResolveError::OutOfRange),
            }
        },
    }
}

/// Whether the fields are refused whatever the reference.
fn fields_impossible_exec(f: Fields) -> (r: bool)
    ensures
        r == fields_impossible(f),
{
    let (hm, date) = f;
    if hm.0 >= 24 || hm.1 >= 60 {
        return true;
    }
    match date {
        None => false,
        Some(ymd) => civil_to_seconds(ymd.0, ymd.1, ymd.2, hm.0, hm.1, 0).is_none(),
    }
}

} // verus!
