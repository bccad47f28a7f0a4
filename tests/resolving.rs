use chrono::{Datelike, TimeZone, Timelike};
use tzshow::calendar::{civil_to_seconds, set_hour_minute};
use tzshow::resolve::{
    from_wall, read_fields, resolve, to_wall, wall_target, Frame, Instant, ResolveError,
};
use tzshow::text::{parse_i32, parse_u32, read_hour_minute, read_yy_mm_dd, split_fields, ParseError};

fn chars(s: &str) -> Vec<char> {
    s.chars().collect()
}

/// 2024-06-01 15:42:07 UTC.
const JUNE_FIRST_AFTERNOON: i64 = 1_717_256_527;

#[test]
fn split_keeps_empty_pieces() {
    let r = split_fields("a::b:", ':');
    assert_eq!(r, vec![chars("a"), vec![], chars("b"), vec![]]);
    assert_eq!(split_fields("", '-'), vec![Vec::<char>::new()]);
}

#[test]
fn numbers_read_as_std_does() {
    assert_eq!(parse_u32(&chars("0930")), Some(930));
    assert_eq!(parse_u32(&chars("+7")), Some(7));
    assert_eq!(parse_u32(&chars("4294967295")), Some(u32::MAX));
    assert_eq!(parse_u32(&chars("4294967296")), None);
    assert_eq!(parse_u32(&chars("")), None);
    assert_eq!(parse_u32(&chars("+")), None);
    assert_eq!(parse_u32(&chars("-1")), None);
    assert_eq!(parse_u32(&chars("1a")), None);
    assert_eq!(parse_i32(&chars("-2147483648")), Some(i32::MIN));
    assert_eq!(parse_i32(&chars("2147483648")), None);
    assert_eq!(parse_i32(&chars("-")), None);
    assert_eq!(parse_i32(&chars("+2024")), Some(2024));
}

#[test]
fn hour_minute_reading() {
    assert_eq!(read_hour_minute("09:30"), Ok((9, 30)));
    assert_eq!(read_hour_minute("25:00"), Ok((25, 0)));
    assert_eq!(read_hour_minute("12-30"), Err(ParseError::MalformedTime));
    assert_eq!(read_hour_minute("1:2:3"), Err(ParseError::MalformedTime));
    assert_eq!(read_hour_minute("ab:10"), Err(ParseError::MalformedTime));
    assert_eq!(read_hour_minute(":"), Err(ParseError::MalformedTime));
}

#[test]
fn date_reading() {
    assert_eq!(read_yy_mm_dd("2024-06-01"), Ok((2024, 6, 1)));
    assert_eq!(read_yy_mm_dd("2024-13-01"), Ok((2024, 13, 1)));
    assert_eq!(read_yy_mm_dd("2024/06/01"), Err(ParseError::MalformedDate));
    assert_eq!(read_yy_mm_dd("2024-06"), Err(ParseError::MalformedDate));
    assert_eq!(read_yy_mm_dd("-5-01-01"), Err(ParseError::MalformedDate));
    assert_eq!(
        ParseError::MalformedDate.message(),
        "Cannot parse the date. Needs to be in format yyyy-mm-dd"
    );
    assert_eq!(
        ParseError::MalformedTime.message(),
        "Cannot parse the time. Needs to be in format HH:MM"
    );
}

#[test]
fn civil_seconds_values() {
    assert_eq!(civil_to_seconds(1970, 1, 1, 0, 0, 0), Some(0));
    assert_eq!(civil_to_seconds(2024, 6, 1, 9, 30, 0), Some(1_717_234_200));
    assert_eq!(civil_to_seconds(2024, 2, 29, 0, 0, 0), Some(1_709_164_800));
    assert_eq!(civil_to_seconds(1969, 12, 31, 23, 59, 59), Some(-1));
    assert_eq!(civil_to_seconds(2023, 2, 29, 0, 0, 0), None);
    assert_eq!(civil_to_seconds(2024, 13, 1, 0, 0, 0), None);
    assert_eq!(civil_to_seconds(2024, 4, 31, 0, 0, 0), None);
    assert_eq!(civil_to_seconds(2024, 1, 1, 24, 0, 0), None);
    assert_eq!(civil_to_seconds(262_143, 1, 1, 0, 0, 0), None);
    assert_eq!(civil_to_seconds(-262_144, 12, 31, 0, 0, 0), None);
    assert_eq!(civil_to_seconds(262_142, 12, 31, 23, 59, 59), Some(8_210_266_876_799));
    assert_eq!(civil_to_seconds(-262_143, 1, 1, 0, 0, 0), Some(-8_334_601_228_800));
    assert_eq!(civil_to_seconds(2000, 2, 29, 0, 0, 0), Some(951_782_400));
    assert_eq!(civil_to_seconds(1900, 2, 29, 0, 0, 0), None);
}

#[test]
fn hour_minute_replaced_within_day() {
    assert_eq!(set_hour_minute(JUNE_FIRST_AFTERNOON, 9, 30), Some(1_717_234_207));
    // 1969-12-31 23:59:59 becomes 1969-12-31 00:05:59.
    assert_eq!(set_hour_minute(-1, 0, 5), Some(-86_400 + 359));
    assert_eq!(set_hour_minute(i64::MAX, 23, 59), None);
}

#[test]
fn time_in_utc_today() {
    let now = Instant { secs: 1_717_200_000 + 15 * 3600 + 42 * 60 };
    let r = resolve(Some("09:30"), None, Frame::Utc, now);
    assert_eq!(r, Ok(Instant { secs: 1_717_234_200 }));
}

#[test]
fn time_and_date_in_utc() {
    let now = Instant { secs: JUNE_FIRST_AFTERNOON };
    let r = resolve(Some("14:00"), Some("2023-12-25"), Frame::Utc, now);
    assert_eq!(r, Ok(Instant { secs: 1_703_512_800 }));
}

#[test]
fn malformed_and_impossible_inputs() {
    let now = Instant { secs: JUNE_FIRST_AFTERNOON };
    for frame in [Frame::Utc, Frame::Local] {
        assert_eq!(resolve(Some("25:00"), None, frame, now), Err(ResolveError::OutOfRange));
        assert_eq!(resolve(Some("12:60"), None, frame, now), Err(ResolveError::OutOfRange));
        assert_eq!(resolve(Some("12-30"), None, frame, now), Err(ResolveError::MalformedTime));
        assert_eq!(
            resolve(Some("12:00"), Some("2024-13-01"), frame, now),
            Err(ResolveError::OutOfRange)
        );
        assert_eq!(
            resolve(Some("12:00"), Some("2023-02-30"), frame, now),
            Err(ResolveError::OutOfRange)
        );
        assert_eq!(
            resolve(Some("12:00"), Some("2024.01.01"), frame, now),
            Err(ResolveError::MalformedDate)
        );
        assert_eq!(
            resolve(None, Some("2024-01-01"), frame, now),
            Err(ResolveError::DateWithoutTime)
        );
    }
}

#[test]
fn nothing_given_is_now() {
    let now = Instant { secs: JUNE_FIRST_AFTERNOON };
    assert_eq!(resolve(None, None, Frame::Utc, now), Ok(now));
    assert_eq!(resolve(None, None, Frame::Local, now), Ok(now));
    assert_eq!(read_fields(None, None), Ok(None));
}

#[test]
fn wall_target_values() {
    assert_eq!(wall_target(((9, 30), None), JUNE_FIRST_AFTERNOON), Ok(1_717_234_207));
    assert_eq!(wall_target(((9, 30), Some((2024, 6, 1))), 0), Ok(1_717_234_200));
    assert_eq!(wall_target(((24, 0), None), 0), Err(ResolveError::OutOfRange));
}

#[test]
fn wall_offsets_round_trip() {
    let t = Instant { secs: JUNE_FIRST_AFTERNOON };
    let w = to_wall(t, -14_400).unwrap();
    assert_eq!(w, JUNE_FIRST_AFTERNOON - 14_400);
    assert_eq!(from_wall(w, -14_400), Some(t));
    assert_eq!(to_wall(Instant { secs: i64::MAX }, 1), None);
    assert_eq!(from_wall(i64::MIN, 1), None);
}

#[test]
fn time_in_local_frame_keeps_local_day() {
    let now = Instant { secs: JUNE_FIRST_AFTERNOON };
    let local_now = chrono::Local.timestamp_opt(now.secs, 0).unwrap();
    match resolve(Some("09:30"), None, Frame::Local, now) {
        Ok(t) => {
            let local = chrono::Local.timestamp_opt(t.secs, 0).unwrap();
            assert_eq!((local.hour(), local.minute()), (9, 30));
            assert_eq!(local.date_naive(), local_now.date_naive());
        }
        Err(e) => assert_eq!(e, ResolveError::NoSingleLocalTime),
    }
}

#[test]
fn time_and_date_in_local_frame() {
    let now = Instant { secs: JUNE_FIRST_AFTERNOON };
    let expected = chrono::Local.with_ymd_and_hms(2023, 12, 25, 14, 0, 0).single();
    let r = resolve(Some("14:00"), Some("2023-12-25"), Frame::Local, now);
    match expected {
        Some(e) => {
            assert_eq!(r, Ok(Instant { secs: e.timestamp() }));
            let back = chrono::Local.timestamp_opt(e.timestamp(), 0).unwrap();
            assert_eq!((back.year(), back.month(), back.day()), (2023, 12, 25));
        }
        None => assert_eq!(r, Err(ResolveError::NoSingleLocalTime)),
    }
}

#[test]
fn error_messages_name_the_format() {
    assert!(ResolveError::MalformedTime.message().contains("HH:MM"));
    assert!(ResolveError::MalformedDate.message().contains("yyyy-mm-dd"));
    assert!(!ResolveError::OutOfRange.message().is_empty());
    assert!(!ResolveError::DateWithoutTime.message().is_empty());
    assert!(!ResolveError::NoSingleLocalTime.message().is_empty());
}
