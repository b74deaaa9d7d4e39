use ulanzi_pomodoro::time::clock::yyyymmdd;
use ulanzi_pomodoro::time::ntp::NTP_PACKET_LEN;
use ulanzi_pomodoro::time::{civil_from_unix, parse_ntp_response, CivilDate, Clock, NtpRequest};

#[test]
fn unix_epoch_is_1970_01_01() {
    let date = civil_from_unix(0, 0);
    assert_eq!(date.year, 1970);
    assert_eq!(date.month, 1);
    assert_eq!(date.day, 1);
    assert_eq!(date.hour, 0);
}

#[test]
fn yyyymmdd_format() {
    let date = CivilDate { year: 2026, month: 5, day: 12, hour: 0, minute: 0, second: 0 };
    assert_eq!(yyyymmdd(date), 20_260_512);
}

#[test]
fn clock_advances_with_monotonic_ms() {
    let mut clock = Clock::unset();
    clock.anchor(1_778_285_640, 100);
    assert_eq!(clock.now_unix(100), Some(1_778_285_640));
    assert_eq!(clock.now_unix(100 + 2_500), Some(1_778_285_642));
}

#[test]
fn civil_dates_around_leap_days_and_eras() {
    // 2000-02-29 12:34:56 UTC
    let d = civil_from_unix(951_827_696, 0);
    assert_eq!((d.year, d.month, d.day, d.hour, d.minute, d.second), (2000, 2, 29, 12, 34, 56));
    // 2100 is not a leap year: the day after 2100-02-28 is 2100-03-01.
    let d = civil_from_unix(4_107_542_400, 0);
    assert_eq!((d.year, d.month, d.day), (2100, 3, 1));
    let d = civil_from_unix(4_107_542_400 - 1, 0);
    assert_eq!((d.year, d.month, d.day, d.hour), (2100, 2, 28, 23));
    // Before the epoch: 1969-12-31 23:59:59.
    let d = civil_from_unix(-1, 0);
    assert_eq!((d.year, d.month, d.day, d.hour, d.minute, d.second), (1969, 12, 31, 23, 59, 59));
}

// Unix time 1_778_285_640 is 2026-05-09 00:14:00 UTC, not 2026-05-12:
// 2026-01-01 is 20_454 days after the epoch, May 9 is 128 days later, and
// 2026-05-12 00:00 UTC is 1_778_544_000, three days after this instant.
#[test]
fn known_timestamp_may_2026() {
    let date = civil_from_unix(1_778_285_640, 0);
    assert_eq!(date.year, 2026);
    assert_eq!(date.month, 5);
    assert_eq!(date.day, 9);
    assert_eq!(date.hour, 0);
    assert_eq!(date.minute, 14);
}

// Same instant as above (2026-05-09 00:14 UTC), so the day is 9, not 12.
#[test]
fn tz_offset_shifts_date() {
    // 2026-05-09 00:14 UTC + 3h = 2026-05-09 03:14 Moscow time.
    let plus3 = civil_from_unix(1_778_285_640, 180);
    assert_eq!(plus3.hour, 3);
    assert_eq!(plus3.day, 9);

    // 23:14 UTC → 19:14 UTC-4, still 2026-05-09.
    let minus4 = civil_from_unix(1_778_285_640 + 23 * 3600, -240);
    assert_eq!(minus4.day, 9);
    assert_eq!(minus4.hour, 19);

    // Going back 3h from 00:14 UTC flips to the previous day.
    let minus3 = civil_from_unix(1_778_285_640, -180);
    assert_eq!(minus3.day, 8);
    assert_eq!(minus3.hour, 21);
}

#[test]
fn yyyymmdd_of_negative_year_counts_year_as_zero() {
    let date = CivilDate { year: -5, month: 1, day: 2, hour: 0, minute: 0, second: 0 };
    assert_eq!(yyyymmdd(date), 102);
}

#[test]
fn clock_without_anchor_has_no_time() {
    let clock = Clock::unset();
    assert_eq!(clock.now_unix(10_000), None);
    assert_eq!(clock.today_yyyymmdd(10_000, 0), None);
    assert!(!clock.synced);
    let guess = Clock::from_last_seen(1_778_285_640, 1_000);
    assert!(!guess.synced);
    assert_eq!(guess.now_unix(61_999), Some(1_778_285_700));
    // Time before the anchor counts as the anchor.
    assert_eq!(guess.now_unix(0), Some(1_778_285_640));
    assert_eq!(guess.today_yyyymmdd(1_000, 0), Some(20_260_509));
    assert!(guess.today_fits(1_000, 0));
    let never = Clock::from_last_seen(0, 5);
    assert_eq!(never.now_unix(10), None);
    let mut synced = Clock::from_last_seen(0, 5);
    synced.anchor(0, 5);
    assert!(synced.synced);
    assert_eq!(synced.now_unix(2_005), Some(2));
    assert_eq!(synced.today_yyyymmdd(2_005, 0), Some(19_700_101));
}

#[test]
fn request_is_well_formed() {
    let req = NtpRequest::to_bytes();
    assert_eq!(req.len(), 48);
    assert_eq!(req[0], 0x23);
    // Everything else is zero.
    assert!(req[1..].iter().all(|&b| b == 0));
}

#[test]
fn parses_simple_response() {
    let mut resp = [0u8; NTP_PACKET_LEN];
    resp[1] = 1; // stratum 1 (primary)
    // 2026-05-12 00:14:00 UTC → unix 1_778_285_640 → NTP seconds
    // 1_778_285_640 + 2_208_988_800 = 3_987_274_440
    let ntp_seconds: u32 = 3_987_274_440;
    resp[40..44].copy_from_slice(&ntp_seconds.to_be_bytes());
    let unix = parse_ntp_response(&resp).unwrap();
    assert_eq!(unix, 1_778_285_640);
}

#[test]
fn rejects_kod() {
    let mut resp = [0u8; NTP_PACKET_LEN];
    resp[1] = 0; // KoD / unspecified
    resp[40..44].copy_from_slice(&1u32.to_be_bytes());
    assert!(parse_ntp_response(&resp).is_none());
}

#[test]
fn rejects_short_and_zero_timestamp_responses() {
    let mut resp = [0u8; NTP_PACKET_LEN];
    resp[1] = 2;
    assert!(parse_ntp_response(&resp).is_none());
    assert!(parse_ntp_response(&resp[..47]).is_none());
    // Seconds before 1970 give a negative unix time.
    resp[40..44].copy_from_slice(&1u32.to_be_bytes());
    assert_eq!(parse_ntp_response(&resp), Some(1 - 2_208_988_800));
}
