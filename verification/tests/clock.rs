use baseline_core::clock::{
    format_day, format_event_time, format_header_time, format_start_time, observation_epoch,
    observation_time, unix_from_seconds_and_millis, LAST_MILLIS,
};
use chrono::{DateTime, NaiveDate, TimeZone, Utc};

fn instants() -> Vec<i64> {
    let mut list = vec![
        0,
        1,
        999,
        1_000,
        86_399_999,
        86_400_000,
        951_782_399_999,
        951_782_400_000,
        1_709_164_800_123,
        1_727_740_800_000,
        4_107_542_400_000,
        LAST_MILLIS,
    ];
    let mut at: i64 = 12_345;
    while at < LAST_MILLIS {
        list.push(at);
        at += 97_003_141_592;
    }
    list
}

fn utc(millis: i64) -> DateTime<Utc> {
    Utc.timestamp_millis_opt(millis).unwrap()
}

#[test]
fn times_are_written_as_chrono_writes_them() {
    for millis in instants() {
        let time = utc(millis);
        assert_eq!(
            format_event_time(millis),
            time.format("%Y-%m-%d %H:%M:%S%.3f").to_string()
        );
        assert_eq!(
            format_header_time(millis),
            time.format("%Y-%b-%d %H:%M:%S%.3f").to_string()
        );
        assert_eq!(
            format_start_time(millis),
            time.format("%Y-%m-%d %H:%M:%S").to_string()
        );
        assert_eq!(format_day(millis), time.format("%Y-%m-%d").to_string());
    }
}

#[test]
fn known_times() {
    assert_eq!(format_event_time(0), "1970-01-01 00:00:00.000");
    assert_eq!(format_event_time(1_709_164_800_123), "2024-02-29 00:00:00.123");
    assert_eq!(format_header_time(1_727_740_800_000), "2024-Oct-01 00:00:00.000");
    assert_eq!(format_start_time(86_399_999), "1970-01-01 23:59:59");
    assert_eq!(format_day(951_782_400_000), "2000-02-29");
}

#[test]
fn seconds_and_milliseconds_make_an_instant() {
    assert_eq!(unix_from_seconds_and_millis(0, 0), 0);
    assert_eq!(unix_from_seconds_and_millis(1, 999), 1_999);
    assert_eq!(unix_from_seconds_and_millis(1, 1_000), 2_000);
    assert_eq!(
        unix_from_seconds_and_millis(u32::MAX, u16::MAX),
        4_294_967_295_000 + 65_535
    );
}

#[test]
fn observation_time_counts_from_october_2024() {
    let epoch = NaiveDate::from_ymd_opt(2024, 10, 1)
        .unwrap()
        .and_hms_opt(0, 0, 0)
        .unwrap()
        .and_utc();
    assert_eq!(observation_epoch(), epoch.timestamp_millis());
    assert_eq!(observation_time(10, 250), observation_epoch() + 10_250);
    assert_eq!(
        observation_time(u32::MAX, u16::MAX),
        observation_epoch() + 4_294_967_295_000 + 65_535
    );
}
