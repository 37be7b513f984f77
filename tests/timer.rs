use flashlog::{convert_unix_nano_to_date_and_time, time_components_from_unix_nano, UnixClock};
use std::time::{SystemTime, UNIX_EPOCH};

const DAY: u64 = 86_400_000_000_000;

fn wall_clock_nanos() -> u64 {
    SystemTime::now().duration_since(UNIX_EPOCH).unwrap().as_nanos() as u64
}

#[test]
fn test_get_unix_nano() {
    let clock = UnixClock::new(wall_clock_nanos());
    let unix_nano = clock.now();
    println!("unix_nano: {}", unix_nano);
    assert!(unix_nano > 0);
}

#[test]
fn test_time_components_from_unix_nano() {
    let clock = UnixClock::new(wall_clock_nanos());
    let unix_nano = clock.now();
    let res = convert_unix_nano_to_date_and_time(unix_nano, 9);
    println!("{:?}", res);
}

#[test]
fn clock_reads_after_its_anchor() {
    let wall = wall_clock_nanos();
    let clock = UnixClock::new(wall);
    let first = clock.now();
    assert!(first >= wall + 10);
    assert_eq!(clock.at(0), wall + 10);
    assert_eq!(clock.at(5), wall + 15);
    assert!(first < wall + 60_000_000_000);
}

#[test]
fn clock_anchor_saturates() {
    let clock = UnixClock::new(u64::MAX - 3);
    assert_eq!(clock.at(0), u64::MAX);
    assert_eq!(clock.now(), u64::MAX);
}

#[test]
fn epoch_is_first_of_january_1970() {
    let (date, time) = convert_unix_nano_to_date_and_time(0, 0);
    assert_eq!(date, "19700101");
    assert_eq!(time, "00:00:00.000:000:000");
}

#[test]
fn negative_offset_at_epoch_falls_on_previous_day() {
    let (date, time) = convert_unix_nano_to_date_and_time(0, -5);
    assert_eq!(date, "19691231");
    assert_eq!(time, "19:00:00.000:000:000");
    let (date, time) = convert_unix_nano_to_date_and_time(0, -12);
    assert_eq!(date, "19691231");
    assert_eq!(time, "12:00:00.000:000:000");
}

#[test]
fn offset_carries_into_next_day() {
    let (date, time) = convert_unix_nano_to_date_and_time(1_726_400_070_684_921_877, 9);
    assert_eq!(date, "20240915");
    assert_eq!(time, "20:34:30.684:921:877");
    let (date, time) = convert_unix_nano_to_date_and_time(1_726_400_070_684_921_877, 14);
    assert_eq!(date, "20240916");
    assert_eq!(time, "01:34:30.684:921:877");
}

#[test]
fn largest_timestamp_is_exact() {
    let (date, time) = convert_unix_nano_to_date_and_time(u64::MAX, 0);
    assert_eq!(date, "25540721");
    assert_eq!(time, "23:34:33.709:551:615");
    let (date, time) = convert_unix_nano_to_date_and_time(u64::MAX, 14);
    assert_eq!(date, "25540722");
    assert_eq!(time, "13:34:33.709:551:615");
}

#[test]
fn one_day_later_crosses_leap_day() {
    let feb_28 = 1_709_078_400_000_000_000u64 + 12_345_678_901;
    let (d0, t0) = convert_unix_nano_to_date_and_time(feb_28, 0);
    let (d1, t1) = convert_unix_nano_to_date_and_time(feb_28 + DAY, 0);
    let (d2, t2) = convert_unix_nano_to_date_and_time(feb_28 + 2 * DAY, 0);
    assert_eq!(d0, "20240228");
    assert_eq!(d1, "20240229");
    assert_eq!(d2, "20240301");
    assert_eq!(t0, "00:00:12.345:678:901");
    assert_eq!(t0, t1);
    assert_eq!(t1, t2);
}

#[test]
fn one_day_later_in_a_common_year_and_at_year_end() {
    let feb_28_2023 = 1_677_542_400_000_000_000u64;
    assert_eq!(convert_unix_nano_to_date_and_time(feb_28_2023, 0).0, "20230228");
    assert_eq!(convert_unix_nano_to_date_and_time(feb_28_2023 + DAY, 0).0, "20230301");
    let dec_31_1999 = 946_598_400_000_000_000u64;
    assert_eq!(convert_unix_nano_to_date_and_time(dec_31_1999, 0).0, "19991231");
    assert_eq!(convert_unix_nano_to_date_and_time(dec_31_1999 + DAY, 0).0, "20000101");
}

#[test]
fn time_components_are_utc() {
    assert_eq!(time_components_from_unix_nano(1_726_400_070_684_921_877), (11, 34, 30, 684));
    assert_eq!(time_components_from_unix_nano(0), (0, 0, 0, 0));
    assert_eq!(time_components_from_unix_nano(DAY - 1), (23, 59, 59, 999));
}
