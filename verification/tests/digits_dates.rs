use rust_certbot::digits::{i64_to_string, u64_to_padded_string, u64_to_string};
use rust_certbot::datetime::{civil_from_days, civil_from_unix, date_str_at, days_between, timestamp_dir_name, timestamp_dir_name_at};

#[test]
fn decimal_rendering() {
    assert_eq!(u64_to_string(0), "0");
    assert_eq!(u64_to_string(7), "7");
    assert_eq!(u64_to_string(10), "10");
    assert_eq!(u64_to_string(65535), "65535");
    assert_eq!(u64_to_string(1736467200), "1736467200");
}

#[test]
fn padded_rendering() {
    assert_eq!(u64_to_padded_string(7, 2), "07");
    assert_eq!(u64_to_padded_string(7, 4), "0007");
    assert_eq!(u64_to_padded_string(2025, 4), "2025");
    assert_eq!(u64_to_padded_string(12345, 4), "12345");
    assert_eq!(u64_to_padded_string(0, 2), "00");
}

#[test]
fn signed_rendering() {
    assert_eq!(i64_to_string(0), "0");
    assert_eq!(i64_to_string(42), "42");
    assert_eq!(i64_to_string(-1), "-1");
    assert_eq!(i64_to_string(-365), "-365");
    assert_eq!(i64_to_string(i64::MIN), "-9223372036854775808");
}

#[test]
fn civil_dates() {
    assert_eq!(civil_from_days(0), (1970, 1, 1));
    assert_eq!(civil_from_days(31), (1970, 2, 1));
    assert_eq!(civil_from_days(365), (1971, 1, 1));
    // 1972 is the first leap year after the epoch
    assert_eq!(civil_from_days(365 + 365 + 31 + 28), (1972, 2, 29));
    // 2025-01-01 is 20089 days after the epoch
    assert_eq!(civil_from_days(20089), (2025, 1, 1));
}

#[test]
fn civil_time_of_day() {
    // 2025-01-01T00:00:00Z
    assert_eq!(civil_from_unix(1735689600), (2025, 1, 1, 0, 0, 0));
    // 2025-01-10T12:34:56Z
    assert_eq!(civil_from_unix(1736512496), (2025, 1, 10, 12, 34, 56));
}

#[test]
fn stamp_and_date_strings() {
    assert_eq!(timestamp_dir_name_at(1735689600), "20250101000000");
    assert_eq!(timestamp_dir_name_at(1736512496), "20250110123456");
    assert_eq!(date_str_at(1736467200), "2025-01-10");
    let now_stamp = timestamp_dir_name();
    assert_eq!(now_stamp.len(), 14);
    assert!(now_stamp.chars().all(|c| c.is_ascii_digit()));
}

#[test]
fn whole_days_floor() {
    // exactly nine days apart
    assert_eq!(days_between(1736467200, 1735689600), 9);
    // one second short of a day still counts as zero days
    assert_eq!(days_between(86399, 0), 0);
    // the floor rounds toward minus infinity for expired certificates
    assert_eq!(days_between(0, 86400), -1);
    assert_eq!(days_between(-1, 0), -1);
    assert_eq!(days_between(-86400, 0), -1);
    assert_eq!(days_between(-86401, 0), -2);
}
