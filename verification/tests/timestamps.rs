use betterstack_shipper::{chrono_now_iso, days_to_ymd, format_timestamp};

#[test]
fn epoch_renders_as_midnight_1970() {
    assert_eq!(format_timestamp(0, 0), "1970-01-01T00:00:00.000Z");
}

#[test]
fn leap_day_2000() {
    // 2000-02-29 is day 11016 since the epoch
    assert_eq!(days_to_ymd(11016), (2000, 2, 29));
    assert_eq!(
        format_timestamp(11016 * 86400, 0),
        "2000-02-29T00:00:00.000Z"
    );
}

#[test]
fn end_of_2020_with_millis() {
    assert_eq!(
        format_timestamp(1609459199, 999),
        "2020-12-31T23:59:59.999Z"
    );
}

#[test]
fn civil_calendar_spot_checks() {
    assert_eq!(days_to_ymd(0), (1970, 1, 1));
    assert_eq!(days_to_ymd(30), (1970, 1, 31));
    assert_eq!(days_to_ymd(31), (1970, 2, 1));
    assert_eq!(days_to_ymd(365), (1971, 1, 1));
    // 1972 is a leap year
    assert_eq!(days_to_ymd(730 + 59), (1972, 2, 29));
    assert_eq!(days_to_ymd(730 + 60), (1972, 3, 1));
    // 2100 is a century year and not a leap year: 2100-02-28 is day
    // 47540, and the next day is March 1st
    assert_eq!(days_to_ymd(47540), (2100, 2, 28));
    assert_eq!(days_to_ymd(47541), (2100, 3, 1));
}

#[test]
fn output_is_fixed_width() {
    let now = chrono_now_iso();
    assert_eq!(now.len(), 24);
    assert_eq!(&now[4..5], "-");
    assert_eq!(&now[7..8], "-");
    assert_eq!(&now[10..11], "T");
    assert_eq!(&now[13..14], ":");
    assert_eq!(&now[16..17], ":");
    assert_eq!(&now[19..20], ".");
    assert_eq!(&now[23..], "Z");
}

#[test]
fn sub_second_padding() {
    assert_eq!(format_timestamp(1, 7), "1970-01-01T00:00:01.007Z");
    assert_eq!(format_timestamp(59, 70), "1970-01-01T00:00:59.070Z");
    assert_eq!(format_timestamp(3600, 700), "1970-01-01T01:00:00.700Z");
}
