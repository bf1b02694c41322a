use naive_datetime::{Duration, NaiveDate, NaiveDateTime};

fn ymdhms(y: i32, m: u32, d: u32, h: u32, n: u32, s: u32) -> NaiveDateTime {
    NaiveDate::from_ymd(y, m, d).and_hms(h, n, s)
}

fn check_add(
    (y, m, d, h, n, s): (i32, u32, u32, u32, u32, u32),
    rhs: Duration,
    result: Option<(i32, u32, u32, u32, u32, u32)>,
) {
    let lhs = NaiveDate::from_ymd(y, m, d).and_hms(h, n, s);
    let sum = result.map(|(y, m, d, h, n, s)| NaiveDate::from_ymd(y, m, d).and_hms(h, n, s));
    assert_eq!(lhs.checked_add_signed(rhs), sum);
    assert_eq!(lhs.checked_sub_signed(-rhs), sum);
}

#[test]
fn test_datetime_from_timestamp() {
    let from_timestamp = |secs| NaiveDateTime::from_timestamp_opt(secs, 0);
    assert_eq!(from_timestamp(-1), Some(ymdhms(1969, 12, 31, 23, 59, 59)));
    assert_eq!(from_timestamp(0), Some(ymdhms(1970, 1, 1, 0, 0, 0)));
    assert_eq!(from_timestamp(1), Some(ymdhms(1970, 1, 1, 0, 0, 1)));
    assert_eq!(from_timestamp(1_000_000_000), Some(ymdhms(2001, 9, 9, 1, 46, 40)));
    assert_eq!(from_timestamp(0x7fffffff), Some(ymdhms(2038, 1, 19, 3, 14, 7)));
    assert_eq!(from_timestamp(i64::MIN), None);
    assert_eq!(from_timestamp(i64::MAX), None);
}

#[test]
fn test_datetime_add() {
    check_add((2014, 5, 6, 7, 8, 9), Duration::seconds(3600 + 60 + 1), Some((2014, 5, 6, 8, 9, 10)));
    check_add((2014, 5, 6, 7, 8, 9), Duration::seconds(-(3600 + 60 + 1)), Some((2014, 5, 6, 6, 7, 8)));
    check_add((2014, 5, 6, 7, 8, 9), Duration::seconds(86399), Some((2014, 5, 7, 7, 8, 8)));
    check_add((2014, 5, 6, 7, 8, 9), Duration::seconds(86400 * 10), Some((2014, 5, 16, 7, 8, 9)));
    check_add((2014, 5, 6, 7, 8, 9), Duration::seconds(-86400 * 10), Some((2014, 4, 26, 7, 8, 9)));
    check_add((2014, 5, 6, 7, 8, 9), Duration::seconds(86400 * 10), Some((2014, 5, 16, 7, 8, 9)));

    // overflow check
    let max_days_from_year_0 =
        NaiveDate::max_value().signed_duration_since(NaiveDate::from_ymd(0, 1, 1));
    check_add(
        (0, 1, 1, 0, 0, 0),
        max_days_from_year_0,
        Some((NaiveDate::max_value().year(), 12, 31, 0, 0, 0)),
    );
    check_add(
        (0, 1, 1, 0, 0, 0),
        max_days_from_year_0 + Duration::seconds(86399),
        Some((NaiveDate::max_value().year(), 12, 31, 23, 59, 59)),
    );
    check_add((0, 1, 1, 0, 0, 0), max_days_from_year_0 + Duration::seconds(86400), None);
    check_add((0, 1, 1, 0, 0, 0), Duration::max_value(), None);

    let min_days_from_year_0 =
        NaiveDate::min_value().signed_duration_since(NaiveDate::from_ymd(0, 1, 1));
    check_add(
        (0, 1, 1, 0, 0, 0),
        min_days_from_year_0,
        Some((NaiveDate::min_value().year(), 1, 1, 0, 0, 0)),
    );
    check_add((0, 1, 1, 0, 0, 0), min_days_from_year_0 - Duration::seconds(1), None);
    check_add((0, 1, 1, 0, 0, 0), Duration::min_value(), None);
}

#[test]
fn test_datetime_sub() {
    let since = NaiveDateTime::signed_duration_since;
    assert_eq!(
        since(ymdhms(2014, 5, 6, 7, 8, 9), ymdhms(2014, 5, 6, 7, 8, 9)),
        Duration::zero()
    );
    assert_eq!(
        since(ymdhms(2014, 5, 6, 7, 8, 10), ymdhms(2014, 5, 6, 7, 8, 9)),
        Duration::seconds(1)
    );
    assert_eq!(
        since(ymdhms(2014, 5, 6, 7, 8, 9), ymdhms(2014, 5, 6, 7, 8, 10)),
        Duration::seconds(-1)
    );
    assert_eq!(
        since(ymdhms(2014, 5, 7, 7, 8, 9), ymdhms(2014, 5, 6, 7, 8, 10)),
        Duration::seconds(86399)
    );
    assert_eq!(
        since(ymdhms(2001, 9, 9, 1, 46, 39), ymdhms(1970, 1, 1, 0, 0, 0)),
        Duration::seconds(999_999_999)
    );
}

#[test]
fn test_datetime_timestamp() {
    let to_timestamp = |y, m, d, h, n, s| NaiveDate::from_ymd(y, m, d).and_hms(h, n, s).timestamp();
    assert_eq!(to_timestamp(1969, 12, 31, 23, 59, 59), -1);
    assert_eq!(to_timestamp(1970, 1, 1, 0, 0, 0), 0);
    assert_eq!(to_timestamp(1970, 1, 1, 0, 0, 1), 1);
    assert_eq!(to_timestamp(2001, 9, 9, 1, 46, 40), 1_000_000_000);
    assert_eq!(to_timestamp(2038, 1, 19, 3, 14, 7), 0x7fffffff);
}

#[test]
fn test_datetime_add_sub_invariant() {
    let base = NaiveDate::from_ymd(2000, 1, 1).and_hms(0, 0, 0);
    let t = -946684799990000;
    let time = base + Duration::microseconds(t);
    assert_eq!(t, time.signed_duration_since(base).num_microseconds().unwrap());
}
