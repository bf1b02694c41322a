use std::collections::HashSet;

use naive_datetime::calendar::{MAX_DAYS, MIN_DAYS, UNIX_EPOCH_DAYS};
use naive_datetime::datetime::{MAX_SECS, MAX_SECS_BITS};
use naive_datetime::{Duration, NaiveDate, NaiveDateTime, NaiveTime};

fn samples() -> Vec<NaiveDateTime> {
    vec![
        NaiveDate::from_ymd(1970, 1, 1).and_hms(0, 0, 0),
        NaiveDate::from_ymd(1969, 12, 31).and_hms_nano(23, 59, 59, 999_999_999),
        NaiveDate::from_ymd(2016, 2, 29).and_hms_milli(12, 34, 56, 789),
        NaiveDate::from_ymd(2015, 6, 30).and_hms_milli(23, 59, 59, 1_500),
        NaiveDate::from_ymd(2000, 1, 1).and_hms_nano(3, 5, 7, 1_300_000_000),
        NaiveDate::from_ymd(-1, 12, 31).and_hms_nano(23, 59, 59, 7),
        NaiveDate::from_ymd(0, 1, 1).and_hms_milli(0, 0, 59, 1_000),
        NaiveDate::from_ymd(9999, 12, 31).and_hms(23, 59, 59),
        NaiveDate::from_ymd(10000, 1, 1).and_hms(0, 0, 0),
        NaiveDate::min_value().and_hms(0, 0, 0),
        NaiveDate::max_value().and_hms_nano(23, 59, 59, 1_999_999_999),
    ]
}

fn durations() -> Vec<Duration> {
    vec![
        Duration::zero(),
        Duration::nanoseconds(1),
        Duration::nanoseconds(-1),
        Duration::milliseconds(800),
        Duration::milliseconds(-500),
        Duration::seconds(1),
        Duration::seconds(-60),
        Duration::seconds(86_399),
        Duration::seconds(-86_400),
        Duration::days(366),
        Duration::days(-146_097),
        Duration::microseconds(-946_684_799_990_000),
    ]
}

#[test]
fn timestamp_round_trip_from_value() {
    for x in samples() {
        let back = NaiveDateTime::from_timestamp_opt(x.timestamp(), x.timestamp_subsec_nanos());
        assert_eq!(back, Some(x));
    }
}

#[test]
fn timestamp_round_trip_from_numbers() {
    let cases: [(i64, u32); 8] = [
        (0, 0),
        (0, 1_999_999_999),
        (-1, 0),
        (1_000_000_000, 123),
        (0x7fff_ffff, 5),
        (-62_167_219_200, 0),
        (-86_400 * 30_000_000, 1_000_000_000),
        (86_400 * 30_000_000 + 86_399, 999_999_999),
    ];
    for &(s, n) in cases.iter() {
        let x = NaiveDateTime::from_timestamp_opt(s, n).unwrap();
        assert_eq!(x.timestamp(), s);
        assert_eq!(x.timestamp_subsec_nanos(), n);
    }
}

#[test]
fn subtracting_undoes_adding() {
    for x in samples() {
        for d in durations() {
            let sum = match x.checked_add_signed(d) {
                Some(sum) => sum,
                None => continue,
            };
            let leap = x.nanosecond() >= 1_000_000_000;
            let stays = d
                .num_nanoseconds()
                .map(|n| {
                    let total = x.nanosecond() as i64 + n;
                    1_000_000_000 <= total && total < 2_000_000_000
                })
                .unwrap_or(false);
            if !leap || stays {
                assert_eq!(sum.checked_sub_signed(d), Some(x));
            } else {
                assert_ne!(sum.checked_sub_signed(d), Some(x));
            }
        }
    }
}

#[test]
fn adding_to_a_leap_second_and_subtracting_can_lose_it() {
    let leap = NaiveDate::from_ymd(2016, 7, 8).and_hms_milli(3, 5, 59, 1_300);
    let d = Duration::milliseconds(800);
    let sum = leap.checked_add_signed(d).unwrap();
    assert_eq!(sum, NaiveDate::from_ymd(2016, 7, 8).and_hms_milli(3, 6, 0, 100));
    assert_eq!(
        sum.checked_sub_signed(d),
        Some(NaiveDate::from_ymd(2016, 7, 8).and_hms_milli(3, 5, 59, 300))
    );
}

#[test]
fn duration_since_is_antisymmetric() {
    for a in samples() {
        for b in samples() {
            assert_eq!(a.signed_duration_since(b), -(b.signed_duration_since(a)));
        }
    }
}

#[test]
fn adding_the_duration_since_leads_there() {
    for a in samples() {
        for b in samples() {
            if a.nanosecond() < 1_000_000_000 && b.nanosecond() < 1_000_000_000 {
                assert_eq!(b.checked_add_signed(a.signed_duration_since(b)), Some(a));
            }
        }
    }
}

#[test]
fn canonical_text_reads_back() {
    for x in samples() {
        let text = x.to_canonical_string();
        let back = NaiveDateTime::from_str(&text);
        if x.nanosecond() < 1_000_000_000 || x.second() == 59 {
            assert_eq!(back, Ok(x), "{}", text);
        } else {
            assert_ne!(back, Ok(x), "{}", text);
        }
    }
}

#[test]
fn leap_second_outside_second_59_reads_back_as_next_second() {
    let x = NaiveDate::from_ymd(2016, 7, 8).and_hms_milli(3, 5, 7, 1_300);
    assert_eq!(x.to_canonical_string(), "2016-07-08T03:05:08.300");
    assert_eq!(
        NaiveDateTime::from_str("2016-07-08T03:05:08.300"),
        Ok(NaiveDate::from_ymd(2016, 7, 8).and_hms_milli(3, 5, 8, 300))
    );
}

#[test]
fn epoch_offset_is_the_day_number_of_1970() {
    assert_eq!(NaiveDate::from_ymd(1970, 1, 1).num_days_from_ce(), UNIX_EPOCH_DAYS);
    assert_eq!(NaiveDate::from_ymd(1970, 1, 1).and_hms(0, 0, 0).timestamp(), 0);
    assert_eq!(UNIX_EPOCH_DAYS, 719_163);
}

#[test]
fn carry_bound_exceeds_the_span_of_dates() {
    assert_eq!(MAX_SECS, 1i64 << MAX_SECS_BITS);
    assert_eq!(MAX_SECS_BITS, 44);
    let span_secs = (MAX_DAYS as i64 - MIN_DAYS as i64 + 1) * 86_400;
    assert!(span_secs < MAX_SECS);
    assert_eq!(NaiveDate::min_value().num_days_from_ce(), MIN_DAYS);
    assert_eq!(NaiveDate::max_value().num_days_from_ce(), MAX_DAYS);
    // every carry in whole days that keeps the earliest date in range is small enough
    let first = NaiveDate::min_value().and_hms(0, 0, 0);
    let last = NaiveDate::max_value().and_hms(0, 0, 0);
    let whole = last.signed_duration_since(first);
    assert!(whole.num_seconds() < MAX_SECS);
    assert_eq!(first.checked_add_signed(whole), Some(last));
    assert_eq!(first.checked_add_signed(whole + Duration::seconds(86_400)), None);
    assert_eq!(first.checked_add_signed(Duration::seconds(MAX_SECS)), None);
    assert_eq!(last.checked_sub_signed(Duration::seconds(MAX_SECS)), None);
}

#[test]
fn order_is_by_date_then_time() {
    let mut sorted = samples();
    sorted.sort();
    for pair in sorted.windows(2) {
        let (a, b) = (pair[0], pair[1]);
        assert!(a < b);
        assert!((a.date(), a.time()) < (b.date(), b.time()));
        assert!(a.timestamp() <= b.timestamp());
    }
    let second = NaiveDate::from_ymd(2015, 6, 30).and_hms_milli(23, 59, 59, 999);
    let leap = NaiveDate::from_ymd(2015, 6, 30).and_hms_milli(23, 59, 59, 1_000);
    let next = NaiveDate::from_ymd(2015, 7, 1).and_hms(0, 0, 0);
    assert!(second < leap && leap < next);
    assert_ne!(leap, next);
    assert_eq!(leap.partial_cmp(&next), Some(std::cmp::Ordering::Less));
    assert_eq!(leap.cmp(&next), std::cmp::Ordering::Less);
    assert_eq!(leap.partial_cmp(&leap), Some(std::cmp::Ordering::Equal));
    assert!(NaiveTime::from_hms(1, 2, 3) < NaiveTime::from_hms_milli(1, 2, 3, 1));
    assert!(NaiveDate::from_ymd(-1, 12, 31) < NaiveDate::from_ymd(0, 1, 1));
}

#[test]
fn equal_values_hash_alike_and_leap_second_differs() {
    let mut set = HashSet::new();
    set.insert(NaiveDate::from_ymd(2015, 6, 30).and_hms_milli(23, 59, 59, 1_000));
    assert!(set.contains(&NaiveDateTime::from_timestamp(1_435_708_799, 1_000_000_000)));
    assert!(!set.contains(&NaiveDate::from_ymd(2015, 7, 1).and_hms(0, 0, 0)));
}
