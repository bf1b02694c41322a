use naive_datetime::{NaiveDate, NaiveDateTime};

#[test]
fn test_datetime_from_str() {
    // valid cases
    let valid = [
        "2015-2-18T23:16:9.15",
        "-77-02-18T23:16:09",
        "  +82701  -  05  -  6  T  15  :  9  : 60.898989898989   ",
    ];
    for &s in &valid {
        let d = match s.parse::<NaiveDateTime>() {
            Ok(d) => d,
            Err(e) => panic!("parsing `{}` has failed: {}", s, e.description()),
        };
        let s_ = d.to_canonical_string();
        // `s` and `s_` may differ, but `s.parse()` and `s_.parse()` must be same
        let d_ = match s_.parse::<NaiveDateTime>() {
            Ok(d) => d,
            Err(e) => panic!(
                "`{}` is parsed into `{:?}`, but reparsing that has failed: {}",
                s,
                d,
                e.description()
            ),
        };
        assert!(
            d == d_,
            "`{}` is parsed into `{:?}`, but reparsed result `{:?}` does not match",
            s,
            d,
            d_
        );
    }

    // some invalid cases
    assert!("".parse::<NaiveDateTime>().is_err());
    assert!("x".parse::<NaiveDateTime>().is_err());
    assert!("15".parse::<NaiveDateTime>().is_err());
    assert!("15:8:9".parse::<NaiveDateTime>().is_err());
    assert!("15-8-9".parse::<NaiveDateTime>().is_err());
    assert!("2015-15-15T15:15:15".parse::<NaiveDateTime>().is_err());
    assert!("2012-12-12T12:12:12x".parse::<NaiveDateTime>().is_err());
    assert!("2012-123-12T12:12:12".parse::<NaiveDateTime>().is_err());
    assert!("+ 82701-123-12T12:12:12".parse::<NaiveDateTime>().is_err());
    assert!("+802701-123-12T12:12:12".parse::<NaiveDateTime>().is_err()); // out-of-bound
}

#[test]
fn canonical_text_of_sample_values() {
    let text = |dt: NaiveDateTime| dt.to_canonical_string();
    assert_eq!(text(NaiveDate::from_ymd(2016, 7, 8).and_hms_milli(9, 10, 48, 90)), "2016-07-08T09:10:48.090");
    assert_eq!(text(NaiveDate::from_ymd(2014, 7, 24).and_hms(12, 34, 6)), "2014-07-24T12:34:06");
    assert_eq!(text(NaiveDate::from_ymd(0, 1, 1).and_hms_milli(0, 0, 59, 1_000)), "0000-01-01T00:00:60");
    assert_eq!(
        text(NaiveDate::from_ymd(-1, 12, 31).and_hms_nano(23, 59, 59, 7)),
        "-0001-12-31T23:59:59.000000007"
    );
    assert_eq!(text(NaiveDate::min_value().and_hms(0, 0, 0)), "-262144-01-01T00:00:00");
    assert_eq!(
        text(NaiveDate::max_value().and_hms_nano(23, 59, 59, 1_999_999_999)),
        "+262143-12-31T23:59:60.999999999"
    );
}
