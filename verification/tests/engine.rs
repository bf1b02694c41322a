use naive_datetime::parse::parse;
use naive_datetime::strftime::strftime_items;
use naive_datetime::tokens::canonical_pattern;
use naive_datetime::{
    Fixed, FormatError, Item, NaiveDate, NaiveDateTime, Numeric, Pad, ParseError, Parsed, Weekday,
};

fn sample() -> NaiveDateTime {
    NaiveDate::from_ymd(2001, 7, 8).and_hms_nano(0, 34, 59, 1_026_490_000)
}

fn shown(fmt: &str) -> String {
    sample().format(fmt).to_string()
}

#[test]
fn format_date_specifiers() {
    assert_eq!(shown("%Y"), "2001");
    assert_eq!(shown("%C"), "20");
    assert_eq!(shown("%y"), "01");
    assert_eq!(shown("%m"), "07");
    assert_eq!(shown("%b"), "Jul");
    assert_eq!(shown("%B"), "July");
    assert_eq!(shown("%h"), "Jul");
    assert_eq!(shown("%d"), "08");
    assert_eq!(shown("%e"), " 8");
    assert_eq!(shown("%a"), "Sun");
    assert_eq!(shown("%A"), "Sunday");
    assert_eq!(shown("%w"), "0");
    assert_eq!(shown("%u"), "7");
    assert_eq!(shown("%U"), "27");
    assert_eq!(shown("%W"), "27");
    assert_eq!(shown("%G"), "2001");
    assert_eq!(shown("%g"), "01");
    assert_eq!(shown("%V"), "27");
    assert_eq!(shown("%j"), "189");
    assert_eq!(shown("%D"), "07/08/01");
    assert_eq!(shown("%x"), "07/08/01");
    assert_eq!(shown("%F"), "2001-07-08");
    assert_eq!(shown("%v"), " 8-Jul-2001");
}

#[test]
fn format_time_specifiers() {
    assert_eq!(shown("%H"), "00");
    assert_eq!(shown("%k"), " 0");
    assert_eq!(shown("%I"), "12");
    assert_eq!(shown("%l"), "12");
    assert_eq!(shown("%P"), "am");
    assert_eq!(shown("%p"), "AM");
    assert_eq!(shown("%M"), "34");
    assert_eq!(shown("%S"), "60");
    assert_eq!(shown("%f"), "026490000");
    assert_eq!(shown("%.f"), ".026490");
    assert_eq!(shown("%.3f"), ".026");
    assert_eq!(shown("%.6f"), ".026490");
    assert_eq!(shown("%.9f"), ".026490000");
    assert_eq!(shown("%R"), "00:34");
    assert_eq!(shown("%T"), "00:34:60");
    assert_eq!(shown("%X"), "00:34:60");
    assert_eq!(shown("%r"), "12:34:60 AM");
    assert_eq!(shown("%c"), "Sun Jul  8 00:34:60 2001");
    assert_eq!(shown("%s"), "994552499");
    assert_eq!(shown("%t"), "\t");
    assert_eq!(shown("%n"), "\n");
    assert_eq!(shown("%%"), "%");
}

#[test]
fn format_with_literals_and_padding() {
    let dt = NaiveDate::from_ymd(2015, 9, 5).and_hms(23, 56, 4);
    assert_eq!(dt.format("%Y-%m-%d %H:%M:%S").to_string(), "2015-09-05 23:56:04");
    assert_eq!(dt.format("around %l %p on %b %-d").to_string(), "around 11 PM on Sep 5");
    assert_eq!(dt.format("%-m/%_m/%0m").to_string(), "9/ 9/09");
    assert_eq!(dt.format("%_Y|%-Y|%0e|%-e").to_string(), "2015|2015|05|5");
    assert_eq!(dt.format("  %Y  \u{3000}").to_string(), "  2015  \u{3000}");
    assert_eq!(dt.format("").to_string(), "");
    let items = strftime_items("%Y-%m-%d %H:%M:%S");
    assert_eq!(dt.format_with_items(items.clone()).to_string(), "2015-09-05 23:56:04");
    assert_eq!(dt.format_with_items(items).render().unwrap(), "2015-09-05 23:56:04");
}

#[test]
fn format_years_without_four_digit_form() {
    let early = NaiveDate::from_ymd(-42, 3, 4).and_hms(5, 6, 7);
    assert_eq!(early.format("%Y").to_string(), "-0042");
    assert_eq!(early.format("%-Y").to_string(), "-42");
    assert_eq!(early.format("%_Y").to_string(), "  -42");
    assert_eq!(early.format("%C|%y").to_string(), "-1|58");
    let late = NaiveDate::from_ymd(12345, 3, 4).and_hms(5, 6, 7);
    assert_eq!(late.format("%Y").to_string(), "+12345");
    assert_eq!(late.format("%-Y").to_string(), "+12345");
    assert_eq!(late.format("%_Y").to_string(), "+12345");
    assert_eq!(late.format("%C|%y").to_string(), "123|45");
    let zero = NaiveDate::from_ymd(0, 1, 1).and_hms(0, 0, 0);
    assert_eq!(zero.format("%Y|%_Y|%-Y").to_string(), "0000|   0|0");
    let before_epoch = NaiveDate::from_ymd(1969, 12, 31).and_hms(23, 59, 59);
    assert_eq!(before_epoch.format("%s").to_string(), "-1");
}

#[test]
fn format_is_lazy_and_repeatable() {
    let dt = sample();
    // a mistake in the pattern is no error before the pattern is written
    let bad = dt.format("%Y-%Q");
    assert_eq!(bad.render(), Err(FormatError));
    assert_eq!(bad.render(), Err(FormatError));
    let good = dt.format("%H:%M");
    assert_eq!(good.render(), Ok("00:34".to_string()));
    assert_eq!(good.render(), Ok("00:34".to_string()));
    assert_eq!(good.to_string(), "00:34");
    // items that ask for a time zone cannot be written for a date and time without one
    for fmt in ["%z", "%:z", "%Z", "%+"].iter() {
        assert_eq!(dt.format(fmt).render(), Err(FormatError), "{}", fmt);
    }
    for fmt in ["%", "%-", "%-T", "%.", "%.3", "%.3x", "%.x", "%:", "%:x", "%é", "%_a"].iter() {
        assert_eq!(dt.format(fmt).render(), Err(FormatError), "{}", fmt);
    }
}

#[test]
fn pattern_items() {
    let lit = |s: &str| Item::Literal(s.to_string());
    let sp = |s: &str| Item::Space(s.to_string());
    let num0 = |kind| Item::Numeric(kind, Pad::Zero);
    let nums = |kind| Item::Numeric(kind, Pad::Space);
    let num = |kind| Item::Numeric(kind, Pad::Unpadded);
    assert_eq!(strftime_items(""), vec![]);
    assert_eq!(strftime_items(" \t\n\r "), vec![sp(" \t\n\r ")]);
    assert_eq!(strftime_items("hello?"), vec![lit("hello?")]);
    assert_eq!(
        strftime_items("a  b\t\nc"),
        vec![lit("a"), sp("  "), lit("b"), sp("\t\n"), lit("c")]
    );
    assert_eq!(strftime_items("100%%"), vec![lit("100"), lit("%")]);
    assert_eq!(
        strftime_items("100%% ok"),
        vec![lit("100"), lit("%"), sp(" "), lit("ok")]
    );
    assert_eq!(strftime_items("%%PDF-1.0"), vec![lit("%"), lit("PDF-1.0")]);
    assert_eq!(
        strftime_items("%Y-%m-%d"),
        vec![num0(Numeric::Year), lit("-"), num0(Numeric::Month), lit("-"), num0(Numeric::Day)]
    );
    assert_eq!(strftime_items("[%F]"), strftime_items("[%Y-%m-%d]"));
    assert_eq!(strftime_items("%m %d"), vec![num0(Numeric::Month), sp(" "), num0(Numeric::Day)]);
    assert_eq!(strftime_items("%"), vec![Item::Error]);
    assert_eq!(strftime_items("%%"), vec![lit("%")]);
    assert_eq!(strftime_items("%%%"), vec![lit("%"), Item::Error]);
    assert_eq!(strftime_items("%%%%"), vec![lit("%"), lit("%")]);
    assert_eq!(strftime_items("foo%?"), vec![lit("foo"), Item::Error]);
    assert_eq!(strftime_items("bar%42"), vec![lit("bar"), Item::Error, lit("2")]);
    assert_eq!(strftime_items("quux% +"), vec![lit("quux"), Item::Error, lit("+")]);
    assert_eq!(strftime_items("%.Z"), vec![Item::Error]);
    assert_eq!(strftime_items("%:Z"), vec![Item::Error]);
    assert_eq!(strftime_items("%-Z"), vec![Item::Error]);
    assert_eq!(strftime_items("%0Z"), vec![Item::Error]);
    assert_eq!(strftime_items("%_Z"), vec![Item::Error]);
    assert_eq!(strftime_items("%.j"), vec![Item::Error]);
    assert_eq!(strftime_items("%:j"), vec![Item::Error]);
    assert_eq!(strftime_items("%-j"), vec![num(Numeric::Ordinal)]);
    assert_eq!(strftime_items("%0j"), vec![num0(Numeric::Ordinal)]);
    assert_eq!(strftime_items("%_j"), vec![nums(Numeric::Ordinal)]);
    assert_eq!(strftime_items("%.e"), vec![Item::Error]);
    assert_eq!(strftime_items("%:e"), vec![Item::Error]);
    assert_eq!(strftime_items("%-e"), vec![num(Numeric::Day)]);
    assert_eq!(strftime_items("%0e"), vec![num0(Numeric::Day)]);
    assert_eq!(strftime_items("%_e"), vec![nums(Numeric::Day)]);
    assert_eq!(
        strftime_items("%:z%.f%.3f%.6f%.9f%z%Z%+"),
        vec![
            Item::Fixed(Fixed::TimezoneOffsetColon),
            Item::Fixed(Fixed::Nanosecond),
            Item::Fixed(Fixed::Nanosecond3),
            Item::Fixed(Fixed::Nanosecond6),
            Item::Fixed(Fixed::Nanosecond9),
            Item::Fixed(Fixed::TimezoneOffset),
            Item::Fixed(Fixed::TimezoneName),
            Item::Fixed(Fixed::RFC3339),
        ]
    );
    // a padding mark before a conversion of several items spoils the first of them only
    assert_eq!(
        strftime_items("%-R"),
        vec![Item::Error, lit(":"), num0(Numeric::Minute)]
    );
}

fn parsed_with(fill: &dyn Fn(&mut Parsed)) -> Parsed {
    let mut parsed = Parsed::new();
    fill(&mut parsed);
    parsed
}

#[test]
fn parsed_setters() {
    let p = Parsed::new();
    assert_eq!(p.set_year(1987).unwrap().year, Some(1987));
    assert_eq!(p.set_year(1987).unwrap().set_year(1986), Err(ParseError::Impossible));
    assert_eq!(p.set_year(1987).unwrap().set_year(1987).unwrap().year, Some(1987));
    assert_eq!(p.set_year(1 << 31), Err(ParseError::OutOfRange));
    assert_eq!(p.set_year(-(1 << 31)).unwrap().year, Some(i32::MIN));
    assert_eq!(p.set_year_div_100(20).unwrap().year_div_100, Some(20));
    assert_eq!(p.set_year_div_100(-1), Err(ParseError::OutOfRange));
    assert_eq!(p.set_year_mod_100(-1), Err(ParseError::OutOfRange));
    assert_eq!(p.set_isoyear_div_100(-1), Err(ParseError::OutOfRange));
    assert_eq!(p.set_isoyear_mod_100(-1), Err(ParseError::OutOfRange));
    assert_eq!(p.set_isoyear(-5).unwrap().isoyear, Some(-5));
    assert_eq!(p.set_month(1).unwrap().set_month(1).unwrap().month, Some(1));
    assert_eq!(p.set_month(1).unwrap().set_month(12), Err(ParseError::Impossible));
    assert_eq!(p.set_month(-1), Err(ParseError::OutOfRange));
    assert_eq!(p.set_month(1 << 32), Err(ParseError::OutOfRange));
    assert_eq!(p.set_day((1 << 32) - 1).unwrap().day, Some(u32::MAX));
    assert_eq!(p.set_weekday(Weekday::Mon).unwrap().weekday, Some(Weekday::Mon));
    assert_eq!(
        p.set_weekday(Weekday::Mon).unwrap().set_weekday(Weekday::Tue),
        Err(ParseError::Impossible)
    );
    let h = p.set_hour(12).unwrap();
    assert_eq!((h.hour_div_12, h.hour_mod_12), (Some(1), Some(0)));
    assert_eq!(h.set_hour(11), Err(ParseError::Impossible));
    assert_eq!(h.set_hour(13), Err(ParseError::Impossible));
    assert_eq!(h.set_hour(12), Ok(h));
    assert_eq!(h.set_hour12(1), Err(ParseError::Impossible));
    assert_eq!(h.set_hour12(12), Ok(h));
    assert_eq!(h.set_ampm(false), Err(ParseError::Impossible));
    assert_eq!(h.set_ampm(true), Ok(h));
    assert_eq!(p.set_hour12(0), Err(ParseError::OutOfRange));
    assert_eq!(p.set_hour12(13), Err(ParseError::OutOfRange));
    let a = p.set_ampm(true).unwrap().set_hour12(12).unwrap();
    assert_eq!((a.hour_div_12, a.hour_mod_12), (Some(1), Some(0)));
    assert_eq!(a.set_hour(0), Err(ParseError::Impossible));
    assert_eq!(a.set_hour(12), Ok(a));
    assert_eq!(p.set_hour(-1), Err(ParseError::OutOfRange));
    assert_eq!(p.set_timestamp(i64::MIN).unwrap().timestamp, Some(i64::MIN));
    assert_eq!(
        p.set_timestamp(1).unwrap().set_timestamp(2),
        Err(ParseError::Impossible)
    );
    assert_eq!(p.set_offset(-3600).unwrap().offset, Some(-3600));
    assert_eq!(p.set_offset(1 << 31), Err(ParseError::OutOfRange));
    assert_eq!(p.set_second(60).unwrap().second, Some(60));
    assert_eq!(p.set_nanosecond(7).unwrap().nanosecond, Some(7));
    assert_eq!(p.set_minute(59).unwrap().minute, Some(59));
    assert_eq!(p.set_ordinal(366).unwrap().ordinal, Some(366));
    assert_eq!(p.set_isoweek(53).unwrap().isoweek, Some(53));
    assert_eq!(p.set_week_from_sun(0).unwrap().week_from_sun, Some(0));
    assert_eq!(p.set_week_from_mon(0).unwrap().week_from_mon, Some(0));
}

#[test]
fn parsed_to_date_by_year_month_day() {
    let ymd = |y, m, d| Ok(NaiveDate::from_ymd(y, m, d));
    let date = |fill: &dyn Fn(&mut Parsed)| parsed_with(fill).to_naive_date();
    assert_eq!(date(&|_| {}), Err(ParseError::NotEnough));
    assert_eq!(date(&|p| p.year = Some(1984)), Err(ParseError::NotEnough));
    assert_eq!(
        date(&|p| {
            p.year = Some(1984);
            p.month = Some(1);
        }),
        Err(ParseError::NotEnough)
    );
    let full = |y: i32, m: u32, d: u32| {
        date(&move |p: &mut Parsed| {
            p.year = Some(y);
            p.month = Some(m);
            p.day = Some(d);
        })
    };
    assert_eq!(full(1984, 1, 2), ymd(1984, 1, 2));
    assert_eq!(full(1984, 12, 31), ymd(1984, 12, 31));
    assert_eq!(full(1984, 2, 29), ymd(1984, 2, 29));
    assert_eq!(full(1983, 2, 29), Err(ParseError::OutOfRange));
    assert_eq!(full(1983, 13, 1), Err(ParseError::OutOfRange));
    assert_eq!(full(1983, 12, 32), Err(ParseError::OutOfRange));
    assert_eq!(full(1983, 12, 0), Err(ParseError::OutOfRange));
    assert_eq!(full(100, 1, 1), ymd(100, 1, 1));
    assert_eq!(full(0, 1, 1), ymd(0, 1, 1));
    assert_eq!(full(-1, 1, 1), ymd(-1, 1, 1));
    assert_eq!(full(262_144, 1, 1), Err(ParseError::OutOfRange));
    assert_eq!(full(-262_145, 1, 1), Err(ParseError::OutOfRange));
    assert_eq!(full(i32::MAX, 1, 1), Err(ParseError::OutOfRange));
    assert_eq!(full(i32::MIN, 1, 1), Err(ParseError::OutOfRange));
}

#[test]
fn parsed_to_date_by_century_and_two_digit_year() {
    let ymd = |y, m, d| Ok(NaiveDate::from_ymd(y, m, d));
    let with = |y: Option<i32>, q: Option<i32>, r: Option<i32>| {
        parsed_with(&move |p: &mut Parsed| {
            p.year = y;
            p.year_div_100 = q;
            p.year_mod_100 = r;
            p.month = Some(1);
            p.day = Some(1);
        })
        .to_naive_date()
    };
    assert_eq!(with(None, Some(19), Some(84)), ymd(1984, 1, 1));
    assert_eq!(with(None, Some(19), None), Err(ParseError::NotEnough));
    assert_eq!(with(None, Some(19), Some(100)), Err(ParseError::OutOfRange));
    assert_eq!(with(None, Some(19), Some(-1)), Err(ParseError::OutOfRange));
    assert_eq!(with(None, Some(0), Some(0)), ymd(0, 1, 1));
    assert_eq!(with(None, Some(-1), Some(0)), Err(ParseError::OutOfRange));
    assert_eq!(with(None, Some(-1), Some(99)), Err(ParseError::OutOfRange));
    assert_eq!(with(None, Some(i32::MAX), Some(0)), Err(ParseError::OutOfRange));
    assert_eq!(with(None, Some(i32::MAX / 100), Some(48)), Err(ParseError::OutOfRange));
    assert_eq!(with(None, None, Some(70)), ymd(1970, 1, 1));
    assert_eq!(with(None, None, Some(69)), ymd(2069, 1, 1));
    assert_eq!(with(None, None, Some(0)), ymd(2000, 1, 1));
    assert_eq!(with(None, None, Some(99)), ymd(1999, 1, 1));
    assert_eq!(with(Some(1984), Some(19), Some(84)), ymd(1984, 1, 1));
    assert_eq!(with(Some(1984), Some(20), Some(84)), Err(ParseError::Impossible));
    assert_eq!(with(Some(1984), Some(19), Some(85)), Err(ParseError::Impossible));
    assert_eq!(with(Some(1984), Some(19), None), ymd(1984, 1, 1));
    assert_eq!(with(Some(1984), None, Some(84)), ymd(1984, 1, 1));
    assert_eq!(with(Some(1984), None, Some(100)), Err(ParseError::OutOfRange));
    assert_eq!(with(Some(-1), Some(0), Some(1)), Err(ParseError::OutOfRange));
    assert_eq!(with(Some(-1), Some(-1), Some(99)), Err(ParseError::OutOfRange));
    assert_eq!(with(Some(-1), None, None), ymd(-1, 1, 1));
}

#[test]
fn parsed_to_date_by_weeks() {
    let ymd = |y, m, d| Ok(NaiveDate::from_ymd(y, m, d));
    let mon = |y: i32, w: u32, wd: Option<Weekday>| {
        parsed_with(&move |p: &mut Parsed| {
            p.year = Some(y);
            p.week_from_mon = Some(w);
            p.weekday = wd;
        })
        .to_naive_date()
    };
    let sun = |y: i32, w: u32, wd: Option<Weekday>| {
        parsed_with(&move |p: &mut Parsed| {
            p.year = Some(y);
            p.week_from_sun = Some(w);
            p.weekday = wd;
        })
        .to_naive_date()
    };
    // 2000-01-01 is Saturday
    assert_eq!(mon(2000, 0, None), Err(ParseError::NotEnough));
    assert_eq!(sun(2000, 0, None), Err(ParseError::NotEnough));
    assert_eq!(mon(2000, 0, Some(Weekday::Fri)), Err(ParseError::OutOfRange));
    assert_eq!(sun(2000, 0, Some(Weekday::Fri)), Err(ParseError::OutOfRange));
    assert_eq!(mon(2000, 0, Some(Weekday::Sat)), ymd(2000, 1, 1));
    assert_eq!(sun(2000, 0, Some(Weekday::Sat)), ymd(2000, 1, 1));
    assert_eq!(mon(2000, 0, Some(Weekday::Sun)), ymd(2000, 1, 2));
    assert_eq!(sun(2000, 1, Some(Weekday::Sun)), ymd(2000, 1, 2));
    assert_eq!(mon(2000, 1, Some(Weekday::Mon)), ymd(2000, 1, 3));
    assert_eq!(sun(2000, 1, Some(Weekday::Mon)), ymd(2000, 1, 3));
    assert_eq!(mon(2000, 1, Some(Weekday::Sat)), ymd(2000, 1, 8));
    assert_eq!(sun(2000, 1, Some(Weekday::Sat)), ymd(2000, 1, 8));
    assert_eq!(mon(2000, 1, Some(Weekday::Sun)), ymd(2000, 1, 9));
    assert_eq!(sun(2000, 2, Some(Weekday::Sun)), ymd(2000, 1, 9));
    assert_eq!(mon(2000, 2, Some(Weekday::Mon)), ymd(2000, 1, 10));
    assert_eq!(sun(2000, 52, Some(Weekday::Sat)), ymd(2000, 12, 30));
    assert_eq!(sun(2000, 53, Some(Weekday::Sun)), ymd(2000, 12, 31));
    assert_eq!(sun(2000, 53, Some(Weekday::Mon)), Err(ParseError::OutOfRange));
    assert_eq!(sun(2000, 0xffffffff, Some(Weekday::Mon)), Err(ParseError::OutOfRange));
    assert_eq!(sun(2006, 0, Some(Weekday::Sat)), Err(ParseError::OutOfRange));
    assert_eq!(sun(2006, 1, Some(Weekday::Sun)), ymd(2006, 1, 1));
    // weeks that disagree
    let both = |wm: u32, ws: u32, wd: Weekday| {
        parsed_with(&move |p: &mut Parsed| {
            p.year = Some(2000);
            p.week_from_mon = Some(wm);
            p.week_from_sun = Some(ws);
            p.weekday = Some(wd);
        })
        .to_naive_date()
    };
    assert_eq!(both(1, 1, Weekday::Sat), ymd(2000, 1, 8));
    assert_eq!(both(1, 2, Weekday::Sun), ymd(2000, 1, 9));
    assert_eq!(both(1, 1, Weekday::Sun), Err(ParseError::Impossible));
    assert_eq!(both(2, 2, Weekday::Sun), Err(ParseError::Impossible));
}

#[test]
fn parsed_to_date_by_iso_week() {
    let ymd = |y, m, d| Ok(NaiveDate::from_ymd(y, m, d));
    let iso = |y: i32, w: Option<u32>, wd: Option<Weekday>| {
        parsed_with(&move |p: &mut Parsed| {
            p.isoyear = Some(y);
            p.isoweek = w;
            p.weekday = wd;
        })
        .to_naive_date()
    };
    assert_eq!(iso(2004, Some(53), None), Err(ParseError::NotEnough));
    assert_eq!(iso(2004, Some(53), Some(Weekday::Fri)), ymd(2004, 12, 31));
    assert_eq!(iso(2004, Some(53), Some(Weekday::Sat)), ymd(2005, 1, 1));
    assert_eq!(iso(2004, Some(0xffffffff), Some(Weekday::Sat)), Err(ParseError::OutOfRange));
    assert_eq!(iso(2005, Some(0), Some(Weekday::Thu)), Err(ParseError::OutOfRange));
    assert_eq!(iso(2005, Some(5), Some(Weekday::Thu)), ymd(2005, 2, 3));
    assert_eq!(iso(2005, None, Some(Weekday::Thu)), Err(ParseError::NotEnough));
    assert_eq!(iso(2005, Some(53), Some(Weekday::Mon)), Err(ParseError::OutOfRange));
    assert_eq!(iso(2005, Some(52), Some(Weekday::Sun)), ymd(2006, 1, 1));
    assert_eq!(iso(2009, Some(53), Some(Weekday::Thu)), ymd(2009, 12, 31));
    assert_eq!(iso(2009, Some(1), Some(Weekday::Mon)), ymd(2008, 12, 29));
    assert_eq!(iso(i32::MAX, Some(1), Some(Weekday::Mon)), Err(ParseError::OutOfRange));
    for date in [NaiveDate::min_value(), NaiveDate::max_value(), NaiveDate::from_ymd(1, 1, 1)].iter() {
        let (year, week, weekday) = date.isoweekdate();
        assert_eq!(iso(year, Some(week), Some(weekday)), Ok(*date));
    }
    assert_eq!(iso(262_144, Some(1), Some(Weekday::Mon)), ymd(262_143, 12, 30));
    assert_eq!(iso(262_144, Some(1), Some(Weekday::Wed)), Err(ParseError::OutOfRange));
}

#[test]
fn parsed_to_date_holds_fields_against_one_another() {
    let ymd = |y, m, d| Ok(NaiveDate::from_ymd(y, m, d));
    let date = |fill: &dyn Fn(&mut Parsed)| parsed_with(fill).to_naive_date();
    let all = |year: i32, ordinal: u32, weekday: Weekday| {
        date(&move |p: &mut Parsed| {
            p.year = Some(year);
            p.year_div_100 = Some(20);
            p.year_mod_100 = Some(14);
            p.month = Some(12);
            p.day = Some(31);
            p.ordinal = Some(ordinal);
            p.isoyear = Some(2015);
            p.isoyear_div_100 = Some(20);
            p.isoyear_mod_100 = Some(15);
            p.isoweek = Some(1);
            p.week_from_sun = Some(52);
            p.week_from_mon = Some(52);
            p.weekday = Some(weekday);
        })
    };
    assert_eq!(all(2014, 365, Weekday::Wed), ymd(2014, 12, 31));
    assert_eq!(all(2014, 364, Weekday::Wed), Err(ParseError::Impossible));
    assert_eq!(all(2014, 365, Weekday::Thu), Err(ParseError::Impossible));
    assert_eq!(
        date(&|p| {
            p.year = Some(2014);
            p.ordinal = Some(365);
            p.month = Some(11);
        }),
        Err(ParseError::Impossible)
    );
    assert_eq!(
        date(&|p| {
            p.year = Some(2014);
            p.ordinal = Some(366);
        }),
        Err(ParseError::OutOfRange)
    );
    assert_eq!(
        date(&|p| {
            p.year = Some(-1);
            p.month = Some(1);
            p.day = Some(1);
            p.isoyear_div_100 = Some(0);
        }),
        Err(ParseError::NotEnough)
    );
}

#[test]
fn parsed_to_time() {
    let hmsn = |h, m, s, n| Ok(naive_datetime::NaiveTime::from_hms_nano(h, m, s, n));
    let time = |fill: &dyn Fn(&mut Parsed)| parsed_with(fill).to_naive_time();
    assert_eq!(time(&|_| {}), Err(ParseError::NotEnough));
    assert_eq!(time(&|p| p.hour_div_12 = Some(0)), Err(ParseError::NotEnough));
    assert_eq!(
        time(&|p| {
            p.hour_div_12 = Some(0);
            p.hour_mod_12 = Some(1);
        }),
        Err(ParseError::NotEnough)
    );
    let full = |half: u32, hour: u32, min: u32, sec: Option<u32>, nano: Option<u32>| {
        time(&move |p: &mut Parsed| {
            p.hour_div_12 = Some(half);
            p.hour_mod_12 = Some(hour);
            p.minute = Some(min);
            p.second = sec;
            p.nanosecond = nano;
        })
    };
    assert_eq!(full(0, 1, 23, None, None), hmsn(1, 23, 0, 0));
    assert_eq!(full(0, 1, 23, Some(45), None), hmsn(1, 23, 45, 0));
    assert_eq!(full(0, 1, 23, Some(45), Some(678_901_234)), hmsn(1, 23, 45, 678_901_234));
    assert_eq!(full(1, 11, 45, Some(6), Some(78_901_234)), hmsn(23, 45, 6, 78_901_234));
    assert_eq!(full(0, 1, 23, None, Some(456_789_012)), Err(ParseError::NotEnough));
    assert_eq!(full(2, 0, 0, None, None), Err(ParseError::OutOfRange));
    assert_eq!(full(1, 12, 0, None, None), Err(ParseError::OutOfRange));
    assert_eq!(full(0, 1, 60, None, None), Err(ParseError::OutOfRange));
    assert_eq!(full(0, 1, 23, Some(61), None), Err(ParseError::OutOfRange));
    assert_eq!(full(0, 1, 23, Some(34), Some(1_000_000_000)), Err(ParseError::OutOfRange));
    assert_eq!(full(0, 1, 23, None, Some(1_000_000_000)), Err(ParseError::OutOfRange));
    // leap seconds
    assert_eq!(full(0, 1, 23, Some(60), None), hmsn(1, 23, 59, 1_000_000_000));
    assert_eq!(full(0, 1, 23, Some(60), Some(999_999_999)), hmsn(1, 23, 59, 1_999_999_999));
}

#[test]
fn parsed_to_datetime_with_timestamp() {
    let ymdhms = |y, m, d, h, n, s| Ok(NaiveDate::from_ymd(y, m, d).and_hms(h, n, s));
    let ymdhmsn = |y, m, d, h, n, s, nano| Ok(NaiveDate::from_ymd(y, m, d).and_hms_nano(h, n, s, nano));
    let at = |offset: i32, fill: &dyn Fn(&mut Parsed)| {
        parsed_with(fill).to_naive_datetime_with_offset(offset)
    };
    assert_eq!(at(0, &|_| {}), Err(ParseError::NotEnough));
    assert_eq!(
        at(0, &|p| {
            p.year = Some(2015);
            p.month = Some(1);
            p.day = Some(30);
            p.hour_div_12 = Some(1);
            p.hour_mod_12 = Some(2);
            p.minute = Some(38);
        }),
        ymdhms(2015, 1, 30, 14, 38, 0)
    );
    assert_eq!(
        at(0, &|p| {
            p.year = Some(2015);
            p.month = Some(1);
            p.day = Some(30);
        }),
        Err(ParseError::NotEnough)
    );
    assert_eq!(
        at(0, &|p| {
            p.hour_div_12 = Some(1);
            p.hour_mod_12 = Some(2);
            p.minute = Some(38);
        }),
        Err(ParseError::NotEnough)
    );
    let stamp = |offset: i32, timestamp: i64| at(offset, &move |p: &mut Parsed| p.timestamp = Some(timestamp));
    assert_eq!(stamp(0, 0), ymdhms(1970, 1, 1, 0, 0, 0));
    assert_eq!(stamp(0, 1), ymdhms(1970, 1, 1, 0, 0, 1));
    assert_eq!(stamp(0, -1), ymdhms(1969, 12, 31, 23, 59, 59));
    assert_eq!(stamp(0, 1_420_000_000), ymdhms(2014, 12, 31, 4, 26, 40));
    assert_eq!(stamp(-9876, 1_420_000_000), ymdhms(2014, 12, 31, 1, 42, 4));
    assert_eq!(stamp(0, i64::MAX), Err(ParseError::OutOfRange));
    assert_eq!(stamp(1, i64::MAX), Err(ParseError::OutOfRange));
    assert_eq!(stamp(-1, i64::MIN), Err(ParseError::OutOfRange));
    // a timestamp beside date and time fields must agree with them
    let both = |offset: i32, timestamp: i64, second: Option<u32>, nanosecond: Option<u32>| {
        at(offset, &move |p: &mut Parsed| {
            p.year = Some(2014);
            p.year_div_100 = Some(20);
            p.year_mod_100 = Some(14);
            p.month = Some(12);
            p.day = Some(31);
            p.ordinal = Some(365);
            p.isoyear = Some(2015);
            p.isoweek = Some(1);
            p.weekday = Some(Weekday::Wed);
            p.hour_div_12 = Some(0);
            p.hour_mod_12 = Some(4);
            p.minute = Some(26);
            p.second = second;
            p.nanosecond = nanosecond;
            p.timestamp = Some(timestamp);
        })
    };
    assert_eq!(
        both(0, 1_420_000_000, Some(40), Some(12_345_678)),
        ymdhmsn(2014, 12, 31, 4, 26, 40, 12_345_678)
    );
    assert_eq!(both(0, 1_419_999_999, Some(40), Some(12_345_678)), Err(ParseError::Impossible));
    assert_eq!(both(32_400, 1_419_967_600, Some(40), None), ymdhms(2014, 12, 31, 4, 26, 40));
    assert_eq!(both(32_400, 1_420_000_000, Some(40), None), Err(ParseError::Impossible));
    // a partial date and time is completed from the timestamp
    let partial = |timestamp: i64, second: Option<u32>| {
        at(0, &move |p: &mut Parsed| {
            p.second = second;
            p.timestamp = Some(timestamp);
        })
    };
    assert_eq!(partial(1_341_100_798, Some(59)), Err(ParseError::Impossible));
    assert_eq!(partial(1_341_100_799, Some(59)), ymdhms(2012, 6, 30, 23, 59, 59));
    assert_eq!(partial(1_341_100_800, Some(59)), Err(ParseError::Impossible));
    assert_eq!(partial(1_341_100_799, Some(60)), ymdhmsn(2012, 6, 30, 23, 59, 59, 1_000_000_000));
    assert_eq!(partial(1_341_100_800, Some(60)), ymdhmsn(2012, 6, 30, 23, 59, 59, 1_000_000_000));
    assert_eq!(partial(1_341_100_800, Some(0)), ymdhms(2012, 7, 1, 0, 0, 0));
    assert_eq!(partial(1_341_100_800, Some(1)), Err(ParseError::Impossible));
    assert_eq!(partial(1_341_100_801, Some(60)), Err(ParseError::Impossible));
    // an error in the fields comes before the timestamp
    assert_eq!(
        at(0, &|p| {
            p.year = Some(2014);
            p.month = Some(13);
            p.day = Some(1);
            p.timestamp = Some(0);
        }),
        Err(ParseError::OutOfRange)
    );
    assert_eq!(
        at(0, &|p| {
            p.year = Some(1971);
            p.year_mod_100 = Some(70);
            p.timestamp = Some(0);
        }),
        Err(ParseError::Impossible)
    );
    assert_eq!(
        at(0, &|p| {
            p.year = Some(1971);
            p.timestamp = Some(0);
        }),
        Err(ParseError::Impossible)
    );
    // the earliest second as the second after a leap second has no date
    let first = NaiveDate::min_value().and_hms(0, 0, 0).timestamp();
    assert_eq!(partial(first, Some(60)), Err(ParseError::OutOfRange));
    assert_eq!(partial(first, None), Ok(NaiveDate::min_value().and_hms(0, 0, 0)));
}

fn parse_all(s: &str, items: &[Item]) -> Result<Parsed, ParseError> {
    parse(Parsed::new(), s, &items.to_vec())
}

#[test]
fn parse_literals_and_space() {
    let lit = |s: &str| Item::Literal(s.to_string());
    let sp = |s: &str| Item::Space(s.to_string());
    let empty = Ok(Parsed::new());
    assert_eq!(parse_all("", &[]), empty);
    assert_eq!(parse_all(" ", &[]), Err(ParseError::TooLong));
    assert_eq!(parse_all("a", &[]), Err(ParseError::TooLong));
    assert_eq!(parse_all("", &[sp("")]), empty);
    assert_eq!(parse_all(" ", &[sp("")]), empty);
    assert_eq!(parse_all("\t", &[sp("")]), empty);
    assert_eq!(parse_all(" \n\r  \n", &[sp("")]), empty);
    assert_eq!(parse_all("", &[sp("a")]), empty);
    assert_eq!(parse_all(" ", &[sp("a")]), empty);
    assert_eq!(parse_all("a", &[sp("")]), Err(ParseError::TooLong));
    assert_eq!(parse_all("", &[lit("a")]), Err(ParseError::TooShort));
    assert_eq!(parse_all(" ", &[lit("a")]), Err(ParseError::Invalid));
    assert_eq!(parse_all("a", &[lit("a")]), empty);
    assert_eq!(parse_all("aa", &[lit("a")]), Err(ParseError::TooLong));
    assert_eq!(parse_all("A", &[lit("a")]), Err(ParseError::Invalid));
    assert_eq!(parse_all("xy", &[lit("xy")]), empty);
    assert_eq!(parse_all("xy", &[lit("x"), lit("y")]), empty);
    assert_eq!(parse_all("x y", &[lit("x"), lit("y")]), Err(ParseError::Invalid));
    assert_eq!(parse_all("xy", &[lit("x"), sp(""), lit("y")]), empty);
    assert_eq!(parse_all("x y", &[lit("x"), sp(""), lit("y")]), empty);
    // lengths are counted in bytes
    assert_eq!(parse_all("é", &[lit("ab")]), Err(ParseError::Invalid));
    assert_eq!(parse_all("é", &[lit("abc")]), Err(ParseError::TooShort));
    assert_eq!(parse_all("ab", &[lit("é")]), Err(ParseError::Invalid));
    assert_eq!(parse_all("a", &[lit("é")]), Err(ParseError::TooShort));
    assert_eq!(parse_all("é", &[lit("é")]), empty);
    assert_eq!(parse_all("x", &[Item::Error]), Err(ParseError::BadFormat));
}

#[test]
fn parse_numbers() {
    let year = |s: &str| parse_all(s, &[Item::Numeric(Numeric::Year, Pad::Zero)]).map(|p| p.year);
    assert_eq!(year("1987"), Ok(Some(1987)));
    assert_eq!(year("1987 "), Err(ParseError::TooLong));
    assert_eq!(year("0x12"), Err(ParseError::TooLong));
    assert_eq!(year("x123"), Err(ParseError::Invalid));
    assert_eq!(year("2015"), Ok(Some(2015)));
    assert_eq!(year("0000"), Ok(Some(0)));
    assert_eq!(year("9999"), Ok(Some(9999)));
    assert_eq!(year(" \t987"), Ok(Some(987)));
    assert_eq!(year("5"), Ok(Some(5)));
    assert_eq!(year("5\0"), Err(ParseError::TooLong));
    assert_eq!(year("\05"), Err(ParseError::Invalid));
    assert_eq!(year(""), Err(ParseError::TooShort));
    assert_eq!(year("12345"), Err(ParseError::TooLong));
    assert_eq!(year("+12345"), Ok(Some(12345)));
    assert_eq!(year("+9999"), Ok(Some(9999)));
    assert_eq!(year("-0042"), Ok(Some(-42)));
    assert_eq!(year("-42"), Ok(Some(-42)));
    assert_eq!(year("-9999"), Ok(Some(-9999)));
    assert_eq!(year("+42195"), Ok(Some(42195)));
    assert_eq!(year("  -42195"), Ok(Some(-42195)));
    assert_eq!(year("+0"), Ok(Some(0)));
    assert_eq!(year("-0"), Ok(Some(0)));
    assert_eq!(year("  +   42"), Err(ParseError::Invalid));
    assert_eq!(year("-"), Err(ParseError::TooShort));
    assert_eq!(year("+"), Err(ParseError::TooShort));
    assert_eq!(year("+2147483648"), Err(ParseError::OutOfRange));
    assert_eq!(year("-2147483648"), Ok(Some(i32::MIN)));
    assert_eq!(year("-2147483649"), Err(ParseError::OutOfRange));
    assert_eq!(year("+9223372036854775808"), Err(ParseError::OutOfRange));
    let one = |kind: Numeric, s: &str| parse_all(s, &[Item::Numeric(kind, Pad::Zero)]);
    assert_eq!(one(Numeric::YearDiv100, "19").map(|p| p.year_div_100), Ok(Some(19)));
    assert_eq!(one(Numeric::YearDiv100, "-19"), Err(ParseError::Invalid));
    assert_eq!(one(Numeric::YearDiv100, "+19"), Err(ParseError::Invalid));
    assert_eq!(one(Numeric::YearMod100, "84").map(|p| p.year_mod_100), Ok(Some(84)));
    assert_eq!(one(Numeric::IsoYear, "-77").map(|p| p.isoyear), Ok(Some(-77)));
    assert_eq!(one(Numeric::IsoYearDiv100, "20").map(|p| p.isoyear_div_100), Ok(Some(20)));
    assert_eq!(one(Numeric::IsoYearMod100, "15").map(|p| p.isoyear_mod_100), Ok(Some(15)));
    assert_eq!(one(Numeric::Month, "1").map(|p| p.month), Ok(Some(1)));
    assert_eq!(one(Numeric::Month, "99").map(|p| p.month), Ok(Some(99)));
    assert_eq!(one(Numeric::Month, "123"), Err(ParseError::TooLong));
    assert_eq!(one(Numeric::Day, "31").map(|p| p.day), Ok(Some(31)));
    assert_eq!(one(Numeric::WeekFromSun, "52").map(|p| p.week_from_sun), Ok(Some(52)));
    assert_eq!(one(Numeric::WeekFromMon, "0").map(|p| p.week_from_mon), Ok(Some(0)));
    assert_eq!(one(Numeric::IsoWeek, "53").map(|p| p.isoweek), Ok(Some(53)));
    assert_eq!(one(Numeric::NumDaysFromSun, "0").map(|p| p.weekday), Ok(Some(Weekday::Sun)));
    assert_eq!(one(Numeric::NumDaysFromSun, "6").map(|p| p.weekday), Ok(Some(Weekday::Sat)));
    assert_eq!(one(Numeric::NumDaysFromSun, "7"), Err(ParseError::OutOfRange));
    assert_eq!(one(Numeric::NumDaysFromSun, "10"), Err(ParseError::TooLong));
    assert_eq!(one(Numeric::WeekdayFromMon, "1").map(|p| p.weekday), Ok(Some(Weekday::Mon)));
    assert_eq!(one(Numeric::WeekdayFromMon, "7").map(|p| p.weekday), Ok(Some(Weekday::Sun)));
    assert_eq!(one(Numeric::WeekdayFromMon, "0"), Err(ParseError::OutOfRange));
    assert_eq!(one(Numeric::WeekdayFromMon, "8"), Err(ParseError::OutOfRange));
    assert_eq!(one(Numeric::Ordinal, "366").map(|p| p.ordinal), Ok(Some(366)));
    assert_eq!(one(Numeric::Ordinal, "1000"), Err(ParseError::TooLong));
    assert_eq!(
        one(Numeric::Hour, "23").map(|p| (p.hour_div_12, p.hour_mod_12)),
        Ok((Some(1), Some(11)))
    );
    assert_eq!(one(Numeric::Hour12, "12").map(|p| p.hour_mod_12), Ok(Some(0)));
    assert_eq!(one(Numeric::Hour12, "1").map(|p| p.hour_mod_12), Ok(Some(1)));
    assert_eq!(one(Numeric::Hour12, "0"), Err(ParseError::OutOfRange));
    assert_eq!(one(Numeric::Hour12, "13"), Err(ParseError::OutOfRange));
    assert_eq!(one(Numeric::Minute, "59").map(|p| p.minute), Ok(Some(59)));
    assert_eq!(one(Numeric::Second, "60").map(|p| p.second), Ok(Some(60)));
    assert_eq!(one(Numeric::Nanosecond, "12345").map(|p| p.nanosecond), Ok(Some(12345)));
    assert_eq!(one(Numeric::Nanosecond, "999999999").map(|p| p.nanosecond), Ok(Some(999_999_999)));
    assert_eq!(one(Numeric::Nanosecond, "1234567890"), Err(ParseError::TooLong));
    assert_eq!(
        one(Numeric::Timestamp, "1234567890123").map(|p| p.timestamp),
        Ok(Some(1_234_567_890_123))
    );
    assert_eq!(
        one(Numeric::Timestamp, "9223372036854775807").map(|p| p.timestamp),
        Ok(Some(i64::MAX))
    );
    assert_eq!(one(Numeric::Timestamp, "9223372036854775808"), Err(ParseError::OutOfRange));
    assert_eq!(one(Numeric::Timestamp, "-5"), Err(ParseError::Invalid));
    // several numbers, with and without space between them
    let ymd = [
        Item::Numeric(Numeric::Year, Pad::Zero),
        Item::Numeric(Numeric::Ordinal, Pad::Zero),
    ];
    assert_eq!(parse_all("1987 12", &ymd).map(|p| (p.year, p.ordinal)), Ok((Some(1987), Some(12))));
    assert_eq!(parse_all("19871234", &ymd), Err(ParseError::TooLong));
    assert_eq!(parse_all("1987123", &ymd).map(|p| (p.year, p.ordinal)), Ok((Some(1987), Some(123))));
    // fields that are read twice must agree
    let twice = [
        Item::Numeric(Numeric::Month, Pad::Zero),
        Item::Literal("/".to_string()),
        Item::Numeric(Numeric::Month, Pad::Zero),
    ];
    assert_eq!(parse_all("07/7", &twice).map(|p| p.month), Ok(Some(7)));
    assert_eq!(parse_all("07/8", &twice), Err(ParseError::Impossible));
}

#[test]
fn parse_names() {
    let fixed = |kind: Fixed, s: &str| parse_all(s, &[Item::Fixed(kind)]);
    let month = |kind: Fixed, s: &str| fixed(kind, s).map(|p| p.month);
    let weekday = |kind: Fixed, s: &str| fixed(kind, s).map(|p| p.weekday);
    assert_eq!(month(Fixed::ShortMonthName, "apr"), Ok(Some(4)));
    assert_eq!(month(Fixed::ShortMonthName, "Apr"), Ok(Some(4)));
    assert_eq!(month(Fixed::ShortMonthName, "APR"), Ok(Some(4)));
    assert_eq!(month(Fixed::ShortMonthName, "ApR"), Ok(Some(4)));
    assert_eq!(month(Fixed::ShortMonthName, "April"), Err(ParseError::TooLong));
    assert_eq!(month(Fixed::ShortMonthName, "A"), Err(ParseError::TooShort));
    assert_eq!(month(Fixed::ShortMonthName, "Sol"), Err(ParseError::Invalid));
    assert_eq!(month(Fixed::ShortMonthName, "éa"), Err(ParseError::Invalid));
    assert_eq!(month(Fixed::ShortMonthName, "é"), Err(ParseError::TooShort));
    assert_eq!(month(Fixed::LongMonthName, "Apr"), Ok(Some(4)));
    assert_eq!(month(Fixed::LongMonthName, "Apri"), Err(ParseError::TooLong));
    assert_eq!(month(Fixed::LongMonthName, "April"), Ok(Some(4)));
    assert_eq!(month(Fixed::LongMonthName, "Aprill"), Err(ParseError::TooLong));
    assert_eq!(month(Fixed::LongMonthName, "Aprille"), Err(ParseError::TooLong));
    assert_eq!(month(Fixed::LongMonthName, "JANUARY"), Ok(Some(1)));
    assert_eq!(month(Fixed::LongMonthName, "may"), Ok(Some(5)));
    assert_eq!(month(Fixed::LongMonthName, "December"), Ok(Some(12)));
    assert_eq!(month(Fixed::LongMonthName, "Septembér"), Err(ParseError::TooLong));
    let names = [
        ("January", 1),
        ("February", 2),
        ("March", 3),
        ("April", 4),
        ("May", 5),
        ("June", 6),
        ("July", 7),
        ("August", 8),
        ("September", 9),
        ("October", 10),
        ("November", 11),
        ("December", 12),
    ];
    for &(name, number) in names.iter() {
        assert_eq!(month(Fixed::LongMonthName, name), Ok(Some(number)));
        assert_eq!(month(Fixed::ShortMonthName, &name[..3]), Ok(Some(number)));
        assert_eq!(month(Fixed::LongMonthName, &name.to_uppercase()), Ok(Some(number)));
    }
    assert_eq!(weekday(Fixed::ShortWeekdayName, "thu"), Ok(Some(Weekday::Thu)));
    assert_eq!(weekday(Fixed::ShortWeekdayName, "Thu"), Ok(Some(Weekday::Thu)));
    assert_eq!(weekday(Fixed::ShortWeekdayName, "THU"), Ok(Some(Weekday::Thu)));
    assert_eq!(weekday(Fixed::ShortWeekdayName, "tHu"), Ok(Some(Weekday::Thu)));
    assert_eq!(weekday(Fixed::ShortWeekdayName, "Thursday"), Err(ParseError::TooLong));
    assert_eq!(weekday(Fixed::ShortWeekdayName, "T"), Err(ParseError::TooShort));
    assert_eq!(weekday(Fixed::ShortWeekdayName, "The"), Err(ParseError::Invalid));
    assert_eq!(weekday(Fixed::ShortWeekdayName, "Nop"), Err(ParseError::Invalid));
    assert_eq!(weekday(Fixed::LongWeekdayName, "Thu"), Ok(Some(Weekday::Thu)));
    assert_eq!(weekday(Fixed::LongWeekdayName, "Thur"), Err(ParseError::TooLong));
    assert_eq!(weekday(Fixed::LongWeekdayName, "Thurs"), Err(ParseError::TooLong));
    assert_eq!(weekday(Fixed::LongWeekdayName, "Thursday"), Ok(Some(Weekday::Thu)));
    assert_eq!(weekday(Fixed::LongWeekdayName, "Thursdays"), Err(ParseError::TooLong));
    let days = [
        ("Monday", Weekday::Mon),
        ("Tuesday", Weekday::Tue),
        ("Wednesday", Weekday::Wed),
        ("Thursday", Weekday::Thu),
        ("Friday", Weekday::Fri),
        ("Saturday", Weekday::Sat),
        ("Sunday", Weekday::Sun),
    ];
    for &(name, day) in days.iter() {
        assert_eq!(weekday(Fixed::LongWeekdayName, name), Ok(Some(day)));
        assert_eq!(weekday(Fixed::ShortWeekdayName, &name[..3]), Ok(Some(day)));
    }
    let half = |kind: Fixed, s: &str| fixed(kind, s).map(|p| p.hour_div_12);
    assert_eq!(half(Fixed::LowerAmPm, "am"), Ok(Some(0)));
    assert_eq!(half(Fixed::LowerAmPm, "pm"), Ok(Some(1)));
    assert_eq!(half(Fixed::LowerAmPm, "AM"), Ok(Some(0)));
    assert_eq!(half(Fixed::LowerAmPm, "PM"), Ok(Some(1)));
    assert_eq!(half(Fixed::UpperAmPm, "am"), Ok(Some(0)));
    assert_eq!(half(Fixed::UpperAmPm, "pm"), Ok(Some(1)));
    assert_eq!(half(Fixed::UpperAmPm, "Am"), Ok(Some(0)));
    assert_eq!(half(Fixed::UpperAmPm, " Am"), Err(ParseError::Invalid));
    assert_eq!(half(Fixed::UpperAmPm, "ame"), Err(ParseError::TooLong));
    assert_eq!(half(Fixed::UpperAmPm, "a"), Err(ParseError::TooShort));
    assert_eq!(half(Fixed::UpperAmPm, "p"), Err(ParseError::TooShort));
    assert_eq!(half(Fixed::UpperAmPm, "x"), Err(ParseError::TooShort));
    assert_eq!(half(Fixed::UpperAmPm, "xx"), Err(ParseError::Invalid));
    assert_eq!(half(Fixed::UpperAmPm, ""), Err(ParseError::TooShort));
    assert_eq!(half(Fixed::UpperAmPm, "é"), Err(ParseError::Invalid));
    assert_eq!(fixed(Fixed::TimezoneName, "UTC"), Err(ParseError::BadFormat));
}

#[test]
fn parse_fractions_and_offsets() {
    let fixed = |kind: Fixed, s: &str| parse_all(s, &[Item::Fixed(kind)]);
    let nano = |s: &str| fixed(Fixed::Nanosecond, s).map(|p| p.nanosecond);
    assert_eq!(nano(""), Ok(None)); // no field set, but not an error
    assert_eq!(nano("4"), Err(ParseError::TooLong)); // never consumes `4`
    assert_eq!(nano("."), Err(ParseError::TooShort));
    assert_eq!(nano(".4"), Ok(Some(400_000_000)));
    assert_eq!(nano(".42"), Ok(Some(420_000_000)));
    assert_eq!(nano(".421"), Ok(Some(421_000_000)));
    assert_eq!(nano(".42195"), Ok(Some(421_950_000)));
    assert_eq!(nano(".421950803"), Ok(Some(421_950_803)));
    assert_eq!(nano(".421950803547"), Ok(Some(421_950_803)));
    assert_eq!(nano(".000000003547"), Ok(Some(3)));
    assert_eq!(nano(".000000000547"), Ok(Some(0)));
    assert_eq!(nano(".4x"), Err(ParseError::TooLong));
    assert_eq!(nano(".  4"), Err(ParseError::Invalid));
    assert_eq!(nano("  .4"), Err(ParseError::TooLong)); // no automatic trimming
    for kind in [Fixed::Nanosecond3, Fixed::Nanosecond6, Fixed::Nanosecond9].iter() {
        assert_eq!(fixed(*kind, ".42195").map(|p| p.nanosecond), Ok(Some(421_950_000)));
    }
    let offset = |s: &str| fixed(Fixed::TimezoneOffset, s).map(|p| p.offset);
    assert_eq!(offset(""), Err(ParseError::TooShort));
    assert_eq!(offset("12345"), Err(ParseError::Invalid));
    assert_eq!(offset("12345:"), Err(ParseError::Invalid));
    assert_eq!(offset("+"), Err(ParseError::TooShort));
    assert_eq!(offset("+1"), Err(ParseError::TooShort));
    assert_eq!(offset("+12"), Err(ParseError::TooShort));
    assert_eq!(offset("+123"), Err(ParseError::TooShort));
    assert_eq!(offset("+1234"), Ok(Some(45_240)));
    assert_eq!(offset("+12345"), Err(ParseError::TooLong));
    assert_eq!(offset("-1"), Err(ParseError::TooShort));
    assert_eq!(offset("-12"), Err(ParseError::TooShort));
    assert_eq!(offset("-123"), Err(ParseError::TooShort));
    assert_eq!(offset("-1234"), Ok(Some(-45_240)));
    assert_eq!(offset("-12345"), Err(ParseError::TooLong));
    assert_eq!(offset("+12:34"), Ok(Some(45_240)));
    assert_eq!(offset("-12:34"), Ok(Some(-45_240)));
    assert_eq!(offset("+12 34"), Ok(Some(45_240)));
    assert_eq!(offset("+12 : 34"), Ok(Some(45_240)));
    assert_eq!(offset("+12 :: 34"), Ok(Some(45_240)));
    assert_eq!(offset("  +12:34"), Ok(Some(45_240)));
    assert_eq!(offset("+12:34 "), Err(ParseError::TooLong));
    assert_eq!(offset("+12:60"), Err(ParseError::OutOfRange));
    assert_eq!(offset("+12:59"), Ok(Some(46_740)));
    assert_eq!(offset("+00:00"), Ok(Some(0)));
    assert_eq!(offset("-00:00"), Ok(Some(0)));
    assert_eq!(offset("+00:59"), Ok(Some(3_540)));
    assert_eq!(offset("+00:60"), Err(ParseError::OutOfRange));
    assert_eq!(offset("+00:99"), Err(ParseError::OutOfRange));
    assert_eq!(offset("+99:00"), Ok(Some(356_400)));
    assert_eq!(offset("-99:00"), Ok(Some(-356_400)));
    assert_eq!(offset("+éé"), Err(ParseError::Invalid));
    assert_eq!(offset("+1é"), Err(ParseError::Invalid));
    assert_eq!(offset("+é"), Err(ParseError::Invalid));
    assert_eq!(offset("+12:é"), Err(ParseError::Invalid));
    assert_eq!(offset("+12:x"), Err(ParseError::TooShort));
    assert_eq!(offset("Z"), Err(ParseError::Invalid));
    assert_eq!(offset("z"), Err(ParseError::Invalid));
    assert_eq!(fixed(Fixed::TimezoneOffsetColon, "+12:34").map(|p| p.offset), Ok(Some(45_240)));
    assert_eq!(fixed(Fixed::TimezoneOffsetColon, "+1234").map(|p| p.offset), Ok(Some(45_240)));
    assert_eq!(fixed(Fixed::TimezoneOffsetZ, "Z").map(|p| p.offset), Ok(Some(0)));
    assert_eq!(fixed(Fixed::TimezoneOffsetZ, "z").map(|p| p.offset), Ok(Some(0)));
    assert_eq!(fixed(Fixed::TimezoneOffsetZ, " Z").map(|p| p.offset), Ok(Some(0)));
    assert_eq!(fixed(Fixed::TimezoneOffsetZ, "Y"), Err(ParseError::Invalid));
    assert_eq!(fixed(Fixed::TimezoneOffsetZ, "Zulu"), Err(ParseError::TooLong));
    assert_eq!(fixed(Fixed::TimezoneOffsetZ, "+12:34").map(|p| p.offset), Ok(Some(45_240)));
    assert_eq!(fixed(Fixed::TimezoneOffsetColonZ, "-12:34").map(|p| p.offset), Ok(Some(-45_240)));
    assert_eq!(fixed(Fixed::TimezoneOffsetColonZ, "Z").map(|p| p.offset), Ok(Some(0)));
}

#[test]
fn parse_rfc3339() {
    let read = |s: &str| NaiveDateTime::parse_from_str(s, "%+");
    let ymdhmsn = |y, m, d, h, n, s, nano| Ok(NaiveDate::from_ymd(y, m, d).and_hms_nano(h, n, s, nano));
    assert_eq!(read("2015-01-20T17:35:20-08:00"), ymdhmsn(2015, 1, 20, 17, 35, 20, 0));
    assert_eq!(read("1944-06-06T04:04:00Z"), ymdhmsn(1944, 6, 6, 4, 4, 0, 0));
    assert_eq!(read("2001-09-11T09:45:00-08:00"), ymdhmsn(2001, 9, 11, 9, 45, 0, 0));
    assert_eq!(read("2015-01-20T17:35:20.001-08:00"), ymdhmsn(2015, 1, 20, 17, 35, 20, 1_000_000));
    assert_eq!(read("2015-01-20T17:35:20.000031-08:00"), ymdhmsn(2015, 1, 20, 17, 35, 20, 31_000));
    assert_eq!(
        read("2015-01-20T17:35:20.000000031-08:00"),
        ymdhmsn(2015, 1, 20, 17, 35, 20, 31)
    );
    assert_eq!(
        read("2015-01-20T17:35:20.000000000452-08:00"),
        ymdhmsn(2015, 1, 20, 17, 35, 20, 0)
    );
    assert_eq!(read("2015-02-30T17:35:20-08:00"), Err(ParseError::OutOfRange));
    assert_eq!(read("2015-01-20T25:35:20-08:00"), Err(ParseError::OutOfRange));
    assert_eq!(read("2015-01-20T17:65:20-08:00"), Err(ParseError::OutOfRange));
    assert_eq!(read("2015-01-20T17:35:90-08:00"), Err(ParseError::OutOfRange));
    assert_eq!(read("2015-01-20T17:35:20-24:00"), Err(ParseError::OutOfRange));
    assert_eq!(read("2015-01-20T17:35:20-23:59"), ymdhmsn(2015, 1, 20, 17, 35, 20, 0));
    assert_eq!(read("2015-01-20t17:35:20z"), ymdhmsn(2015, 1, 20, 17, 35, 20, 0));
    assert_eq!(read("2015-01-20 17:35:20Z"), Err(ParseError::Invalid));
    assert_eq!(read("2015-1-20T17:35:20Z"), Err(ParseError::Invalid));
    assert_eq!(read("15-01-20T17:35:20Z"), Err(ParseError::Invalid));
    assert_eq!(read("2015-01-20T17:35:20"), Err(ParseError::TooShort));
    assert_eq!(read("2015-01-20T17:35:20-0800"), Err(ParseError::Invalid));
    assert_eq!(read("2015-01-20T17:35:20-08"), Err(ParseError::TooShort));
    assert_eq!(read("2015-01-20"), Err(ParseError::TooShort));
    assert_eq!(read("2015-01-20T17:35:20Zx"), Err(ParseError::TooLong));
    assert_eq!(read("2015-01-20T17:35:60Z"), ymdhmsn(2015, 1, 20, 17, 35, 59, 1_000_000_000));
}

#[test]
fn parse_from_str_examples() {
    let parse_from_str = NaiveDateTime::parse_from_str;
    assert_eq!(
        parse_from_str("2015-09-05 23:56:04", "%Y-%m-%d %H:%M:%S"),
        Ok(NaiveDate::from_ymd(2015, 9, 5).and_hms(23, 56, 4))
    );
    assert_eq!(
        parse_from_str("5sep2015pm012345.6789", "%d%b%Y%p%I%M%S%.f"),
        Ok(NaiveDate::from_ymd(2015, 9, 5).and_hms_micro(13, 23, 45, 678_900))
    );
    assert_eq!(
        parse_from_str("2014-5-17T12:34:56+09:30", "%Y-%m-%dT%H:%M:%S%z"),
        Ok(NaiveDate::from_ymd(2014, 5, 17).and_hms(12, 34, 56))
    );
    assert_eq!(
        parse_from_str("2015-07-01 08:59:60.123", "%Y-%m-%d %H:%M:%S%.f"),
        Ok(NaiveDate::from_ymd(2015, 7, 1).and_hms_milli(8, 59, 59, 1_123))
    );
    assert_eq!(
        parse_from_str("94/9/4 7:15", "%y/%m/%d %H:%M"),
        Ok(NaiveDate::from_ymd(1994, 9, 4).and_hms(7, 15, 0))
    );
    assert!(parse_from_str("04m33s", "%Mm%Ss").is_err());
    assert!(parse_from_str("94/9/4 12", "%y/%m/%d %H").is_err());
    assert!(parse_from_str("94/9/4 17:60", "%y/%m/%d %H:%M").is_err());
    assert!(parse_from_str("94/9/4 24:00:00", "%y/%m/%d %H:%M:%S").is_err());
    let fmt = "%Y-%m-%d %H:%M:%S = UNIX timestamp %s";
    assert!(parse_from_str("2001-09-09 01:46:39 = UNIX timestamp 999999999", fmt).is_ok());
    assert!(parse_from_str("1970-01-01 00:00:00 = UNIX timestamp 1", fmt).is_err());
}

#[test]
fn parse_from_str_errors() {
    let parse_from_str = NaiveDateTime::parse_from_str;
    assert_eq!(parse_from_str("04m33s", "%Mm%Ss"), Err(ParseError::NotEnough));
    assert_eq!(parse_from_str("94/9/4 12", "%y/%m/%d %H"), Err(ParseError::NotEnough));
    assert_eq!(parse_from_str("94/9/4 17:60", "%y/%m/%d %H:%M"), Err(ParseError::OutOfRange));
    assert_eq!(
        parse_from_str("1970-01-01 00:00:00 = UNIX timestamp 1", "%Y-%m-%d %H:%M:%S = UNIX timestamp %s"),
        Err(ParseError::Impossible)
    );
    assert_eq!(
        parse_from_str("Sat, 09 Aug 2013 23:54:35 GMT", "%a, %d %b %Y %H:%M:%S GMT"),
        Err(ParseError::Impossible)
    );
    assert_eq!(parse_from_str("2014-5-7 12:3456", "%Y-%m-%d %H:%M:%S"), Err(ParseError::Invalid));
    assert_eq!(parse_from_str("12:34:56", "%H:%M:%S"), Err(ParseError::NotEnough));
    assert_eq!(parse_from_str("2014", "%Y-"), Err(ParseError::TooShort));
    assert_eq!(parse_from_str("2014-x", "%Y-"), Err(ParseError::TooLong));
    assert_eq!(parse_from_str("2014", "%Q"), Err(ParseError::BadFormat));
    assert_eq!(parse_from_str("2014 UTC", "%Y %Z"), Err(ParseError::BadFormat));
    assert_eq!(parse_from_str("0", "%s"), Ok(NaiveDate::from_ymd(1970, 1, 1).and_hms(0, 0, 0)));
    assert_eq!(
        parse_from_str("1283929614", "%s"),
        Ok(NaiveDate::from_ymd(2010, 9, 8).and_hms(7, 6, 54))
    );
}

#[test]
fn patterns_read_what_they_write() {
    let values = [
        NaiveDate::from_ymd(2010, 9, 8).and_hms_milli(7, 6, 54, 321),
        NaiveDate::from_ymd(2012, 6, 30).and_hms_milli(23, 59, 59, 1_000),
        NaiveDate::from_ymd(1999, 12, 31).and_hms(23, 59, 59),
        NaiveDate::from_ymd(2000, 1, 1).and_hms(0, 0, 0),
        NaiveDate::from_ymd(2069, 2, 28).and_hms_nano(12, 0, 0, 1),
    ];
    let patterns = [
        "%Y-%m-%dT%H:%M:%S%.f",
        "%Y-%m-%d %H:%M:%S%.9f",
        "%a %b %e %T%.f %Y",
        "%A, %B %d, %Y %I:%M:%S%.f %p",
        "%G-W%V-%u %H:%M:%S%.f",
        "%Y %j %k:%M:%S%.f",
        "%y %U %w %l %P %M %S%.f",
        "%C%y %W %a %R:%S%.f",
        "%D %r%.f",
        "%v %X%.f",
        "%F%t%T%n%.f",
    ];
    for value in values.iter() {
        for pattern in patterns.iter() {
            let text = value.format(pattern).to_string();
            assert_eq!(
                NaiveDateTime::parse_from_str(&text, pattern),
                Ok(*value),
                "{} as {}",
                text,
                pattern
            );
        }
    }
}

#[test]
fn canonical_pattern_writes_and_reads_canonical_text() {
    let values = [
        NaiveDate::from_ymd(2016, 7, 8).and_hms_milli(9, 10, 48, 90),
        NaiveDate::from_ymd(0, 1, 1).and_hms_milli(0, 0, 59, 1_000),
        NaiveDate::from_ymd(-1, 12, 31).and_hms_nano(23, 59, 59, 7),
        NaiveDate::min_value().and_hms(0, 0, 0),
        NaiveDate::max_value().and_hms_nano(23, 59, 59, 1_999_999_999),
    ];
    for value in values.iter() {
        let text = value.format_with_items(canonical_pattern()).to_string();
        assert_eq!(text, value.to_canonical_string());
    }
    let texts = [
        "2015-2-18T23:16:9.15",
        "-77-02-18T23:16:09",
        "  +82701  -  05  -  6  T  15  :  9  : 60.898989898989   ",
        "",
        "x",
        "15",
        "15:8:9",
        "15-8-9",
        "2015-15-15T15:15:15",
        "2012-12-12T12:12:12x",
        "2012-123-12T12:12:12",
        "+ 82701-123-12T12:12:12",
        "+802701-123-12T12:12:12",
        "2002-02-28T23:59:61",
        "2002-02-28T24:00:00",
        "+9999999999-1-1T0:0:0",
    ];
    for text in texts.iter() {
        let by_pattern = parse(Parsed::new(), text, &canonical_pattern())
            .and_then(|parsed| parsed.to_naive_datetime_with_offset(0));
        assert_eq!(by_pattern, NaiveDateTime::from_str(text), "{}", text);
    }
}
