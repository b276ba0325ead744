use simpledateformat::{
    fmt, format_human, format_human2, format_human_compact_millis, format_human_millis, ParseError, Part,
    SimpleDateFormat, Weekday, Zone, ZonedDateTime,
};
use simpledateformat::datetime::SAFE_TIMESTAMP_MILLIS;
use std::time::Duration;

fn may_30_2020() -> ZonedDateTime {
    ZonedDateTime::from_timestamp_millis(1590816448678, Zone::Utc).unwrap()
}

#[test]
fn same_pattern_same_instant_same_text() {
    let t1 = may_30_2020();
    let t2 = may_30_2020();
    let a = fmt("EEE MMM dd, yyyy hh:mm:ss.SSS z a").unwrap();
    let b = fmt("EEE MMM dd, yyyy hh:mm:ss.SSS z a").unwrap();
    assert_eq!(a.format(&t1), b.format(&t2));
    assert_eq!(a.format(&t1), a.format(&t2));
    assert_eq!(a.format(&t1), "Sat May 30, 2020 05:27:28.678 Z AM");
}

#[test]
fn quoted_text_and_punctuation_pass_through() {
    let t = may_30_2020();
    assert_eq!(fmt("'o''clock' - ''").unwrap().format(&t), "o'clock - '");
    assert_eq!(fmt("'yyyy MM'/'at'").unwrap().format(&t), "yyyy MM/at");
    assert_eq!(fmt("''").unwrap().format(&t), "'");
    assert_eq!(fmt("").unwrap().format(&t), "");
}

#[test]
fn unterminated_quote_keeps_its_text() {
    let t = may_30_2020();
    assert_eq!(fmt("yyyy 'abc").unwrap().format(&t), "2020 abc");
    assert_eq!(fmt("yyyy '").unwrap().format(&t), "2020 ");
}

#[test]
fn illegal_char_is_reported() {
    match fmt("yyyy x") {
        Err(ParseError::Format(m)) => assert_eq!(m, "Illegal char: x"),
        Ok(_) => panic!("pattern with x compiled"),
    }
    match SimpleDateFormat::new("HH;mm") {
        Err(ParseError::Format(m)) => assert_eq!(m, "Illegal char: ;"),
        Ok(_) => panic!("pattern with ; compiled"),
    }
}

#[test]
fn runs_become_one_part() {
    let f = fmt("yyyy-MM").unwrap();
    assert_eq!(f.parts().len(), 3);
    assert!(matches!(f.parts()[0], Part::Year(4)));
    assert!(matches!(f.parts()[1], Part::LiteralChar('-')));
    assert!(matches!(f.parts()[2], Part::Month(2)));
}

#[test]
fn numeric_fields_pad_and_never_truncate() {
    let t = may_30_2020();
    assert_eq!(fmt("ddd").unwrap().format(&t), "030");
    assert_eq!(fmt("d").unwrap().format(&t), "30");
    assert_eq!(fmt("S").unwrap().format(&t), "678");
    assert_eq!(fmt("SSSSS").unwrap().format(&t), "00678");
    assert_eq!(fmt("yy").unwrap().format(&t), "20");
    assert_eq!(fmt("y").unwrap().format(&t), "2020");
    assert_eq!(fmt("D").unwrap().format(&t), "151");
    assert_eq!(fmt("DDDD").unwrap().format(&t), "0151");
    assert_eq!(fmt("H:m:s").unwrap().format(&t), "5:27:28");
}

#[test]
fn negative_year_keeps_sign_outside_width() {
    let t = ZonedDateTime {
        year: -5,
        month: 3,
        day: 1,
        hour: 0,
        minute: 0,
        second: 0,
        nanosecond: 0,
        weekday: Weekday::Mon,
        ordinal: 60,
        zone: Zone::Utc,
    };
    assert_eq!(fmt("yyyy").unwrap().format(&t), "-0005");
    let t = ZonedDateTime { year: -2019, ..t };
    assert_eq!(fmt("yy").unwrap().format(&t), "-19");
}

#[test]
fn month_widths() {
    let t = ZonedDateTime::from_timestamp_millis(0, Zone::Utc).unwrap();
    assert_eq!(fmt("M").unwrap().format(&t), "1");
    assert_eq!(fmt("MM").unwrap().format(&t), "01");
    assert_eq!(fmt("MMM").unwrap().format(&t), "Jan");
    assert_eq!(fmt("MMMM").unwrap().format(&t), "January");
    let t = may_30_2020();
    assert_eq!(fmt("MMM").unwrap().format(&t), "May");
    assert_eq!(fmt("MMMMM").unwrap().format(&t), "May");
}

#[test]
fn names_era_and_markers() {
    let t = may_30_2020();
    assert_eq!(fmt("G").unwrap().format(&t), "AD");
    assert_eq!(fmt("GG").unwrap().format(&t), "AD");
    assert_eq!(fmt("E").unwrap().format(&t), "Saturday");
    assert_eq!(fmt("EEE").unwrap().format(&t), "Sat");
    assert_eq!(fmt("EEEE").unwrap().format(&t), "Saturday");
    assert_eq!(fmt("a").unwrap().format(&t), "AM");
    let noon = ZonedDateTime::from_timestamp_millis(12 * 3600 * 1000, Zone::Utc).unwrap();
    assert_eq!(fmt("hh a").unwrap().format(&noon), "12 PM");
    assert_eq!(fmt("hh a").unwrap().format(&t), "05 AM");
    assert_eq!(fmt("hh").unwrap().format(&ZonedDateTime::from_timestamp_millis(0, Zone::Utc).unwrap()), "12");
}

#[test]
fn zone_texts() {
    let t = ZonedDateTime::from_timestamp_millis(0, Zone::Fixed(-(3 * 3600 + 1800))).unwrap();
    assert_eq!(fmt("yyyy/MM/dd HH:mm z").unwrap().format(&t), "1969/12/31 20:30 -03:30");
    let t = ZonedDateTime::from_timestamp_millis(0, Zone::Fixed(15)).unwrap();
    assert_eq!(fmt("zzz").unwrap().format(&t), "+00:00:15");
    let t = ZonedDateTime::from_timestamp_millis(0, Zone::Fixed(0)).unwrap();
    assert_eq!(fmt("z").unwrap().format(&t), "+00:00");
    assert!(ZonedDateTime::from_timestamp_millis(0, Zone::Fixed(86_400)).is_none());
}

#[test]
fn timestamp_fields() {
    let t = ZonedDateTime::from_timestamp_millis(-1, Zone::Utc).unwrap();
    assert_eq!(fmt("yyyy/MM/dd HH:mm:ss.SSS").unwrap().format(&t), "1969/12/31 23:59:59.999");
    assert_eq!(t.weekday, Weekday::Wed);
    assert_eq!(t.ordinal, 365);
    assert!(ZonedDateTime::from_timestamp_millis(i64::MAX, Zone::Utc).is_none());
}

#[test]
fn timestamps_in_safe_range_convert() {
    assert!(ZonedDateTime::from_timestamp_millis(SAFE_TIMESTAMP_MILLIS, Zone::Fixed(86_399)).is_some());
    assert!(ZonedDateTime::from_timestamp_millis(-SAFE_TIMESTAMP_MILLIS, Zone::Fixed(-86_399)).is_some());
    let t = ZonedDateTime::from_timestamp_millis(0, Zone::Utc).unwrap();
    assert_eq!((t.year, t.month, t.day, t.ordinal, t.weekday), (1970, 1, 1, 1, Weekday::Thu));
}

#[test]
fn human_text_units() {
    assert_eq!(format_human(Duration::ZERO), "0ms");
    assert_eq!(format_human_millis(3_661_001), "1hour 1min 1s 1ms");
    assert_eq!(format_human_millis(86_400_000 + 1), "1day 0hour 0min 0s 1ms");
    assert_eq!(format_human_millis(5 * 60_000), "5min");
    assert_eq!(format_human(Duration::from_secs(3 * 86_400 + 7200)), "3days 2hour");
    assert_eq!(format_human_millis(u64::MAX as u128), "213503982334days 14hour 25min 51s 615ms");
}

#[test]
fn compact_human_text() {
    assert_eq!(format_human_compact_millis(0), "0ms");
    assert_eq!(format_human_compact_millis(3_661_001), "1hour 1min");
    assert_eq!(format_human_compact_millis(1001), "1s 1ms");
    assert_eq!(format_human_compact_millis(30 * 86_400_000 + 3_600_000), "30days");
    assert_eq!(format_human_compact_millis(29 * 86_400_000 + 3_600_000), "29days 1hour");
    assert_eq!(format_human2(Duration::from_millis(1)), "1ms");
}
