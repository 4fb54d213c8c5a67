use xero_service::calendar::{Date, Timestamp};
use xero_service::text::{decimal, parse_signed, parse_unsigned, signed_decimal, trim, IntFault};

fn d(y: i32, m: u32, day: u32) -> Date {
    Date::from_ymd_opt(y, m, day).expect("valid date")
}

#[test]
fn calendar_has_leap_days() {
    assert!(Date::from_ymd_opt(2024, 2, 29).is_some());
    assert!(Date::from_ymd_opt(2023, 2, 29).is_none());
    assert!(Date::from_ymd_opt(2000, 2, 29).is_some());
    assert!(Date::from_ymd_opt(1900, 2, 29).is_none());
    assert!(Date::from_ymd_opt(2026, 4, 31).is_none());
    assert!(Date::from_ymd_opt(2026, 13, 1).is_none());
    assert!(Date::from_ymd_opt(2026, 0, 1).is_none());
    assert!(Date::from_ymd_opt(262143, 1, 1).is_none());
    assert!(Date::from_ymd_opt(-262144, 12, 31).is_none());
}

#[test]
fn days_are_added_across_months_and_years() {
    assert_eq!(d(2024, 2, 28).plus_days(2), Some(d(2024, 3, 1)));
    assert_eq!(d(2026, 1, 1).plus_days(-1), Some(d(2025, 12, 31)));
    assert_eq!(d(262142, 12, 31).plus_days(1), None);
    assert_eq!(d(-262143, 1, 1).plus_days(-1), None);
    assert_eq!(d(2026, 1, 1).plus_days(i32::MAX), None);
    assert_eq!(d(2026, 3, 1).days_since(&d(2024, 3, 1)), 730);
    assert_eq!(d(-262143, 1, 1).days_since(&d(262142, 12, 31)), -191_491_528);
}

#[test]
fn months_are_clamped_to_their_end() {
    assert_eq!(d(2024, 1, 31).plus_months(1), Some(d(2024, 2, 29)));
    assert_eq!(d(2026, 11, 30).plus_months(3), Some(d(2027, 2, 28)));
    assert_eq!(d(2026, 5, 5).plus_months(0), Some(d(2026, 5, 5)));
    assert_eq!(d(-1, 12, 15).plus_months(1), Some(d(0, 1, 15)));
    assert_eq!(d(262142, 12, 1).plus_months(1), None);
    assert_eq!(d(2026, 1, 1).plus_months(u32::MAX), None);
}

#[test]
fn dates_are_shown_with_padding_and_sign() {
    assert_eq!(d(2026, 6, 7).to_text(), "2026-06-07");
    assert_eq!(d(44, 3, 15).to_text(), "0044-03-15");
    assert_eq!(d(-43, 3, 15).to_text(), "-0043-03-15");
    assert_eq!(d(12026, 1, 1).to_text(), "+12026-01-01");
    assert!(d(2026, 6, 7).is_before(&d(2026, 6, 8)));
    assert!(!d(2026, 6, 7).is_before(&d(2026, 6, 7)));
    assert!(d(-5, 12, 31).is_before(&d(1, 1, 1)));
}

#[test]
fn instants_are_shown_in_each_form() {
    let t = Timestamp::from_unix(1_781_665_201, 0).unwrap();
    assert_eq!(t.to_compact_text(), "20260617T030001Z");
    assert_eq!(t.to_second_text(), "2026-06-17T03:00:01");
    assert_eq!(t.to_rfc3339(), "2026-06-17T03:00:01+00:00");
    assert_eq!(t.to_display(), "2026-06-17 03:00:01 UTC");
    assert_eq!(t.date(), d(2026, 6, 17));
    let t = Timestamp::from_unix(-1, 120_000_000).unwrap();
    assert_eq!(t.to_rfc3339(), "1969-12-31T23:59:59.120+00:00");
    assert_eq!(t.to_display(), "1969-12-31 23:59:59.120 UTC");
    assert_eq!(t.unix_millis(), -880);
    let t = Timestamp::from_unix(0, 1_500).unwrap();
    assert_eq!(t.to_rfc3339(), "1970-01-01T00:00:00.000001500+00:00");
    let t = Timestamp::from_unix(0, 1_000).unwrap();
    assert_eq!(t.to_rfc3339(), "1970-01-01T00:00:00.000001+00:00");
}

#[test]
fn leap_seconds_are_second_sixty() {
    let leap = Timestamp::from_unix(59, 1_500_000_000).unwrap();
    assert_eq!(leap.to_second_text(), "1970-01-01T00:00:60");
    assert_eq!(leap.to_rfc3339(), "1970-01-01T00:00:60.500+00:00");
    assert!(Timestamp::from_unix(58, 1_500_000_000).is_none());
    let after = leap.plus_seconds(1).unwrap();
    assert_eq!((after.unix_secs(), after.subsec_nanos()), (60, 500_000_000));
    let before = leap.plus_seconds(-1).unwrap();
    assert_eq!((before.unix_secs(), before.subsec_nanos()), (59, 500_000_000));
    assert_eq!(leap.plus_seconds(0), Some(leap));
}

#[test]
fn instants_are_bounded_by_the_calendar() {
    assert!(Timestamp::from_unix(i64::MAX, 0).is_none());
    let last = Timestamp::midnight(&d(262142, 12, 31));
    assert!(last.plus_seconds(86_399).is_some());
    assert!(last.plus_seconds(86_400).is_none());
    assert!(last.plus_seconds(i64::MAX).is_none());
    assert!(last.plus_seconds(i64::MIN).is_none());
    assert_eq!(Timestamp::midnight(&d(1970, 1, 2)).unix_secs(), 86_400);
    assert!(Timestamp::from_unix_millis(i64::MIN).is_none());
    let t = Timestamp::from_unix_millis(-1).unwrap();
    assert_eq!((t.unix_secs(), t.subsec_nanos()), (-1, 999_000_000));
    assert!(Timestamp::from_unix(0, 5).unwrap().is_before(&Timestamp::from_unix(0, 6).unwrap()));
    assert_eq!(t.seconds_since(&Timestamp::from_unix(1, 0).unwrap()), -1);
}

#[test]
fn integers_are_read_as_written() {
    assert_eq!(parse_unsigned("42", 100), Ok(42));
    assert_eq!(parse_unsigned("+42", 100), Ok(42));
    assert_eq!(parse_unsigned("", 100), Err(IntFault::Empty));
    assert_eq!(parse_unsigned("-1", 100), Err(IntFault::InvalidDigit));
    assert_eq!(parse_unsigned("-", 100), Err(IntFault::InvalidDigit));
    assert_eq!(parse_unsigned("101", 100), Err(IntFault::TooLarge));
    assert_eq!(parse_unsigned("1x", 100), Err(IntFault::InvalidDigit));
    assert_eq!(parse_signed("-9223372036854775808"), Ok(i64::MIN));
    assert_eq!(parse_signed("-"), Err(IntFault::InvalidDigit));
    for text in ["", "-", "+", "0", "-0", "+7", "00012", "9223372036854775808", "-9223372036854775809", "1 ", "--1"] {
        assert_eq!(parse_signed(text).ok(), text.parse::<i64>().ok(), "{text:?}");
        let want = text.parse::<i64>().err().map(|e| e.to_string());
        assert_eq!(parse_signed(text).err().map(|e| e.as_str().to_owned()), want, "{text:?}");
        assert_eq!(parse_unsigned(text, u64::MAX).ok(), text.parse::<u64>().ok(), "{text:?}");
    }
    for n in [0i64, 9, 10, 1234567890, -1, i64::MIN, i64::MAX] {
        assert_eq!(signed_decimal(n), n.to_string());
    }
    assert_eq!(decimal(u64::MAX), u64::MAX.to_string());
}

#[test]
fn white_space_is_trimmed_as_unicode_has_it() {
    for text in ["", " ", "a", " a b\t", "\u{a0}x\u{3000}", "\u{200b}x", "\u{2028}\u{85}"] {
        assert_eq!(trim(text), text.trim(), "{text:?}");
    }
    for c in (0u32..0x11_0000).filter_map(char::from_u32) {
        if c.is_whitespace() {
            assert_eq!(trim(&c.to_string()), "");
        }
    }
}

#[test]
fn leap_seconds_count_between_instants() {
    let at = |secs: i64, nanos: u32| Timestamp::from_unix(secs, nanos).unwrap();
    assert_eq!(at(61, 0).seconds_since(&at(59, 1_500_000_000)), 1);
    assert_eq!(at(59, 1_500_000_000).seconds_since(&at(61, 0)), -1);
    assert_eq!(at(59, 1_500_000_000).seconds_since(&at(57, 0)), 3);
    assert_eq!(at(86_401, 0).seconds_since(&at(86_399, 1_500_000_000)), 0);
    assert_eq!(at(59, 1_900_000_000).seconds_since(&at(59, 0)), 1);
    assert_eq!(at(10, 500_000_000).seconds_since(&at(12, 0)), -1);
}
