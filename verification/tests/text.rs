use composer::slack::{date_line, quote};
use composer::text::{
    count_words, join, lines, lt, parse_u64, same_ignoring_case, split, to_decimal,
    to_decimal_negated, trim, write_lines,
};
use composer::text_map::TextMap;
use composer::time::Timestamp;

#[test]
fn text_is_taken_apart() {
    assert_eq!(trim(" \u{2003}a b\u{a0}\n"), "a b");
    assert_eq!(split("a,,b", ','), vec!["a", "", "b"]);
    assert_eq!(split("", ','), vec![""]);
    assert_eq!(lines("a\r\nb\rc\n\nd"), vec!["a", "b\rc", "", "d"]);
    assert!(lines("").is_empty());
    assert_eq!(count_words(" a  b\tc "), 3);
    assert_eq!(count_words(""), 0);
}

#[test]
fn text_is_put_together() {
    let parts = vec!["a".to_string(), "b".to_string()];
    assert_eq!(join(&parts, ", "), "a, b");
    assert_eq!(write_lines(&parts), "a\nb\n");
    assert_eq!(lines(&write_lines(&parts)), parts);
    assert_eq!(quote(&parts), "> a\n> b");
}

#[test]
fn numbers_are_written_and_read() {
    assert_eq!(to_decimal(i64::MIN), i64::MIN.to_string());
    assert_eq!(to_decimal(0), "0");
    assert_eq!(to_decimal_negated(i64::MIN), "9223372036854775808");
    assert_eq!(to_decimal_negated(5), "-5");
    assert_eq!(parse_u64("00012"), Some(12));
    assert_eq!(parse_u64("+"), None);
    assert_eq!(parse_u64("-1"), None);
    assert_eq!(parse_u64("18446744073709551615"), Some(u64::MAX));
    assert_eq!(parse_u64("18446744073709551616"), None);
}

#[test]
fn texts_are_ordered_and_compared() {
    assert!(lt("a", "b"));
    assert!(lt("a", "aa"));
    assert!(!lt("b", "ab"));
    assert!(!lt("a", "a"));
    assert!(lt("Z", "a"));
    assert!(same_ignoring_case("TrUe", "true"));
    assert!(!same_ignoring_case("true ", "true"));
}

#[test]
fn text_maps_keep_their_order() {
    let mut map = TextMap::new();
    for key in ["b", "c", "a", "b"] {
        map.insert(key.to_string(), map.len());
    }
    assert_eq!(map.len(), 3);
    assert_eq!((map.key(0).as_str(), map.key(1).as_str(), map.key(2).as_str()), ("a", "b", "c"));
    assert_eq!(map.get("b"), Some(&3));
    assert_eq!(map.remove("b"), Some(3));
    assert_eq!(map.remove("b"), None);
    assert_eq!(map.get("b"), None);
    assert_eq!(map.value(1), &1);
}

#[test]
fn instants_have_a_range() {
    assert!(Timestamp::new(i64::MAX, 0).is_none());
    assert!(Timestamp::new(0, 1_000_000_000).is_none());
    assert!(Timestamp::new(59, 1_500_000_000).is_some());
    assert!(Timestamp::new(-1, 1_500_000_000).is_some());
    assert!(Timestamp::new(59, 2_000_000_000).is_none());
    let last = Timestamp::new(8_210_266_876_799, 999_999_999).unwrap();
    assert_eq!(last.nanos(), 999_999_999);
    assert!(Timestamp::new(8_210_266_876_800, 0).is_none());
    let first = Timestamp::min();
    assert!(Timestamp::new(first.seconds() - 1, 0).is_none());
    assert_eq!(last.seconds_since(&first), 8_210_266_876_799 + 8_334_601_228_800);
    assert_eq!(
        first.seconds_since(&last),
        -(8_210_266_876_799 + 8_334_601_228_800)
    );
}

#[test]
fn instants_are_shown() {
    let t = Timestamp::new(1_700_000_000, 5_000_000).unwrap();
    assert_eq!(t.to_rfc3339(), "2023-11-14T22:13:20Z");
    assert_eq!(t.to_utc_text(), "2023-11-14 22:13:20.005 UTC");
    assert_eq!(t.to_minute_text(-12_600), "2023-11-14 18:43 -03:30");
    assert_eq!(Timestamp::parse_rfc3339("2023-11-14T22:13:20.005Z"), Some(t));
    assert_eq!(Timestamp::parse_rfc3339("2023-11-14"), None);
    assert_eq!(
        date_line("At", &t),
        "<!date^1700000000^At {date_num} {time_secs}|At 2023-11-14 22:13:20.005 UTC>"
    );
    let earlier = Timestamp::new(1_699_999_999, 6_000_000).unwrap();
    assert_eq!(t.nanos_since(&earlier), 999_000_000);
    assert_eq!(earlier.nanos_since(&t), -999_000_000);
    assert_eq!(t.seconds_since(&earlier), 0);
    assert_eq!(t.days_since(&Timestamp::new(1_699_913_600, 0).unwrap()), 1);
}

#[test]
fn leap_seconds_are_counted_within_the_day() {
    let t = |seconds: i64, nanos: u32| Timestamp::new(seconds, nanos).unwrap();
    let (day, second) = (86_400, 1_000_000_000);
    // within the leap second, and to the second before it
    assert_eq!(t(59, 1_500_000_000).nanos_since(&t(59, 0)), 1_500_000_000);
    assert_eq!(t(59, 1_500_000_000).nanos_since(&t(0, 0)), 60 * second + 500_000_000);
    // from the leap second on
    assert_eq!(t(60, 0).nanos_since(&t(59, 1_000_000_000)), second);
    assert_eq!(t(60, 0).nanos_since(&t(59, 0)), second);
    assert_eq!(t(59, 1_000_000_000).nanos_since(&t(60, 0)), -second);
    assert_eq!(t(119, 1_000_000_000).nanos_since(&t(59, 1_000_000_000)), 61 * second);
    // the times of day are compared, not the instants
    assert_eq!(
        t(day, 0).nanos_since(&t(59, 1_000_000_000)),
        (86_400 - 59 - 1) as i128 * second
    );
    assert_eq!(
        t(day + 59, 1_000_000_000).nanos_since(&t(60, 0)),
        (86_400 - 1) as i128 * second
    );
    assert_eq!(t(-1, 1_999_999_999).seconds_since(&t(-1, 0)), 1);
}

#[test]
fn instants_at_the_ends_of_the_calendar_are_shown() {
    let first = Timestamp::min();
    let last = Timestamp::new(8_210_266_876_799, 1_999_999_999).unwrap();
    assert_eq!(first.to_utc_text(), "-262143-01-01 00:00:00 UTC");
    assert_eq!(first.to_rfc3339(), "-262143-01-01T00:00:00Z");
    assert_eq!(last.to_rfc3339(), "+262142-12-31T23:59:60Z");
    assert_eq!(first.to_minute_text(-86_340), "-262144-12-31 00:01 -23:59");
    assert_eq!(last.to_minute_text(86_340), "+262143-01-01 23:58 +23:59");
    // any offset will do, also one that is no number of minutes
    assert!(first.to_minute_text(-86_399).starts_with("-262144-12-31 00:00 "));
    assert!(last.to_minute_text(86_399).starts_with("+262143-01-01 23:59 "));
    let offset = first.local_offset();
    assert!(-86_400 < offset && offset < 86_400);
    let offset = last.local_offset();
    assert!(-86_400 < offset && offset < 86_400);
    assert_eq!(first.days_since(&last), -191_491_529);
}
