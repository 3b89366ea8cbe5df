use chrono::{DateTime, TimeZone, Utc};
use chrono_tz::Tz;
use composer::scheduler::{
    command_report, normalize_expression, parse_schedule, plan_next, step, Action, Event, Outcome,
    Phase, Schedule, Zone,
};
use composer::time::Timestamp;

fn at<Z: TimeZone>(t: DateTime<Z>) -> Timestamp {
    Timestamp::new(t.timestamp(), t.timestamp_subsec_nanos()).unwrap()
}

fn chrono_utc(t: &Timestamp) -> DateTime<Utc> {
    DateTime::<Utc>::from_timestamp(t.seconds(), t.nanos()).unwrap()
}

/// The next instants at which a schedule fires.
fn upcoming_after(schedule: &Schedule, zone: &Zone, start: Timestamp, n: usize) -> Vec<Timestamp> {
    let mut out = vec![];
    let mut t = start;
    while out.len() < n {
        t = schedule.next_after(zone, &t).unwrap();
        out.push(t);
    }
    out
}

fn assert_schedule_matches(
    actual: Vec<DateTime<Tz>>,
    expected: Vec<&str>,
    expected_is_utc: bool,
) {
    assert_eq!(actual.len(), expected.len());
    for (i, (actual, expected_str)) in actual.iter().zip(expected.iter()).enumerate() {
        let actual_str = if expected_is_utc {
            format!("{}", actual.with_timezone(&Utc).format("%Y-%m-%d %H:%M:%S %Z"))
        } else {
            format!("{}", actual.format("%Y-%m-%d %H:%M:%S %Z"))
        };
        assert_eq!(
            actual_str, *expected_str,
            "mismatch at index {i}: expected {expected_str}, got {actual_str}",
        );
    }
}

#[test]
fn five_field_expressions_fire_at_second_zero() {
    let start = Utc.with_ymd_and_hms(2026, 3, 6, 12, 0, 30).unwrap();
    let upcoming = |expr: &str| -> Vec<String> {
        upcoming_after(&parse_schedule(expr).unwrap(), &Zone::utc(), at(start), 3)
            .iter()
            .map(|t| chrono_utc(t).format("%Y-%m-%d %H:%M:%S").to_string())
            .collect()
    };
    assert_eq!(upcoming("0 2 * * *"), upcoming("0 0 2 * * *"));
    assert_eq!(
        upcoming("*/15 * * * *"),
        vec!["2026-03-06 12:15:00", "2026-03-06 12:30:00", "2026-03-06 12:45:00"]
    );
    assert_eq!(upcoming("30 6 * * MON-FRI"), upcoming("0 30 6 * * MON-FRI"));
    // whitespace around and between fields is tolerated
    assert_eq!(upcoming("  0  2 * *   *  "), upcoming("0 0 2 * * *"));
}

#[test]
fn six_and_seven_field_expressions_are_unchanged() {
    assert_eq!(parse_schedule("0 0 2 * * *").unwrap().to_string(), "0 0 2 * * *");
    assert_eq!(
        parse_schedule("0 0 2 * * * 2027").unwrap().to_string(),
        "0 0 2 * * * 2027"
    );
    assert!(parse_schedule("@daily").is_ok());
}

#[test]
fn invalid_expressions_name_the_input() {
    for bad in ["0 2 * *", "0 0 2 * * * * *", "not a cron", "", "99 * * * *"] {
        let err = parse_schedule(bad).unwrap_err().message();
        assert!(err.contains("while parsing cron expression"), "{bad}: {err}");
    }
    let err = parse_schedule("  not a cron ").unwrap_err();
    assert_eq!(err.message(), "while parsing cron expression: not a cron");
    assert!(!err.reason.is_empty());
}

#[test]
fn test_timezone_aware_schedule() {
    let chicago = chrono_tz::America::Chicago;

    // Every day at 4:00 PM America/Chicago
    let schedule = Schedule::parse("0 0 16 * * *").expect("valid cron expression");
    let zone = Zone::parse("America/Chicago").unwrap();
    let start_time = chicago.with_ymd_and_hms(2026, 3, 6, 12, 0, 0).unwrap();
    let upcoming: Vec<_> = upcoming_after(&schedule, &zone, at(start_time), 5)
        .iter()
        .map(|t| chrono_utc(t).with_timezone(&chicago))
        .collect();
    let expected_in_utc = vec![
        "2026-03-06 22:00:00 UTC", // CST is UTC-6
        "2026-03-07 22:00:00 UTC",
        "2026-03-08 21:00:00 UTC", // CDT is UTC-5
        "2026-03-09 21:00:00 UTC",
        "2026-03-10 21:00:00 UTC",
    ];
    assert_schedule_matches(upcoming, expected_in_utc, true);
}

/// Demonstrate an edge case where the scheduler will skip a day!
///
/// This is due to the specific legal definition of how daylight savings time
/// is applied in the United States, skipping an hour.
#[test]
fn test_daylight_savings_time_edge_case() {
    let chicago = chrono_tz::America::Chicago;

    // Every day at 2:30 AM America/Chicago
    let schedule = Schedule::parse("0 30 2 * * *").expect("valid cron expression");
    let zone = Zone::parse("America/Chicago").unwrap();
    let start_time = chicago.with_ymd_and_hms(2024, 3, 8, 12, 0, 0).unwrap();
    let upcoming: Vec<_> = upcoming_after(&schedule, &zone, at(start_time), 5)
        .iter()
        .map(|t| chrono_utc(t).with_timezone(&chicago))
        .collect();
    let expected = vec![
        "2024-03-09 02:30:00 CST",
        // March 10 is skipped because March 10th, 2:30 AM is not a valid time in Chicago;
        // the clock jumps immediately from 2:00 AM CST to 3:00 AM CDT.
        "2024-03-11 02:30:00 CDT",
        "2024-03-12 02:30:00 CDT",
        "2024-03-13 02:30:00 CDT",
        "2024-03-14 02:30:00 CDT",
    ];
    assert_schedule_matches(upcoming, expected, false);
}

#[test]
fn expressions_are_normalized() {
    assert_eq!(normalize_expression(" 0  2 * * * \n"), "0 0  2 * * *");
    assert_eq!(normalize_expression("0 0 2 * * *"), "0 0 2 * * *");
    assert_eq!(normalize_expression(" @daily"), "@daily");
    assert_eq!(normalize_expression(&normalize_expression("0 2 * * *")), "0 0 2 * * *");
}

/// When an expression fires first after a given time, or `None` where it is
/// not taken for a schedule.
fn first_time(expr: &str, zone: &Zone) -> Option<Option<Timestamp>> {
    let start = Timestamp::new(1_700_000_001, 7).unwrap();
    parse_schedule(expr).ok().map(|s| s.next_after(zone, &start))
}

#[test]
fn five_fields_mean_six_with_a_zero() {
    let zone = Zone::parse("Asia/Kolkata").unwrap();
    for fields in ["0 2 * * *", "*/7 1-3,5 ? JAN-MAR Mon", "99 * * * *", "/5 ** * * *", "a b c d e"] {
        for (left, right) in [("", ""), (" ", "\t"), ("\n  \t", "\u{3000} "), ("\r", "\u{b}")] {
            let e = format!("{left}{fields}{right}");
            assert_eq!(first_time(&e, &zone), first_time(&format!("0 {e}"), &zone), "{e:?}");
            assert_eq!(first_time(&e, &zone), first_time(fields, &zone), "{e:?}");
        }
    }
    // white space that may stand around the fields, but not between them
    assert!(first_time("\u{3000}0 2 * * *", &zone).is_some());
    assert!(first_time("0 \u{3000}0 2 * * *", &zone).is_none());
}

#[test]
fn five_fields_fire_at_second_zero_of_the_zones_clock() {
    // its clock was off UTC by 44 minutes and a half until 1972
    let zone = Zone::parse("Africa/Monrovia").unwrap();
    let start = Timestamp::new(1_000_000, 0).unwrap();
    let next = parse_schedule("* * * * *").unwrap().next_after(&zone, &start).unwrap();
    let shown = chrono_utc(&next).with_timezone(&chrono_tz::Africa::Monrovia);
    assert_eq!(shown.format("%S").to_string(), "00");
    assert_eq!(next.seconds() % 60, 30);
    for fields in ["* * * * *", "*/7 3 * * *", "? 1 * * *", "5,6 1 * * 1"] {
        if let Some(next) = first_time(fields, &Zone::utc()) {
            assert_eq!(next.unwrap().seconds() % 60, 0, "{fields}");
        }
    }
    // minutes that begin with a sign go on with the zero before them
    let next = first_time("/5 ** * * *", &Zone::utc()).unwrap().unwrap();
    assert_eq!(next.seconds(), 1_700_000_005);
}

#[test]
fn white_space_between_fields_makes_no_difference() {
    let pieces = ["0", "*", "/2", ",", "-", "5", "?", "Mon", "@daily"];
    let base = "* * * * *";
    let zone = Zone::utc();
    for a in pieces {
        for b in pieces {
            for gaps in [["", " "], [" ", " "], [" ", ""]] {
                let plain = format!("0{}{a}{}{b} {base}", gaps[0], gaps[1]);
                let wide = plain.replace(' ', "\t \n\r ");
                assert_eq!(first_time(&wide, &zone), first_time(&plain, &zone), "{plain:?}");
            }
            let plain = format!("{a} {b} 1 2 * ?");
            let wide = plain.replace(' ', "  \r\n");
            assert_eq!(first_time(&wide, &zone), first_time(&plain, &zone), "{plain:?}");
        }
    }
}

#[test]
fn zones_are_known_by_name() {
    assert!(Zone::parse("Nowhere/Land").is_none());
    assert_eq!(Zone::parse("Europe/Paris").unwrap().name(), "Europe/Paris");
    assert_eq!(Zone::utc().copy().name(), "UTC");
}

#[test]
fn schedules_that_are_over_fire_no_more() {
    let schedule = Schedule::parse("0 0 0 1 1 * 2020").unwrap();
    let now = at(Utc.with_ymd_and_hms(2026, 3, 6, 12, 0, 0).unwrap());
    assert!(schedule.next_after(&Zone::utc(), &now).is_none());
    let (phase, action) = step(&schedule, &Zone::utc(), Phase::Idle, Event::Tick(now));
    assert!(matches!(phase, Phase::Done));
    assert!(matches!(action, Action::Exit));
    let (phase, action) = step(&schedule, &Zone::utc(), phase, Event::Tick(now));
    assert!(matches!(phase, Phase::Done));
    assert!(matches!(action, Action::Nothing));
}

#[test]
fn tasks_sleep_then_run_then_report() {
    let schedule = Schedule::parse("0 0 16 * * *").unwrap();
    let zone = Zone::utc();
    let now = at(Utc.with_ymd_and_hms(2026, 3, 6, 15, 59, 58).unwrap());
    let four = at(Utc.with_ymd_and_hms(2026, 3, 6, 16, 0, 0).unwrap());
    let (phase, action) = step(&schedule, &zone, Phase::Idle, Event::Tick(now));
    assert!(matches!(action, Action::Sleep { due, nanos: 2_000_000_000 } if due == four));
    let (phase, action) = step(&schedule, &zone, phase, Event::Woke(four));
    assert!(matches!(action, Action::Execute { due, skewed: false } if due == four));
    let (phase, action) = step(&schedule, &zone, phase, Event::Woke(four));
    assert!(matches!(action, Action::Nothing));
    let (phase, action) = step(&schedule, &zone, phase, Event::Ended);
    assert!(matches!(action, Action::Report { due } if due == four));
    assert!(matches!(phase, Phase::Idle));
}

#[test]
fn skew_is_more_than_a_second() {
    let schedule = Schedule::parse("0 0 16 * * *").unwrap();
    let due = Timestamp::new(1_000_000, 0).unwrap();
    let skewed = |seconds: i64, nanos: u32| -> bool {
        let now = Timestamp::new(seconds, nanos).unwrap();
        let (_, action) =
            step(&schedule, &Zone::utc(), Phase::Sleeping { due }, Event::Woke(now));
        matches!(action, Action::Execute { skewed: true, .. })
    };
    assert!(!skewed(1_000_001, 0));
    assert!(skewed(1_000_001, 1));
    assert!(!skewed(999_999, 0));
    assert!(skewed(999_998, 999_999_999));
}

#[test]
fn what_is_past_is_overdue() {
    let due = Timestamp::new(1_000, 0).unwrap();
    let (phase, action) = plan_next(Some(due), &Timestamp::new(1_000, 1).unwrap());
    assert!(matches!(phase, Phase::Idle));
    assert!(matches!(action, Action::Overdue { .. }));
    let (_, action) = plan_next(Some(due), &Timestamp::new(1_000, 0).unwrap());
    assert!(matches!(action, Action::Sleep { nanos: 0, .. }));
}

#[test]
fn commands_are_reported() {
    let due = Timestamp::new(1_700_000_000, 0).unwrap();
    let url = Some("u".to_string());
    let on_error = Some("e".to_string());
    let finished = |success: bool| Outcome::Finished {
        success,
        stdout: "out".to_string(),
        stderr: "err".to_string(),
    };
    let next = "> <!date^1700000000^Next prune at {date_num} {time_secs}|Next prune at 2023-11-14 22:13:20 UTC>";
    let ok = command_report("host", "prune", &finished(true), &due, &url, &on_error);
    assert_eq!(ok.len(), 1);
    assert_eq!(ok[0].url, "u");
    assert_eq!(ok[0].text, format!("> ✅ *host* prune\n> ```\nout\n```\n{next}"));
    let bad = command_report("host", "prune", &finished(false), &due, &url, &on_error);
    assert_eq!(bad.len(), 2);
    assert_eq!(bad[1].url, "e");
    assert_eq!(
        bad[1].text,
        format!("> ❌ *host* prune\n> ```\nout\n```\n> ```\nerr\n```\n{next}")
    );
    let none = command_report(
        "host",
        "prune",
        &Outcome::Failed("no such file".to_string()),
        &due,
        &url,
        &on_error,
    );
    assert_eq!(none.len(), 1);
    assert_eq!(none[0].url, "e");
    assert_eq!(none[0].text, format!("> ❌ *host* prune\n> ```\nno such file\n```\n{next}"));
    let quiet = Outcome::Finished { success: true, stdout: String::new(), stderr: "w".to_string() };
    assert_eq!(
        command_report("host", "prune", &quiet, &due, &url, &None)[0].text,
        format!("> ✅ *host* prune\n{next}")
    );
}

#[test]
fn schedules_end_before_the_calendar_does() {
    let schedule = Schedule::parse("* * * * * *").unwrap();
    let last = Timestamp::new(8_210_266_876_797, 999_999_999).unwrap();
    for name in ["UTC", "Pacific/Kiritimati", "Pacific/Midway"] {
        assert!(schedule.next_after(&Zone::parse(name).unwrap(), &last).is_none());
    }
}
