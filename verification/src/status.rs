//! What is shown of the services of a compose project: which there are, what
//! their containers do, which version they run and when they were started.

use vstd::prelude::*;
use vstd::string::*;
use crate::compose::{compose_args, compose_command, CommandLine, ComposeContext};
use crate::compose_types::{Compose, Service};
use crate::image_version::{
    extract_version, image_tag, image_version, short_id, short_image_id, tag_of,
};
use crate::last_run::{history, history_of, LastRun, RunHistory};
use crate::tasks::RUN_KEY;
use crate::text::{
    all_digits, before_pattern, before_text, decimal, halves, is_digit, law_numerals_differ,
    lemma_before_text,
    lemma_first_index_is, lemma_numeral, lemma_pieces_apart, lemma_text_lt_asymmetric,
    lemma_text_lt_irreflexive, lemma_text_lt_total, lemma_text_lt_transitive, lemma_trimmed_is,
    lemma_trimmed_padding, lines, lines_of, lt, parse_u64, parsed_u64, pieces, same, split,
    split_once, starts_with, str_opt, strip_prefix, stripped_prefix, text_lt, text_opt, texts,
    to_decimal, to_decimal_u64, trim, trimmed, whitespace,
};
use crate::text_map::{has_key, keys_of, lemma_entries_from_map, lookup, map_of, ordered, TextMap};
use crate::time::{
    elapsed, minute_text, ordinary, rfc3339_instant, valid_offset, whole_seconds, Instant,
    Timestamp,
};

verus! {

/// The type of a service that is run on a schedule.
pub const JOB: &'static str = "job";

/// The type of any other service.
pub const SERVICE: &'static str = "service";

/// Shown for nothing to inspect (no container, and nothing in the compose file to go on)
pub const NOT_APPLICABLE: &'static str = "-";

/// Shown for what composer genuinely cannot tell
pub const UNKNOWN: &'static str = "unknown";

/// Shown for a job that was never run
pub const NEVER: &'static str = "never";

// ---------------------------------------------------------------------------
// Cells
// ---------------------------------------------------------------------------

/// The value of a label, where it is set: neither blank nor `<no value>`.
pub open spec fn label_value(s: Seq<char>) -> Option<Seq<char>> {
    if trimmed(s).len() == 0 || trimmed(s) == "<no value>"@ {
        None
    } else {
        Some(trimmed(s))
    }
}

/// Parse a label value as emitted by a docker inspect `--format` template.
/// A missing label renders as the literal `<no value>` on engines where the
/// lookup yields a nil interface, and as an empty string on others; both
/// mean the label is not set.
pub fn parse_label_value(s: &str) -> (r: Option<String>)
    ensures
        text_opt(r) == label_value(s@),
{
    let s: &str = trim(s);
    if s.is_empty() || same(s, "<no value>") {
        None
    } else {
        Some(s.to_owned())
    }
}

/// The instant that docker gives as RFC 3339 text.  Instants up to the start
/// of 1970 stand for "never".
pub open spec fn docker_time(s: Seq<char>) -> Option<Instant> {
    match rfc3339_instant(trimmed(s)) {
        Some((seconds, nanos)) => if seconds <= 0 {
            None
        } else {
            Some(Instant { seconds: seconds as int, nanos: nanos as int })
        },
        None => None,
    }
}

/// The instant that an optional timestamp holds.
pub open spec fn instant_opt(t: Option<Timestamp>) -> Option<Instant> {
    match t {
        Some(t) => Some(t@),
        None => None,
    }
}

/// Parse an RFC 3339 timestamp as emitted by docker inspect.  Docker uses
/// the zero time (`0001-01-01T00:00:00Z`) for "never", which maps to None.
pub fn parse_docker_time(s: &str) -> (r: Option<Timestamp>)
    ensures
        instant_opt(r) == docker_time(s@),
{
    match Timestamp::parse_rfc3339(trim(s)) {
        Some(t) => docker_start(t),
        None => None,
    }
}

/// The instant that docker gives as a start time, unless it stands for
/// "never".
pub fn docker_start(t: Timestamp) -> (r: Option<Timestamp>)
    ensures
        r == (if t@.seconds <= 0 {
            None::<Timestamp>
        } else {
            Some(t)
        }),
{
    if t.seconds() <= 0 {
        None
    } else {
        Some(t)
    }
}

/// A time for the table, as it reads at an offset from UTC.
pub open spec fn time_text(t: Option<Instant>, offset: int) -> Seq<char> {
    match t {
        Some(t) => minute_text(t.seconds, offset),
        None => UNKNOWN@,
    }
}

/// Render a timestamp for the status table in the zone at `offset` seconds
/// east of UTC, minute precision, with the numeric UTC offset so the reader can
/// correlate it against UTC-stamped sources (container logs, `docker inspect`,
/// CI).
pub fn format_time_in(dt: Option<Timestamp>, offset: i32) -> (r: String)
    requires
        valid_offset(offset as int),
    ensures
        r@ == time_text(instant_opt(dt), offset as int),
{
    match dt {
        Some(t) => t.to_minute_text(offset),
        None => UNKNOWN.to_owned(),
    }
}

/// Render a timestamp for the status table in host-local time: as
/// [`format_time_in`] does, at the offset that the machine has at that time.
pub fn format_time(dt: Option<Timestamp>) -> (r: String)
    ensures
        exists|offset: int| #[trigger]
            valid_offset(offset) && r@ == time_text(instant_opt(dt), offset),
{
    let offset: i32 = match dt {
        Some(t) => t.local_offset(),
        None => 0,
    };
    assert(valid_offset(offset as int));
    format_time_in(dt, offset)
}

/// A number of seconds, coarsely, in the largest unit that it fills.
pub open spec fn duration_text(seconds: int) -> Seq<char> {
    if seconds < 0 {
        "0s"@
    } else if seconds < 60 {
        decimal(seconds) + "s"@
    } else if seconds < 3600 {
        decimal(seconds / 60) + "m"@
    } else if seconds < 86400 {
        decimal(seconds / 3600) + "h"@
    } else {
        decimal(seconds / 86400) + "d"@
    }
}

/// Coarse "how long ago" hint: `45s`, `23m`, `5h`, `12d`.
pub fn short_duration(seconds: i64) -> (r: String)
    ensures
        r@ == duration_text(seconds as int),
{
    if seconds < 0 {
        return "0s".to_owned();
    }
    let (n, unit): (i64, &str) = if seconds < 60 {
        (seconds, "s")
    } else if seconds < 3600 {
        (seconds / 60, "m")
    } else if seconds < 86400 {
        (seconds / 3600, "h")
    } else {
        (seconds / 86400, "d")
    };
    let mut r: String = to_decimal(n);
    r.append(unit);
    r
}

/// The short form of a unit in which docker gives an uptime.
pub open spec fn uptime_unit(unit: Seq<char>) -> Option<Seq<char>> {
    if unit == "second"@ || unit == "seconds"@ {
        Some("s"@)
    } else if unit == "minute"@ || unit == "minutes"@ {
        Some("m"@)
    } else if unit == "hour"@ || unit == "hours"@ {
        Some("h"@)
    } else if unit == "day"@ || unit == "days"@ {
        Some("d"@)
    } else if unit == "week"@ || unit == "weeks"@ {
        Some("w"@)
    } else if unit == "month"@ || unit == "months"@ {
        Some("mo"@)
    } else if unit == "year"@ || unit == "years"@ {
        Some("y"@)
    } else {
        None
    }
}

/// An uptime such as `3 hours` in short form.
pub open spec fn uptime_text(s: Seq<char>) -> Option<Seq<char>> {
    if s == "Less than a second"@ {
        Some("<1s"@)
    } else if s == "About a minute"@ {
        Some("1m"@)
    } else if s == "About an hour"@ {
        Some("1h"@)
    } else {
        match halves(s, ' ') {
            Some((num, unit)) => match (parsed_u64(num), uptime_unit(unit)) {
                (Some(n), Some(suffix)) => Some(decimal(n as int) + suffix),
                _ => None,
            },
            None => None,
        }
    }
}

/// The short form of the uptime in a status text: what stands between the
/// leading `Up ` and any annotation in parentheses.
pub open spec fn status_uptime(status: Seq<char>) -> Option<Seq<char>> {
    match stripped_prefix(status, "Up "@) {
        Some(s) => uptime_text(trimmed(before_text(s, " ("@))),
        None => None,
    }
}

/// The short form of a unit in which docker gives an uptime.
fn unit_suffix(unit: &str) -> (r: Option<&'static str>)
    ensures
        str_opt(r) == uptime_unit(unit@),
{
    if same(unit, "second") || same(unit, "seconds") {
        Some("s")
    } else if same(unit, "minute") || same(unit, "minutes") {
        Some("m")
    } else if same(unit, "hour") || same(unit, "hours") {
        Some("h")
    } else if same(unit, "day") || same(unit, "days") {
        Some("d")
    } else if same(unit, "week") || same(unit, "weeks") {
        Some("w")
    } else if same(unit, "month") || same(unit, "months") {
        Some("mo")
    } else if same(unit, "year") || same(unit, "years") {
        Some("y")
    } else {
        None
    }
}

/// Condense docker's "Up 3 hours" status text into a short form like "3h".
/// Returns None if the input doesn't match the running-uptime format.
pub fn short_uptime(status: &str) -> (r: Option<String>)
    ensures
        text_opt(r) == status_uptime(status@),
{
    let s: &str = match strip_prefix(status, "Up ") {
        Some(s) => s,
        None => {
            return None;
        },
    };
    // Drop trailing health/parenthetical annotations like " (healthy)".
    let s: &str = trim(before_pattern(s, " ("));
    if same(s, "Less than a second") {
        return Some("<1s".to_owned());
    }
    if same(s, "About a minute") {
        return Some("1m".to_owned());
    }
    if same(s, "About an hour") {
        return Some("1h".to_owned());
    }
    match split_once(s, ' ') {
        Some((num, unit)) => match (parse_u64(num), unit_suffix(unit)) {
            (Some(n), Some(suffix)) => {
                let mut r: String = to_decimal_u64(n);
                r.append(suffix);
                Some(r)
            },
            _ => None,
        },
        None => None,
    }
}

/// The units of an uptime hold letters only.
proof fn lemma_uptime_unit(unit: Seq<char>)
    requires
        uptime_unit(unit) is Some,
    ensures
        unit.len() > 0,
        forall|i: int| 0 <= i < unit.len() ==> 'a' <= #[trigger] unit[i] && unit[i] <= 'z',
{
    reveal_strlit("second");
    reveal_strlit("seconds");
    reveal_strlit("minute");
    reveal_strlit("minutes");
    reveal_strlit("hour");
    reveal_strlit("hours");
    reveal_strlit("day");
    reveal_strlit("days");
    reveal_strlit("week");
    reveal_strlit("weeks");
    reveal_strlit("month");
    reveal_strlit("months");
    reveal_strlit("year");
    reveal_strlit("years");
}

/// A number and a unit stand before any note in parentheses.
#[verifier::spinoff_prover]
proof fn lemma_before_note(num: Seq<char>, unit: Seq<char>, note: Seq<char>)
    requires
        all_digits(num),
        uptime_unit(unit) is Some,
        note.len() == 0 || " ("@.is_prefix_of(note),
    ensures
        before_text(num + " "@ + unit + note, " ("@) == num + " "@ + unit,
{
    reveal_strlit(" ");
    reveal_strlit(" (");
    lemma_uptime_unit(unit);
    let text = num + " "@ + unit;
    let k = num.len() as int;
    assert forall|i: int| 0 <= i < text.len() implies !" ("@.is_prefix_of(
        #[trigger] (text + note).skip(i),
    ) by {
        let tail = (text + note).skip(i);
        if " ("@.is_prefix_of(tail) {
            assert(tail.subrange(0, 2)[0] == ' ' && tail.subrange(0, 2)[1] == '(');
            assert(text[i] == ' ');
            if i < k {
                assert(is_digit(num[i]));
            } else if i == k {
                assert(tail[1] == unit[0]);
            } else {
                assert(text[i] == unit[i - k - 1]);
            }
        }
    }
    lemma_before_text(text, note, " ("@);
}

/// A number and a unit are the two halves of an uptime, which has no white
/// space around it.
#[verifier::spinoff_prover]
proof fn lemma_uptime_halves(num: Seq<char>, unit: Seq<char>)
    requires
        all_digits(num),
        uptime_unit(unit) is Some,
    ensures
        halves(num + " "@ + unit, ' ') == Some((num, unit)),
        trimmed(num + " "@ + unit) == num + " "@ + unit,
        (num + " "@ + unit)[0] == num[0],
{
    reveal_strlit(" ");
    lemma_uptime_unit(unit);
    let text = num + " "@ + unit;
    let k = num.len() as int;
    assert(is_digit(num[0]));
    assert(text[0] == num[0]);
    assert(text.last() == unit.last());
    lemma_trimmed_is(text);
    assert forall|j: int| 0 <= j < k implies text[j] != ' ' by {
        assert(is_digit(num[j]));
    }
    assert(text[k] == ' ');
    lemma_first_index_is(text, ' ', k);
    assert(text.contains(' '));
    assert(text.take(k) =~= num);
    assert(text.skip(k + 1) =~= unit);
}

/// An uptime in any unit is condensed to its number and the unit's short form,
/// and a note in parentheses behind it makes no difference.
#[verifier::spinoff_prover]
pub proof fn law_uptime_is_condensed(n: u64, unit: Seq<char>, note: Seq<char>)
    requires
        uptime_unit(unit) is Some,
        note.len() == 0 || " ("@.is_prefix_of(note),
    ensures
        status_uptime("Up "@ + decimal(n as int) + " "@ + unit + note) == Some(
            decimal(n as int) + uptime_unit(unit)->Some_0,
        ),
{
    let num = decimal(n as int);
    let text = num + " "@ + unit;
    let status = "Up "@ + num + " "@ + unit + note;
    lemma_numeral(n as nat);
    assert(is_digit(num[0]));
    assert(stripped_prefix(status, "Up "@) == Some(text + note)) by {
        reveal_strlit("Up ");
        assert(status.subrange(0, 3) =~= "Up "@);
        assert(status.skip(3) =~= text + note);
    }
    lemma_before_note(num, unit, note);
    lemma_uptime_halves(num, unit);
    assert(text != "Less than a second"@ && text != "About a minute"@ && text
        != "About an hour"@) by {
        reveal_strlit("Less than a second");
        reveal_strlit("About a minute");
        reveal_strlit("About an hour");
    }
    assert(uptime_text(text) == Some(num + uptime_unit(unit)->Some_0));
}

/// The short form of a unit is how its name begins, is the same for one and for
/// many, and is that of no other unit.
pub proof fn law_units_are_shortened(unit: Seq<char>, other: Seq<char>)
    ensures
        uptime_unit(unit) matches Some(short) ==> short.len() > 0 && short.is_prefix_of(unit),
        uptime_unit("second"@) is Some && uptime_unit("second"@) == uptime_unit("seconds"@),
        uptime_unit("minute"@) is Some && uptime_unit("minute"@) == uptime_unit("minutes"@),
        uptime_unit("hour"@) is Some && uptime_unit("hour"@) == uptime_unit("hours"@),
        uptime_unit("day"@) is Some && uptime_unit("day"@) == uptime_unit("days"@),
        uptime_unit("week"@) is Some && uptime_unit("week"@) == uptime_unit("weeks"@),
        uptime_unit("month"@) is Some && uptime_unit("month"@) == uptime_unit("months"@),
        uptime_unit("year"@) is Some && uptime_unit("year"@) == uptime_unit("years"@),
        uptime_unit(unit) is Some && uptime_unit(unit) == uptime_unit(other) ==> unit == other
            || unit == other.push('s') || other == unit.push('s'),
{
    reveal_units();
    assert("second"@[0] == 's' && "seconds"@[0] == 's');
    assert("minute"@[0] == 'm' && "minutes"@[0] == 'm' && "minute"@[1] == 'i' && "minutes"@[1]
        == 'i');
    assert("hour"@[0] == 'h' && "hours"@[0] == 'h');
    assert("day"@[0] == 'd' && "days"@[0] == 'd');
    assert("week"@[0] == 'w' && "weeks"@[0] == 'w');
    assert("month"@[0] == 'm' && "months"@[0] == 'm' && "month"@[1] == 'o' && "months"@[1] == 'o');
    assert("year"@[0] == 'y' && "years"@[0] == 'y');
    assert("m"@.len() != "mo"@.len());
    assert("s"@[0] == 's' && "m"@[0] == 'm' && "h"@[0] == 'h' && "d"@[0] == 'd' && "w"@[0] == 'w'
        && "mo"@[0] == 'm' && "y"@[0] == 'y');
    if let Some(short) = uptime_unit(unit) {
        assert(unit.subrange(0, short.len() as int) =~= short);
    }
}

/// What the names of the units and their short forms hold.
proof fn reveal_units()
    ensures
        "second"@ == seq!['s', 'e', 'c', 'o', 'n', 'd'],
        "seconds"@ == "second"@.push('s'),
        "minute"@ == seq!['m', 'i', 'n', 'u', 't', 'e'],
        "minutes"@ == "minute"@.push('s'),
        "hour"@ == seq!['h', 'o', 'u', 'r'],
        "hours"@ == "hour"@.push('s'),
        "day"@ == seq!['d', 'a', 'y'],
        "days"@ == "day"@.push('s'),
        "week"@ == seq!['w', 'e', 'e', 'k'],
        "weeks"@ == "week"@.push('s'),
        "month"@ == seq!['m', 'o', 'n', 't', 'h'],
        "months"@ == "month"@.push('s'),
        "year"@ == seq!['y', 'e', 'a', 'r'],
        "years"@ == "year"@.push('s'),
        "s"@ == seq!['s'],
        "m"@ == seq!['m'],
        "h"@ == seq!['h'],
        "d"@ == seq!['d'],
        "w"@ == seq!['w'],
        "mo"@ == seq!['m', 'o'],
        "y"@ == seq!['y'],
{
    reveal_strlit("second");
    reveal_strlit("seconds");
    reveal_strlit("minute");
    reveal_strlit("minutes");
    reveal_strlit("hour");
    reveal_strlit("hours");
    reveal_strlit("day");
    reveal_strlit("days");
    reveal_strlit("week");
    reveal_strlit("weeks");
    reveal_strlit("month");
    reveal_strlit("months");
    reveal_strlit("year");
    reveal_strlit("years");
    reveal_strlit("s");
    reveal_strlit("m");
    reveal_strlit("h");
    reveal_strlit("d");
    reveal_strlit("w");
    reveal_strlit("mo");
    reveal_strlit("y");
}

/// An age is told in the largest unit that it fills, by the number of that unit
/// that have gone by in full.
pub proof fn law_ages_are_told_in_full_units(seconds: int)
    requires
        seconds >= 0,
    ensures
        seconds < 60 ==> duration_text(seconds) == decimal(seconds) + "s"@,
        60 <= seconds < 60 * 60 ==> exists|n: int|
            n * 60 <= seconds < (n + 1) * 60 && duration_text(seconds) == #[trigger] decimal(n)
                + "m"@,
        60 * 60 <= seconds < 24 * 60 * 60 ==> exists|n: int|
            n * 3600 <= seconds < (n + 1) * 3600 && duration_text(seconds) == #[trigger] decimal(n)
                + "h"@,
        24 * 60 * 60 <= seconds ==> exists|n: int|
            n * 86400 <= seconds < (n + 1) * 86400 && duration_text(seconds) == #[trigger] decimal(
                n,
            ) + "d"@,
{
    assert(duration_text(seconds) == decimal(seconds / 60) + "m"@ || !(60 <= seconds < 3600));
    assert(duration_text(seconds) == decimal(seconds / 3600) + "h"@ || !(3600 <= seconds < 86400));
    assert(duration_text(seconds) == decimal(seconds / 86400) + "d"@ || seconds < 86400);
}

/// White space around the value of a label makes no difference; what is left is
/// the value, unless that is nothing or `<no value>`.
pub proof fn law_label_values(left: Seq<char>, value: Seq<char>, right: Seq<char>)
    requires
        forall|i: int| 0 <= i < left.len() ==> whitespace(#[trigger] left[i]),
        forall|i: int| 0 <= i < right.len() ==> whitespace(#[trigger] right[i]),
        value.len() > 0 ==> !whitespace(value[0]) && !whitespace(value.last()),
    ensures
        label_value(left + value + right) == (if value.len() == 0 || value == "<no value>"@ {
            None::<Seq<char>>
        } else {
            Some(value)
        }),
{
    lemma_trimmed_padding(left, value, right);
    lemma_trimmed_is(value);
}

/// A start time that docker gives is taken as it is, to the nanosecond, if it is
/// after the start of 1970; before, it stands for no start at all.
pub proof fn law_docker_times(s: Seq<char>, seconds: i64, nanos: u32)
    requires
        s.len() > 0 ==> !whitespace(s[0]) && !whitespace(s.last()),
        rfc3339_instant(s) == Some((seconds, nanos)),
    ensures
        seconds > 0 ==> docker_time(s) == Some(
            (Instant { seconds: seconds as int, nanos: nanos as int }),
        ),
        seconds <= 0 ==> docker_time(s) is None,
{
    lemma_trimmed_is(s);
}

/// There are seven units, each with its own short form, and no other.
pub proof fn law_units(unit: Seq<char>)
    ensures
        uptime_unit(unit) == Some("s"@) <==> unit == "second"@ || unit == "seconds"@,
        uptime_unit(unit) == Some("m"@) <==> unit == "minute"@ || unit == "minutes"@,
        uptime_unit(unit) == Some("h"@) <==> unit == "hour"@ || unit == "hours"@,
        uptime_unit(unit) == Some("d"@) <==> unit == "day"@ || unit == "days"@,
        uptime_unit(unit) == Some("w"@) <==> unit == "week"@ || unit == "weeks"@,
        uptime_unit(unit) == Some("mo"@) <==> unit == "month"@ || unit == "months"@,
        uptime_unit(unit) == Some("y"@) <==> unit == "year"@ || unit == "years"@,
        uptime_unit(unit) matches Some(short) ==> short == "s"@ || short == "m"@ || short == "h"@
            || short == "d"@ || short == "w"@ || short == "mo"@ || short == "y"@,
{
    reveal_units();
    assert("second"@[0] == 's' && "seconds"@[0] == 's');
    assert("minute"@[0] == 'm' && "minutes"@[0] == 'm' && "minute"@[1] == 'i' && "minutes"@[1]
        == 'i');
    assert("hour"@[0] == 'h' && "hours"@[0] == 'h');
    assert("day"@[0] == 'd' && "days"@[0] == 'd');
    assert("week"@[0] == 'w' && "weeks"@[0] == 'w');
    assert("month"@[0] == 'm' && "months"@[0] == 'm' && "month"@[1] == 'o' && "months"@[1] == 'o');
    assert("year"@[0] == 'y' && "years"@[0] == 'y');
    assert("m"@.len() != "mo"@.len());
    assert("s"@[0] == 's' && "m"@[0] == 'm' && "h"@[0] == 'h' && "d"@[0] == 'd' && "w"@[0] == 'w'
        && "mo"@[0] == 'm' && "y"@[0] == 'y');
}

/// What docker tells in words is condensed as well, and a note in parentheses
/// behind it makes no difference.
#[verifier::spinoff_prover]
pub proof fn law_uptime_in_words(note: Seq<char>)
    requires
        note.len() == 0 || " ("@.is_prefix_of(note),
    ensures
        status_uptime("Up "@ + "Less than a second"@ + note) == Some("<1s"@),
        status_uptime("Up "@ + "About a minute"@ + note) == Some("1m"@),
        status_uptime("Up "@ + "About an hour"@ + note) == Some("1h"@),
{
    reveal_strlit("Less than a second");
    reveal_strlit("About a minute");
    reveal_strlit("About an hour");
    lemma_words_before_note("Less than a second"@, note);
    lemma_words_before_note("About a minute"@, note);
    lemma_words_before_note("About an hour"@, note);
    assert("Less than a second"@[0] == 'L' && "About a minute"@[0] == 'A' && "About an hour"@[0]
        == 'A');
    assert("About a minute"@.len() != "About an hour"@.len());
}

/// What stands between the leading word and a note in parentheses.
#[verifier::spinoff_prover]
proof fn lemma_words_before_note(words: Seq<char>, note: Seq<char>)
    requires
        words.len() > 0,
        !whitespace(words[0]),
        !whitespace(words.last()),
        !words.contains('('),
        note.len() == 0 || " ("@.is_prefix_of(note),
    ensures
        status_uptime("Up "@ + words + note) == uptime_text(words),
{
    reveal_strlit("Up ");
    reveal_strlit(" (");
    let status = "Up "@ + words + note;
    let s = words + note;
    assert(status.subrange(0, 3) =~= "Up "@);
    assert(status.skip(3) =~= s);
    assert forall|i: int| 0 <= i < words.len() implies !" ("@.is_prefix_of(
        #[trigger] s.skip(i),
    ) by {
        let tail = s.skip(i);
        if " ("@.is_prefix_of(tail) {
            assert(tail.subrange(0, 2)[0] == ' ' && tail.subrange(0, 2)[1] == '(');
            assert(s[i] == ' ' && s[i + 1] == '(');
            if i + 1 < words.len() {
                assert(words.contains(words[i + 1]));
            } else {
                assert(words.last() == ' ');
            }
        }
    }
    lemma_before_text(words, note, " ("@);
    lemma_trimmed_is(words);
}

/// A status that does not begin with `Up ` tells no uptime.
pub proof fn law_only_what_is_up_has_an_uptime(status: Seq<char>)
    requires
        !"Up "@.is_prefix_of(status),
    ensures
        status_uptime(status) is None,
{
}

/// What lies ahead, as by clocks that differ, has no age.
pub proof fn law_what_lies_ahead_has_no_age(seconds: int)
    requires
        seconds <= 0,
    ensures
        duration_text(seconds) == "0s"@,
{
    reveal_strlit("0s");
    reveal_strlit("s");
    if seconds == 0 {
        law_numerals_differ(0, 0);
        assert(decimal(0) == seq!['0']);
        assert(decimal(0) + "s"@ =~= "0s"@);
    }
}

/// White space around a time that docker gives makes no difference.
pub proof fn law_docker_times_are_trimmed(left: Seq<char>, s: Seq<char>, right: Seq<char>)
    requires
        forall|i: int| 0 <= i < left.len() ==> whitespace(#[trigger] left[i]),
        forall|i: int| 0 <= i < right.len() ==> whitespace(#[trigger] right[i]),
    ensures
        docker_time(left + s + right) == docker_time(s),
        rfc3339_instant(trimmed(s)) is None ==> docker_time(s) is None,
{
    lemma_trimmed_padding(left, s, right);
}

// ---------------------------------------------------------------------------
// Services and containers
// ---------------------------------------------------------------------------

/// A service of the compose project.
#[derive(Debug)]
pub struct ServiceInfo {
    pub profile: String,
    pub name: String,
    /// "job" or "service"
    pub service_type: String,
    /// Image reference declared in the compose file, if any
    pub image: Option<String>,
    /// When composer itself last ran or restarted this service
    pub history: RunHistory,
}

/// The model of a service.
pub struct Info {
    pub profile: Seq<char>,
    pub name: Seq<char>,
    pub service_type: Seq<char>,
    pub image: Option<Seq<char>>,
    pub history: RunHistory,
}

impl View for ServiceInfo {
    type V = Info;

    open spec fn view(&self) -> Info {
        Info {
            profile: self.profile@,
            name: self.name@,
            service_type: self.service_type@,
            image: text_opt(self.image),
            history: self.history,
        }
    }
}

/// The container of a service.
#[derive(Debug)]
pub struct ContainerStatus {
    pub state: String,
    pub status: String,
    pub image: String,
    /// When the container was last (re)started
    pub started_at: Option<Timestamp>,
    /// Id (sha256:...) of the image the container is running
    pub image_id: Option<String>,
    /// The image's `org.opencontainers.image.version` label, if set
    pub image_version_label: Option<String>,
}

impl Default for ContainerStatus {
    /// A container of which nothing is known.
    fn default() -> (r: ContainerStatus)
        ensures
            r.state@ == ""@ && r.status@ == ""@ && r.image@ == ""@,
            r.started_at is None && r.image_id is None && r.image_version_label is None,
    {
        proof {
            reveal_strlit("");
        }
        let r = ContainerStatus {
            state: String::new(),
            status: String::new(),
            image: String::new(),
            started_at: None,
            image_id: None,
            image_version_label: None,
        };
        assert(r.state@ =~= ""@);
        r
    }
}

/// The version to show, of an image's own label, the version that its tag
/// tells, the tag and the id of the image that runs.
pub open spec fn chosen_version(
    label: Option<Seq<char>>,
    version: Option<Seq<char>>,
    tag: Option<Seq<char>>,
    image_id: Option<Seq<char>>,
) -> Option<Seq<char>> {
    match (label, version, tag, image_id) {
        (Some(label), _, _, _) => Some(label),
        (None, Some(version), _, _) => Some(version),
        (None, None, Some(tag), Some(id)) => Some(tag + " ("@ + short_id(id) + ")"@),
        (None, None, Some(tag), None) => Some(tag),
        (None, None, None, Some(id)) => Some(short_id(id)),
        (None, None, None, None) => None,
    }
}

/// What an image reference, if there is one, tells by `f`.
pub open spec fn of_image(
    image: Option<Seq<char>>,
    f: spec_fn(Seq<char>) -> Option<Seq<char>>,
) -> Option<Seq<char>> {
    match image {
        Some(image) => f(image),
        None => None,
    }
}

/// The version of a service that uses `image`, and whose container, if it has
/// one, is `container`.
pub open spec fn version_of(
    image: Option<Seq<char>>,
    container: Option<ContainerStatus>,
) -> Option<Seq<char>> {
    chosen_version(
        match container {
            Some(c) => text_opt(c.image_version_label),
            None => None,
        },
        of_image(image, |i: Seq<char>| image_version(i)),
        of_image(image, |i: Seq<char>| tag_of(i)),
        match container {
            Some(c) => text_opt(c.image_id),
            None => None,
        },
    )
}

/// The version to show: the label wins, else the version that the tag tells,
/// else the literal tag (`latest`, `main`), else the short image id.
///
/// A floating tag is shown together with the short image id when there is
/// one, e.g. `latest (102dbfdde2da)`: the tag says the service tracks the
/// registry, the id makes two hosts on `latest` comparable.
pub fn choose_version(
    label: Option<&str>,
    version: Option<String>,
    tag: Option<&str>,
    image_id: Option<&str>,
) -> (r: Option<String>)
    ensures
        text_opt(r) == chosen_version(
            str_opt(label),
            text_opt(version),
            str_opt(tag),
            str_opt(image_id),
        ),
{
    if let Some(label) = label {
        return Some(label.to_owned());
    }
    if version.is_some() {
        return version;
    }
    match (tag, image_id) {
        (Some(tag), Some(id)) => {
            let mut r: String = tag.to_owned();
            r.append(" (");
            r.append(short_image_id(id).as_str());
            r.append(")");
            Some(r)
        },
        (Some(tag), None) => Some(tag.to_owned()),
        (None, Some(id)) => Some(short_image_id(id)),
        (None, None) => None,
    }
}

/// The text of an optional string, borrowed.
fn borrowed(s: &Option<String>) -> (r: Option<&str>)
    ensures
        str_opt(r) == text_opt(*s),
{
    match s {
        Some(s) => Some(s.as_str()),
        None => None,
    }
}

/// Best available version string for a service: the image's OCI version
/// label (the image's own claim about itself), else a version parsed from
/// the image tag, else the literal tag (`latest`, `main`), else the short
/// image id of the running container.
pub fn detect_version(image: Option<&str>, container: Option<&ContainerStatus>) -> (r: Option<
    String,
>)
    ensures
        text_opt(r) == version_of(
            str_opt(image),
            match container {
                Some(c) => Some(*c),
                None => None,
            },
        ),
{
    let (label, image_id): (Option<&str>, Option<&str>) = match container {
        Some(c) => (borrowed(&c.image_version_label), borrowed(&c.image_id)),
        None => (None, None),
    };
    let (version, tag): (Option<String>, Option<&str>) = match image {
        Some(image) => (extract_version(image), image_tag(image)),
        None => (None, None),
    };
    choose_version(label, version, tag, image_id)
}

/// The version cell: what the container runs, else what the compose file
/// declares.
pub open spec fn version_cell_text(
    image: Option<Seq<char>>,
    container: Option<ContainerStatus>,
) -> Seq<char> {
    let used = match container {
        Some(c) => Some(c.image@),
        None => image,
    };
    match version_of(used, container) {
        Some(v) => v,
        None => if container is Some {
            UNKNOWN@
        } else {
            NOT_APPLICABLE@
        },
    }
}

/// Version column: what the container runs, else what the compose file
/// declares.  `unknown` only when there *is* a container and nothing could
/// be determined; `-` when there's simply nothing to inspect.
pub fn version_cell(info: &ServiceInfo, container: Option<&ContainerStatus>) -> (r: String)
    ensures
        r@ == version_cell_text(
            text_opt(info.image),
            match container {
                Some(c) => Some(*c),
                None => None,
            },
        ),
{
    let image: Option<&str> = match container {
        Some(c) => Some(c.image.as_str()),
        None => borrowed(&info.image),
    };
    match detect_version(image, container) {
        Some(v) => v,
        None => match container {
            Some(_) => UNKNOWN.to_owned(),
            None => NOT_APPLICABLE.to_owned(),
        },
    }
}

/// What the image's own label claims is shown, whatever else is known.
pub proof fn law_label_wins(image: Option<Seq<char>>, container: ContainerStatus)
    requires
        container.image_version_label is Some,
    ensures
        version_of(image, Some(container)) == text_opt(container.image_version_label),
        version_cell_text(image, Some(container)) == container.image_version_label->Some_0@,
{
}

/// Where no version can be determined, `unknown` is shown if there is a
/// container, and `-` if there is nothing to inspect.
pub proof fn law_version_sentinels(image: Option<Seq<char>>, container: Option<ContainerStatus>)
    requires
        version_of(
            match container {
                Some(c) => Some(c.image@),
                None => image,
            },
            container,
        ) is None,
    ensures
        container is Some <==> version_cell_text(image, container) == UNKNOWN@,
        container is None <==> version_cell_text(image, container) == NOT_APPLICABLE@,
{
    reveal_strlit("unknown");
    reveal_strlit("-");
    assert(UNKNOWN@.len() != NOT_APPLICABLE@.len());
}

/// The version of an image is shown as its tag tells it where it has no label;
/// a tag without a version is shown itself, with the short id of what runs
/// behind it; only without a tag the id stands alone.
pub proof fn law_versions_fall_back(
    image: Seq<char>,
    tag: Option<Seq<char>>,
    container: ContainerStatus,
    id: String,
)
    requires
        container.image_version_label is None,
        tag_of(image) == tag,
    ensures
        image_version(image) is Some ==> version_of(Some(image), Some(container)) == image_version(
            image,
        ),
        image_version(image) is None && container.image_id is None ==> version_of(
            Some(image),
            Some(container),
        ) == tag,
        image_version(image) is None && container.image_id == Some(id) && tag is None
            ==> version_of(Some(image), Some(container)) == Some(short_id(id@)),
        image_version(image) is None && container.image_id == Some(id) && tag is Some
            ==> version_of(Some(image), Some(container)) == Some(
            tag->Some_0 + " ("@ + short_id(id@) + ")"@,
        ),
{
}

/// Where there is a container, the image that it runs is shown, whatever the
/// compose file declares by now; else that of the compose file.
pub proof fn law_running_image_is_shown(
    image: Option<Seq<char>>,
    other: Option<Seq<char>>,
    container: ContainerStatus,
)
    ensures
        version_cell_text(image, Some(container)) == version_cell_text(other, Some(container)),
        version_of(Some(container.image@), Some(container)) is Some ==> version_cell_text(
            image,
            Some(container),
        ) == version_of(Some(container.image@), Some(container))->Some_0,
        image matches Some(i) ==> (image_version(i) matches Some(v) ==> version_cell_text(
            image,
            None,
        ) == v),
        image matches Some(i) ==> (image_version(i) is None ==> (tag_of(i) matches Some(tag)
            ==> version_cell_text(image, None) == tag)),
        image is None ==> version_cell_text(image, None) == "-"@,
{
}

/// Without an image reference, a container's label tells its version, else its
/// short id does; without a container, the image reference alone does.
pub proof fn law_versions_without_image_or_container(image: Seq<char>, container: ContainerStatus)
    ensures
        container.image_version_label matches Some(label) ==> version_of(None, Some(container))
            == Some(label@),
        container.image_version_label is None ==> (container.image_id matches Some(id)
            ==> version_of(None, Some(container)) == Some(short_id(id@))),
        container.image_version_label is None && container.image_id is None ==> version_of(
            None,
            Some(container),
        ) is None,
        image_version(image) is Some ==> version_of(Some(image), None) == image_version(image),
        image_version(image) is None ==> version_of(Some(image), None) == tag_of(image),
        version_of(None, None) is None,
{
}

/// What cannot be told of a container is `unknown`, and what there is no
/// container for is `-`; a job that has not been run yet was so `never`.
pub proof fn law_words_for_what_is_missing(
    info: Info,
    container: ContainerStatus,
    now: Instant,
    offset: int,
)
    ensures
        version_of(Some(container.image@), Some(container)) is None ==> version_cell_text(
            info.image,
            Some(container),
        ) == "unknown"@,
        version_of(info.image, None) is None ==> version_cell_text(info.image, None) == "-"@,
        info.service_type == "job"@ && info.history is Never ==> started_text(
            info,
            None,
            now,
            offset,
        ) == "never"@,
        info.service_type == "job"@ && info.history is Unknown ==> started_text(
            info,
            None,
            now,
            offset,
        ) == "unknown"@,
        info.service_type != "job"@ && !(info.history is Last) ==> started_text(
            info,
            None,
            now,
            offset,
        ) == "-"@,
{
}

/// The cell of a job that was not run since the record begins.
pub open spec fn not_since_text(since: Instant, offset: int) -> Seq<char> {
    "not since "@ + time_text(Some(since), offset)
}

/// The started cell, with the times as they read at an offset from UTC.
pub open spec fn started_text(
    info: Info,
    container: Option<ContainerStatus>,
    now: Instant,
    offset: int,
) -> Seq<char> {
    match (container, info.history) {
        (Some(container), _) => time_text(instant_opt(container.started_at), offset),
        (None, RunHistory::Last(run)) => time_text(Some(run.started_at@), offset) + " ("@
            + duration_text(whole_seconds(elapsed(now, run.started_at@))) + " ago)"@,
        // a plain service is started by compose, not by composer, so the
        // absence of a composer record says nothing about it
        (None, history) => if info.service_type != JOB@ {
            NOT_APPLICABLE@
        } else {
            match history {
                RunHistory::NotSince(since) => not_since_text(since@, offset),
                RunHistory::Never => NEVER@,
                _ => UNKNOWN@,
            }
        },
    }
}

/// A container's own start time is shown, whatever the record tells.
pub proof fn law_container_start_wins(
    info: Info,
    other: Info,
    container: ContainerStatus,
    now: Instant,
    offset: int,
)
    ensures
        started_text(info, Some(container), now, offset) == started_text(
            other,
            Some(container),
            now,
            offset,
        ),
        started_text(info, Some(container), now, offset) == time_text(
            instant_opt(container.started_at),
            offset,
        ),
{
}

/// Without a container and a recorded run there is nothing to say of a plain
/// service, while of a job it is always said whether its history is known.
pub proof fn law_missing_record_of_a_plain_service(info: Info, now: Instant, offset: int)
    requires
        !(info.history is Last),
    ensures
        info.service_type != JOB@ ==> started_text(info, None, now, offset) == NOT_APPLICABLE@,
        info.service_type == JOB@ && info.history is Never ==> started_text(
            info,
            None,
            now,
            offset,
        ) == NEVER@,
        info.service_type == JOB@ && info.history is Unknown ==> started_text(
            info,
            None,
            now,
            offset,
        ) == UNKNOWN@,
{
}

/// Of a service without a container, the start of its last recorded run is
/// shown, and nothing else of that run counts: neither when it has ended nor
/// how.  An ended run reads as it did before it ended.
pub proof fn law_start_alone_is_shown(
    info: Info,
    other: Info,
    run: LastRun,
    other_run: LastRun,
    now: Instant,
    offset: int,
)
    requires
        info.history == RunHistory::Last(run),
        other.history == RunHistory::Last(other_run),
        run.started_at@ == other_run.started_at@,
    ensures
        started_text(info, None, now, offset) == started_text(other, None, now, offset),
        minute_text(run.started_at@.seconds, offset).is_prefix_of(
            started_text(info, None, now, offset),
        ),
{
    let cell = started_text(info, None, now, offset);
    let start = minute_text(run.started_at@.seconds, offset);
    assert(cell.subrange(0, start.len() as int) =~= start);
}

/// The start of a run is told with its age: the full seconds from the start
/// until now, by the clock.
pub proof fn law_age_counts_from_the_start(info: Info, run: LastRun, now: Instant, offset: int)
    requires
        info.history == RunHistory::Last(run),
        ordinary(now),
        ordinary(run.started_at@),
        0 <= now.nanos,
        0 <= run.started_at@.nanos,
        now.seconds > run.started_at@.seconds,
    ensures
        ({
            let age = now.seconds - run.started_at@.seconds - (if now.nanos
                < run.started_at@.nanos {
                1int
            } else {
                0
            });
            started_text(info, None, now, offset) == minute_text(run.started_at@.seconds, offset)
                + " ("@ + duration_text(age) + " ago)"@
        }),
{
}

/// A container's start is told by its time, or as unknown; a job that was not
/// run since some time, as that.
pub proof fn law_times_are_told(
    info: Info,
    container: ContainerStatus,
    now: Instant,
    offset: int,
)
    ensures
        container.started_at matches Some(t) ==> started_text(info, Some(container), now, offset)
            == minute_text(t@.seconds, offset),
        container.started_at is None ==> started_text(info, Some(container), now, offset)
            == "unknown"@,
        info.service_type == "job"@ ==> (info.history matches RunHistory::NotSince(t)
            ==> started_text(info, None, now, offset) == "not since "@ + minute_text(
            t@.seconds,
            offset,
        )),
{
}

/// A job composer has not run since the given time: `not since <time>`, the
/// time being how far back composer's record goes.  The record can be lost
/// (e.g. with a recreated scheduler container), so a bare "never" would claim
/// too much.
pub fn not_since_cell(since: Timestamp, offset: i32) -> (r: String)
    requires
        valid_offset(offset as int),
    ensures
        r@ == not_since_text(since@, offset as int),
{
    let mut r: String = "not since ".to_owned();
    r.append(format_time_in(Some(since), offset).as_str());
    r
}

/// Started column: the container's last start when there is one; otherwise
/// composer's own record of when it last ran the service.  `--rm` jobs leave
/// no container, so for them the record is the only source.  Times are given
/// in the zone at `offset` seconds east of UTC.
pub fn started_cell_in(
    info: &ServiceInfo,
    container: Option<&ContainerStatus>,
    now: Timestamp,
    offset: i32,
) -> (r: String)
    requires
        valid_offset(offset as int),
    ensures
        r@ == started_text(
            info@,
            match container {
                Some(c) => Some(*c),
                None => None,
            },
            now@,
            offset as int,
        ),
{
    if let Some(container) = container {
        return format_time_in(container.started_at, offset);
    }
    if let RunHistory::Last(run) = &info.history {
        let mut r: String = format_time_in(Some(run.started_at), offset);
        r.append(" (");
        r.append(short_duration(now.seconds_since(&run.started_at)).as_str());
        r.append(" ago)");
        return r;
    }
    if !same(info.service_type.as_str(), JOB) {
        return NOT_APPLICABLE.to_owned();
    }
    match &info.history {
        RunHistory::NotSince(since) => not_since_cell(*since, offset),
        RunHistory::Never => NEVER.to_owned(),
        _ => UNKNOWN.to_owned(),
    }
}

/// Started column in host-local time: as [`started_cell_in`] gives it, at the
/// offset that the machine has at the time that is shown.
pub fn started_cell(
    info: &ServiceInfo,
    container: Option<&ContainerStatus>,
    now: Timestamp,
) -> (r: String)
    ensures
        exists|offset: int| #[trigger]
            valid_offset(offset) && r@ == started_text(
                info@,
                match container {
                    Some(c) => Some(*c),
                    None => None,
                },
                now@,
                offset,
            ),
{
    let shown: Option<Timestamp> = match container {
        Some(c) => c.started_at,
        None => match &info.history {
            RunHistory::Last(run) => Some(run.started_at),
            RunHistory::NotSince(since) => Some(*since),
            _ => None,
        },
    };
    let offset: i32 = match shown {
        Some(t) => t.local_offset(),
        None => 0,
    };
    assert(valid_offset(offset as int));
    started_cell_in(info, container, now, offset)
}

/// What is known of a service of the compose file.
pub open spec fn info_of(
    name: Seq<char>,
    service: Service,
    runs: Option<Map<Seq<char>, LastRun>>,
) -> Info {
    Info {
        profile: match service.profiles {
            Some(profiles) => if profiles@.len() > 0 {
                profiles@[0]@
            } else {
                ""@
            },
            None => ""@,
        },
        name,
        service_type: if is_job(service) {
            JOB@
        } else {
            SERVICE@
        },
        image: text_opt(service.image),
        history: history_of(runs, name),
    }
}

/// Whether a service is run on a schedule.
pub open spec fn is_job(service: Service) -> bool {
    match service.labels {
        Some(labels) => has_key(labels@, RUN_KEY@),
        None => false,
    }
}

/// The services of the compose file, in the order of the file's model.
pub open spec fn listed(
    entries: Seq<(Seq<char>, Option<Service>)>,
    runs: Option<Map<Seq<char>, LastRun>>,
) -> Seq<Info>
    decreases entries.len(),
{
    if entries.len() == 0 {
        Seq::empty()
    } else {
        let rest = listed(entries.drop_last(), runs);
        match entries.last().1 {
            Some(service) => rest.push(info_of(entries.last().0, service, runs)),
            None => rest,
        }
    }
}

/// Services are shown by profile, then by name.
pub open spec fn shown_before(a: Info, b: Info) -> bool {
    text_lt(a.profile, b.profile) || (a.profile == b.profile && text_lt(a.name, b.name))
}

/// Whether services are in the order in which they are shown.
pub open spec fn in_order(infos: Seq<Info>) -> bool {
    forall|i: int, j: int|
        0 <= i < j < infos.len() ==> shown_before(#[trigger] infos[i], #[trigger] infos[j])
}

/// The models of services.
pub open spec fn infos_of(infos: Seq<ServiceInfo>) -> Seq<Info> {
    infos.map_values(|i: ServiceInfo| i@)
}

/// The runs of a project, as a map.
pub open spec fn runs_map(runs: Option<&TextMap<LastRun>>) -> Option<Map<Seq<char>, LastRun>> {
    match runs {
        Some(runs) => Some(map_of(runs@)),
        None => None,
    }
}

proof fn lemma_shown_before_transitive(a: Info, b: Info, c: Info)
    requires
        shown_before(a, b),
        shown_before(b, c),
    ensures
        shown_before(a, c),
{
    if text_lt(a.profile, b.profile) && text_lt(b.profile, c.profile) {
        lemma_text_lt_transitive(a.profile, b.profile, c.profile);
    }
    if text_lt(a.name, b.name) && text_lt(b.name, c.name) {
        lemma_text_lt_transitive(a.name, b.name, c.name);
    }
}

proof fn lemma_shown_before_asymmetric(a: Info, b: Info)
    requires
        shown_before(a, b),
    ensures
        !shown_before(b, a),
        a != b,
{
    if shown_before(b, a) {
        lemma_shown_before_transitive(a, b, a);
    }
    lemma_text_lt_irreflexive(a.profile);
    lemma_text_lt_irreflexive(a.name);
}

/// Services can be put in order in one way only.
pub proof fn law_order_is_determined(a: Seq<Info>, b: Seq<Info>)
    requires
        in_order(a),
        in_order(b),
        a.to_multiset() == b.to_multiset(),
    ensures
        a == b,
    decreases a.len(),
{
    broadcast use vstd::seq_lib::group_to_multiset_ensures;

    assert(a.len() == a.to_multiset().len() && b.len() == b.to_multiset().len());
    if a.len() == 0 {
        assert(a =~= b);
    } else {
        let x = a.last();
        let y = b.last();
        assert(a.contains(x) && b.contains(y));
        assert(a.to_multiset().count(x) > 0 && b.to_multiset().count(y) > 0);
        assert(b.contains(x) && a.contains(y));
        let i = choose|i: int| 0 <= i < b.len() && b[i] == x;
        let j = choose|j: int| 0 <= j < a.len() && a[j] == y;
        if x != y {
            assert(shown_before(b[i], b[b.len() - 1]));
            assert(shown_before(a[j], a[a.len() - 1]));
            lemma_shown_before_asymmetric(x, y);
        }
        assert(a.drop_last() =~= a.remove(a.len() - 1));
        assert(b.drop_last() =~= b.remove(b.len() - 1));
        assert(in_order(a.drop_last())) by {
            assert forall|i: int, j: int| 0 <= i < j < a.len() - 1 implies shown_before(
                #[trigger] a.drop_last()[i],
                #[trigger] a.drop_last()[j],
            ) by {
                assert(shown_before(a[i], a[j]));
            }
        }
        assert(in_order(b.drop_last())) by {
            assert forall|i: int, j: int| 0 <= i < j < b.len() - 1 implies shown_before(
                #[trigger] b.drop_last()[i],
                #[trigger] b.drop_last()[j],
            ) by {
                assert(shown_before(b[i], b[j]));
            }
        }
        law_order_is_determined(a.drop_last(), b.drop_last());
        assert(a =~= a.drop_last().push(x));
        assert(b =~= b.drop_last().push(y));
    }
}

/// Services are shown by profile; only within a profile the name counts.
pub proof fn law_profiles_come_first(a: Info, b: Info)
    ensures
        text_lt(a.profile, b.profile) ==> shown_before(a, b) && !shown_before(b, a),
        a.profile == b.profile && text_lt(a.name, b.name) ==> shown_before(a, b) && !shown_before(
            b,
            a,
        ),
        a.profile == b.profile && a.name == b.name ==> !shown_before(a, b),
{
    if text_lt(a.profile, b.profile) {
        lemma_text_lt_asymmetric(a.profile, b.profile);
    }
    lemma_text_lt_irreflexive(a.profile);
    lemma_text_lt_irreflexive(a.name);
    if text_lt(a.name, b.name) {
        lemma_text_lt_asymmetric(a.name, b.name);
    }
}

/// Each service of the compose file that is described there is listed once, and
/// no other: with each further one, one more is listed behind the others.
pub proof fn law_services_are_listed(
    entries: Seq<(Seq<char>, Option<Service>)>,
    runs: Option<Map<Seq<char>, LastRun>>,
    i: int,
)
    requires
        0 <= i < entries.len(),
    ensures
        entries[i].1 is Some ==> listed(entries, runs).contains(
            info_of(entries[i].0, entries[i].1->Some_0, runs),
        ),
        forall|info: Info| #[trigger]
            listed(entries, runs).contains(info) ==> exists|k: int|
                0 <= k < entries.len() && (#[trigger] entries[k]).1 is Some && info.name
                    == entries[k].0,
        listed(entries.take(i), runs).is_prefix_of(listed(entries, runs)),
        listed(entries.take(i + 1), runs).len() == listed(entries.take(i), runs).len() + if entries[i].1
            is Some {
            1int
        } else {
            0
        },
    decreases entries.len(),
{
    let less = entries.drop_last();
    let before = listed(less, runs);
    let all = listed(entries, runs);
    assert(all.subrange(0, before.len() as int) =~= before);
    assert(entries.take(i + 1).drop_last() =~= entries.take(i));
    assert(entries.take(i + 1).last() == entries[i]);
    if less.len() > 0 {
        let m = if i < less.len() {
            i
        } else {
            0
        };
        law_services_are_listed(less, runs, m);
    }
    if i < less.len() {
        assert(less.take(i) =~= entries.take(i));
        assert(less[i] == entries[i]);
        let first = listed(entries.take(i), runs);
        assert(all.subrange(0, first.len() as int) =~= before.subrange(0, first.len() as int));
        if entries[i].1 is Some {
            let info = info_of(entries[i].0, entries[i].1->Some_0, runs);
            let k = choose|k: int| 0 <= k < before.len() && before[k] == info;
            assert(all[k] == info);
        }
    } else {
        assert(entries.take(i) =~= less);
        if entries[i].1 is Some {
            assert(all[all.len() - 1] == info_of(entries[i].0, entries[i].1->Some_0, runs));
        }
    }
    assert forall|info: Info| #[trigger] all.contains(info) implies exists|k: int|
        0 <= k < entries.len() && (#[trigger] entries[k]).1 is Some && info.name
            == entries[k].0 by {
        let j = choose|j: int| 0 <= j < all.len() && all[j] == info;
        if j < before.len() {
            assert(before[j] == info);
            assert(before.contains(info));
            let k = choose|k: int|
                0 <= k < less.len() && (#[trigger] less[k]).1 is Some && info.name == less[k].0;
            assert(entries[k] == less[k]);
        } else {
            assert(entries[entries.len() - 1].1 is Some);
        }
    }
}

/// What is listed of a service: its own name and image, its first profile, that
/// it is a job exactly if it has the plain run label, and its history in the
/// record.
pub proof fn law_services_are_described(
    name: Seq<char>,
    service: Service,
    runs: Option<Map<Seq<char>, LastRun>>,
)
    ensures
        ({
            let info = info_of(name, service, runs);
            &&& info.name == name
            &&& service.image matches Some(image) ==> info.image == Some(image@)
            &&& service.image is None ==> info.image is None
            &&& (service.profiles matches Some(p) && p@.len() > 0) ==> info.profile
                == service.profiles->Some_0@[0]@
            &&& (service.profiles matches Some(p) ==> p@.len() == 0) ==> info.profile == ""@
            &&& info.service_type == "job"@ <==> (service.labels matches Some(labels) && exists|k:
                int|
                0 <= k < labels@.len() && (#[trigger] labels@[k]).0 == "co.architect.composer.run"@)
            &&& info.service_type == "job"@ || info.service_type == "service"@
            &&& runs is None ==> info.history is Unknown
            &&& runs matches Some(r) ==> (r.dom().contains(name) ==> info.history
                == RunHistory::Last(r[name]))
            &&& runs matches Some(r) ==> (!r.dom().contains(name) ==> info.history is Never)
        }),
{
    reveal_strlit("job");
    reveal_strlit("service");
    assert(JOB@.len() != SERVICE@.len());
}

/// Whether a service comes before another.
fn comes_before(a: &ServiceInfo, b: &ServiceInfo) -> (r: bool)
    ensures
        r == shown_before(a@, b@),
{
    lt(a.profile.as_str(), b.profile.as_str()) || (same(a.profile.as_str(), b.profile.as_str())
        && lt(a.name.as_str(), b.name.as_str()))
}

/// Puts a service in its place among those that are in order, none of which
/// has its name.
fn put_in_order(infos: &mut Vec<ServiceInfo>, info: ServiceInfo)
    requires
        in_order(infos_of(old(infos)@)),
        forall|i: int| 0 <= i < old(infos)@.len() ==> (#[trigger] old(infos)@[i]).name@ != info.name@,
    ensures
        in_order(infos_of(final(infos)@)),
        infos_of(final(infos)@).to_multiset() == infos_of(old(infos)@).to_multiset().insert(info@),
        forall|i: int|
            0 <= i < final(infos)@.len() ==> (#[trigger] final(infos)@[i]) == info || old(
                infos,
            )@.contains(final(infos)@[i]),
{
    let ghost was = infos_of(infos@);
    let ghost before = infos@;
    let mut p: usize = 0;
    while p < infos.len() && !comes_before(&info, &infos[p])
        invariant
            p <= infos@.len(),
            was == infos_of(infos@),
            forall|i: int| 0 <= i < p ==> !shown_before(info@, #[trigger] was[i]),
        decreases infos.len() - p,
    {
        assert(was[p as int] == infos@[p as int]@);
        p = p + 1;
    }
    infos.insert(p, info);
    proof {
        let now = infos_of(infos@);
        assert(now =~= was.insert(p as int, info@));
        vstd::seq_lib::to_multiset_insert(was, p as int, info@);
        assert forall|i: int, j: int| 0 <= i < j < now.len() implies shown_before(
            #[trigger] now[i],
            #[trigger] now[j],
        ) by {
            if j < p {
                assert(shown_before(was[i], was[j]));
            } else if i > p {
                assert(shown_before(was[i - 1], was[j - 1]));
            } else {
                if i < p {
                    assert(before[i].name@ != info.name@);
                    assert(was[i].name == before[i].name@);
                    lemma_text_lt_total(was[i].profile, info.profile@);
                    lemma_text_lt_total(was[i].name, info.name@);
                    assert(shown_before(was[i], info@));
                }
                if j > p {
                    assert(shown_before(info@, was[p as int]));
                    if p < j - 1 {
                        assert(shown_before(was[p as int], was[j - 1]));
                        lemma_shown_before_transitive(info@, was[p as int], was[j - 1]);
                    }
                }
                if i < p && j > p {
                    lemma_shown_before_transitive(was[i], info@, was[j - 1]);
                }
            }
        }
        assert forall|i: int| 0 <= i < infos@.len() implies (#[trigger] infos@[i]) == info
            || before.contains(infos@[i]) by {
            if i < p {
                assert(infos@[i] == before[i]);
            } else if i > p {
                assert(infos@[i] == before[i - 1]);
            }
        }
    }
}

/// The services that the compose file describes, by profile and name, with
/// what the record tells of each.
pub fn service_infos(compose: &Compose, runs: Option<&TextMap<LastRun>>) -> (r: Vec<ServiceInfo>)
    ensures
        in_order(infos_of(r@)),
        infos_of(r@).to_multiset() == listed(compose.services@, runs_map(runs)).to_multiset(),
{
    let mut r: Vec<ServiceInfo> = Vec::new();
    let n: usize = compose.services.len();
    let ghost entries = compose.services@;
    let mut i: usize = 0;
    assert(infos_of(r@) =~= listed(entries.take(0), runs_map(runs)));
    while i < n
        invariant
            n == entries.len(),
            entries == compose.services@,
            ordered(entries),
            i <= n,
            in_order(infos_of(r@)),
            infos_of(r@).to_multiset() == listed(
                entries.take(i as int),
                runs_map(runs),
            ).to_multiset(),
            forall|j: int|
                0 <= j < r@.len() ==> exists|k: int|
                    0 <= k < i && (#[trigger] r@[j]).name@ == (#[trigger] entries[k]).0,
        decreases n - i,
    {
        let name: &String = compose.services.key(i);
        let ghost sofar = listed(entries.take(i as int), runs_map(runs));
        assert(entries.take(i + 1).drop_last() =~= entries.take(i as int));
        assert(entries.take(i + 1).last() == entries[i as int]);
        if let Some(service) = compose.services.value(i) {
            // Get profile (first one if multiple)
            let profile: String = match &service.profiles {
                Some(profiles) => if profiles.len() > 0 {
                    profiles[0].clone()
                } else {
                    "".to_owned()
                },
                None => "".to_owned(),
            };
            // Determine service type: job if it has the run label, service otherwise
            let job = match &service.labels {
                Some(labels) => labels.get(RUN_KEY).is_some(),
                None => false,
            };
            let info = ServiceInfo {
                profile,
                name: name.clone(),
                service_type: if job {
                    JOB.to_owned()
                } else {
                    SERVICE.to_owned()
                },
                image: service.image.clone(),
                history: history(runs, name.as_str()),
            };
            let ghost before = r@;
            proof {
                assert(info@ == info_of(entries[i as int].0, *service, runs_map(runs)));
                assert forall|j: int| 0 <= j < r@.len() implies (#[trigger] r@[j]).name@
                    != info.name@ by {
                    let k = choose|k: int| 0 <= k < i && r@[j].name@ == (#[trigger] entries[k]).0;
                    assert(text_lt(entries[k].0, entries[i as int].0));
                    lemma_text_lt_irreflexive(info.name@);
                }
                vstd::seq_lib::to_multiset_build(sofar, info@);
            }
            put_in_order(&mut r, info);
            assert forall|j: int| 0 <= j < r@.len() implies exists|k: int|
                0 <= k < i + 1 && (#[trigger] r@[j]).name@ == (#[trigger] entries[k]).0 by {
                if r@[j] == info {
                    assert(r@[j].name@ == entries[i as int].0);
                } else {
                    let q = choose|q: int| 0 <= q < before.len() && before[q] == r@[j];
                    let k = choose|k: int|
                        0 <= k < i && before[q].name@ == (#[trigger] entries[k]).0;
                    assert(r@[j].name@ == entries[k].0);
                }
            }
        } else {
            assert forall|j: int| 0 <= j < r@.len() implies exists|k: int|
                0 <= k < i + 1 && (#[trigger] r@[j]).name@ == (#[trigger] entries[k]).0 by {
                let k = choose|k: int| 0 <= k < i && r@[j].name@ == (#[trigger] entries[k]).0;
                assert(r@[j].name@ == entries[k].0);
            }
        }
        i = i + 1;
    }
    assert(entries.take(n as int) =~= entries);
    r
}

/// A line of what `docker compose ps` reports: a container.
#[derive(Debug)]
pub struct PsRow {
    pub id: String,
    pub service: String,
    pub state: String,
    pub status: String,
    pub image: String,
}

/// What `docker inspect` tells of a container.
#[derive(Debug)]
pub struct ContainerDetails {
    pub id: String,
    pub started_at: Option<Timestamp>,
    pub image_id: String,
    pub version_label: Option<String>,
}

/// The model of what `docker inspect` tells of a container.
pub struct Details {
    pub id: Seq<char>,
    pub started_at: Option<Instant>,
    pub image_id: Seq<char>,
    pub version_label: Option<Seq<char>>,
}

impl View for ContainerDetails {
    type V = Details;

    open spec fn view(&self) -> Details {
        Details {
            id: self.id@,
            started_at: instant_opt(self.started_at),
            image_id: self.image_id@,
            version_label: text_opt(self.version_label),
        }
    }
}

/// The command that lists the containers of the project, also those that do
/// not run.
pub fn ps_command(context: &ComposeContext) -> (r: CommandLine)
    ensures
        r.program@ == "docker"@,
        texts(r.args@) == compose_args(*context, None) + seq![
            "ps"@,
            "--all"@,
            "--format"@,
            "json"@,
        ],
{
    let cmd = compose_command(context, None).arg("ps").arg("--all").arg("--format").arg("json");
    assert(texts(cmd.args@) =~= compose_args(*context, None) + seq![
        "ps"@,
        "--all"@,
        "--format"@,
        "json"@,
    ]);
    cmd
}

/// What `docker compose ps` tells of a container.
pub open spec fn container_of(row: PsRow) -> ContainerStatus {
    ContainerStatus {
        state: row.state,
        status: row.status,
        image: row.image,
        started_at: None,
        image_id: None,
        image_version_label: None,
    }
}

/// The container of each service: the last one listed.
pub open spec fn containers_of(rows: Seq<PsRow>) -> Map<Seq<char>, ContainerStatus>
    decreases rows.len(),
{
    if rows.len() == 0 {
        Map::empty()
    } else {
        containers_of(rows.drop_last()).insert(rows.last().service@, container_of(rows.last()))
    }
}

/// The service of each container id that is not empty: the last one listed
/// with it.
pub open spec fn ids_of(rows: Seq<PsRow>) -> Map<Seq<char>, String>
    decreases rows.len(),
{
    if rows.len() == 0 {
        Map::empty()
    } else if rows.last().id@.len() == 0 {
        ids_of(rows.drop_last())
    } else {
        ids_of(rows.drop_last()).insert(rows.last().id@, rows.last().service)
    }
}

/// Whether `ids` are the container ids of the rows, each with its service, in
/// the order of the ids.
pub open spec fn lists_ids(ids: Seq<(Seq<char>, String)>, rows: Seq<PsRow>) -> bool {
    ordered(ids) && map_of(ids) == ids_of(rows)
}

/// The services of the containers, by container id.
pub fn container_ids(rows: &Vec<PsRow>) -> (r: TextMap<String>)
    ensures
        lists_ids(r@, rows@),
{
    let mut r: TextMap<String> = TextMap::new();
    let mut i: usize = 0;
    assert(map_of(r@) =~= Map::empty());
    while i < rows.len()
        invariant
            i <= rows@.len(),
            map_of(r@) == ids_of(rows@.take(i as int)),
        decreases rows.len() - i,
    {
        assert(rows@.take(i + 1).drop_last() =~= rows@.take(i as int));
        if !rows[i].id.as_str().is_empty() {
            r.insert(rows[i].id.clone(), rows[i].service.clone());
        }
        i = i + 1;
    }
    assert(rows@.take(rows@.len() as int) =~= rows@);
    let _: usize = r.len();
    r
}

/// The containers, by service.
fn containers(rows: Vec<PsRow>) -> (r: TextMap<ContainerStatus>)
    ensures
        map_of(r@) == containers_of(rows@),
{
    let ghost all = rows@;
    let mut r: TextMap<ContainerStatus> = TextMap::new();
    assert(map_of(r@) =~= Map::empty());
    for row in it: rows
        invariant
            it.seq() == all,
            map_of(r@) == containers_of(all.take(it.index() as int)),
    {
        assert(all.take(it.index() as int + 1).drop_last() =~= all.take(it.index() as int));
        r.insert(
            row.service,
            ContainerStatus {
                state: row.state,
                status: row.status,
                image: row.image,
                started_at: None,
                image_id: None,
                image_version_label: None,
            },
        );
    }
    assert(all.take(all.len() as int) =~= all);
    r
}

/// The template by which `docker inspect` prints the id, the start time, the
/// image id and the version label of a container, with tabs between them.
pub const INSPECT_FORMAT: &'static str =
    "{{.Id}}\t{{.State.StartedAt}}\t{{.Image}}\t{{index .Config.Labels \"org.opencontainers.image.version\"}}";

/// The arguments with which `docker` is run to inspect containers.
pub open spec fn inspect_args(ids: Seq<Seq<char>>) -> Seq<Seq<char>> {
    seq!["inspect"@, "--type"@, "container"@, "--format"@, INSPECT_FORMAT@] + ids
}

/// The command that inspects all containers in one call: none where there is
/// no container.
pub fn inspect_command(ids: &TextMap<String>) -> (r: Option<CommandLine>)
    ensures
        r is None <==> ids@.len() == 0,
        r matches Some(cmd) ==> cmd.program@ == "docker"@ && texts(cmd.args@) == inspect_args(
            keys_of(ids@),
        ),
{
    let n: usize = ids.len();
    if n == 0 {
        return None;
    }
    let mut cmd = CommandLine::new("docker").arg("inspect").arg("--type").arg("container").arg(
        "--format",
    ).arg(INSPECT_FORMAT);
    assert(texts(cmd.args@) =~= inspect_args(keys_of(ids@).take(0)));
    let mut i: usize = 0;
    while i < n
        invariant
            n == ids@.len(),
            i <= n,
            cmd.program@ == "docker"@,
            texts(cmd.args@) == inspect_args(keys_of(ids@).take(i as int)),
        decreases n - i,
    {
        let ghost was = texts(cmd.args@);
        cmd = cmd.arg(ids.key(i).as_str());
        assert(was.push(ids@[i as int].0) =~= inspect_args(keys_of(ids@).take(i + 1)));
        i = i + 1;
    }
    assert(keys_of(ids@).take(n as int) =~= keys_of(ids@));
    Some(cmd)
}

/// What a line of the output of the inspect command tells: nothing where it
/// has fewer than three fields.
pub open spec fn line_details(line: Seq<char>) -> Option<Details> {
    let parts = pieces(line, '\t');
    if parts.len() < 3 {
        None
    } else {
        Some(
            Details {
                id: parts[0],
                started_at: docker_time(parts[1]),
                image_id: parts[2],
                version_label: if parts.len() > 3 {
                    label_value(parts[3])
                } else {
                    None
                },
            },
        )
    }
}

/// What lines of the output of the inspect command tell.
pub open spec fn lines_details(lines: Seq<Seq<char>>) -> Seq<Details>
    decreases lines.len(),
{
    if lines.len() == 0 {
        Seq::empty()
    } else {
        match line_details(lines.last()) {
            Some(d) => lines_details(lines.drop_last()).push(d),
            None => lines_details(lines.drop_last()),
        }
    }
}

/// Reads the output of the inspect command.  Containers that have disappeared
/// since they were listed are skipped rather than failing the whole status.
pub fn parse_inspect(out: &str) -> (r: Vec<ContainerDetails>)
    ensures
        r@.map_values(|d: ContainerDetails| d@) == lines_details(lines_of(out@)),
{
    let lines = lines(out);
    let ghost all = lines@.map_values(|l: &str| l@);
    let ghost view = |d: ContainerDetails| d@;
    let mut r: Vec<ContainerDetails> = Vec::new();
    let mut i: usize = 0;
    assert(r@.map_values(view) =~= Seq::empty());
    while i < lines.len()
        invariant
            i <= lines@.len(),
            view == (|d: ContainerDetails| d@),
            all == lines@.map_values(|l: &str| l@),
            r@.map_values(view) == lines_details(all.take(i as int)),
        decreases lines.len() - i,
    {
        assert(all.take(i + 1).drop_last() =~= all.take(i as int));
        assert(all.take(i + 1).last() == lines@[i as int]@);
        let parts = split(lines[i], '\t');
        let ghost fields = parts@.map_values(|p: &str| p@);
        assert(fields == pieces(lines@[i as int]@, '\t'));
        if parts.len() >= 3 {
            assert(fields[0] == parts@[0]@ && fields[1] == parts@[1]@ && fields[2] == parts@[2]@);
            let version_label = if parts.len() > 3 {
                assert(fields[3] == parts@[3]@);
                parse_label_value(parts[3])
            } else {
                None
            };
            let details = ContainerDetails {
                id: parts[0].to_owned(),
                started_at: parse_docker_time(parts[1]),
                image_id: parts[2].to_owned(),
                version_label,
            };
            let ghost was = r@;
            r.push(details);
            assert(r@.map_values(view) =~= was.map_values(view).push(details@));
        }
        i = i + 1;
    }
    assert(all.take(all.len() as int) =~= all);
    r
}

/// The service of a container: that of the first of the listed ids which the
/// full id starts with.
pub open spec fn service_of(ids: Seq<(Seq<char>, String)>, full_id: Seq<char>) -> Option<String>
    decreases ids.len(),
{
    if ids.len() == 0 {
        None
    } else if ids[0].0.is_prefix_of(full_id) {
        Some(ids[0].1)
    } else {
        service_of(ids.drop_first(), full_id)
    }
}

/// A container with the details that were found.
pub open spec fn with_details(
    container: ContainerStatus,
    details: ContainerDetails,
) -> ContainerStatus {
    ContainerStatus {
        started_at: details.started_at,
        image_id: Some(details.image_id),
        image_version_label: details.version_label,
        ..container
    }
}

/// The containers, with the details of one of them.
pub open spec fn detailed(
    containers: Map<Seq<char>, ContainerStatus>,
    ids: Seq<(Seq<char>, String)>,
    details: ContainerDetails,
) -> Map<Seq<char>, ContainerStatus> {
    match service_of(ids, details.id@) {
        Some(service) => if containers.dom().contains(service@) {
            containers.insert(service@, with_details(containers[service@], details))
        } else {
            containers
        },
        None => containers,
    }
}

/// The containers, with all details that were found.
pub open spec fn all_detailed(
    containers: Map<Seq<char>, ContainerStatus>,
    ids: Seq<(Seq<char>, String)>,
    details: Seq<ContainerDetails>,
) -> Map<Seq<char>, ContainerStatus>
    decreases details.len(),
{
    if details.len() == 0 {
        containers
    } else {
        detailed(all_detailed(containers, ids, details.drop_last()), ids, details.last())
    }
}

/// The service of a container, by the listed ids.
fn find_service<'a>(ids: &'a TextMap<String>, full_id: &str) -> (r: Option<&'a String>)
    ensures
        match service_of(ids@, full_id@) {
            Some(s) => r == Some(&s),
            None => r is None,
        },
{
    let n: usize = ids.len();
    let mut i: usize = 0;
    assert(ids@.skip(0) =~= ids@);
    while i < n
        invariant
            n == ids@.len(),
            i <= n,
            service_of(ids@, full_id@) == service_of(ids@.skip(i as int), full_id@),
        decreases n - i,
    {
        assert(ids@.skip(i as int).drop_first() =~= ids@.skip(i + 1));
        // compose ps reports short ids; inspect reports full ids
        if starts_with(full_id, ids.key(i).as_str()) {
            return Some(ids.value(i));
        }
        i = i + 1;
    }
    None
}

/// Adds to the containers what inspecting them has told.
fn add_details(
    containers: &mut TextMap<ContainerStatus>,
    ids: &TextMap<String>,
    details: Vec<ContainerDetails>,
)
    ensures
        map_of(final(containers)@) == all_detailed(map_of(old(containers)@), ids@, details@),
{
    let ghost all = details@;
    let ghost before = map_of(containers@);
    for d in it: details
        invariant
            it.seq() == all,
            map_of(containers@) == all_detailed(before, ids@, all.take(it.index() as int)),
    {
        let ghost was = map_of(containers@);
        assert(all.take(it.index() as int + 1).drop_last() =~= all.take(it.index() as int));
        if let Some(service) = find_service(ids, d.id.as_str()) {
            match containers.remove(service.as_str()) {
                Some(container) => {
                    let updated = ContainerStatus {
                        state: container.state,
                        status: container.status,
                        image: container.image,
                        started_at: d.started_at,
                        image_id: Some(d.image_id),
                        image_version_label: d.version_label,
                    };
                    containers.insert(service.clone(), updated);
                    proof {
                        assert(was.dom().contains(service@));
                        assert(was[service@] == container);
                        assert(was.remove(service@).insert(service@, updated) =~= was.insert(
                            service@,
                            updated,
                        ));
                    }
                },
                None => {
                    proof {
                        assert(!was.dom().contains(service@));
                        assert(was.remove(service@) =~= was);
                    }
                },
            }
        }
    }
    assert(all.take(all.len() as int) =~= all);
}

/// What the status table shows, from the compose file, the record, the
/// containers that the ps command has listed, and what inspecting those (see
/// [`inspect_command`]) has told.
pub fn gather_status_data(
    compose: &Compose,
    runs: Option<&TextMap<LastRun>>,
    rows: Vec<PsRow>,
    details: Vec<ContainerDetails>,
) -> (r: (Vec<ServiceInfo>, TextMap<ContainerStatus>))
    ensures
        in_order(infos_of(r.0@)),
        infos_of(r.0@).to_multiset() == listed(compose.services@, runs_map(runs)).to_multiset(),
        exists|ids: Seq<(Seq<char>, String)>| #[trigger]
            lists_ids(ids, rows@) && map_of(r.1@) == all_detailed(
                containers_of(rows@),
                ids,
                details@,
            ),
{
    let infos = service_infos(compose, runs);
    let ids = container_ids(&rows);
    let mut status_map = containers(rows);
    assert(lists_ids(ids@, rows@));
    add_details(&mut status_map, &ids, details);
    (infos, status_map)
}

/// The container ids of the rows are listed in one way only.
pub proof fn law_ids_are_determined(
    a: Seq<(Seq<char>, String)>,
    b: Seq<(Seq<char>, String)>,
    rows: Seq<PsRow>,
)
    requires
        lists_ids(a, rows),
        lists_ids(b, rows),
    ensures
        a == b,
{
    lemma_entries_from_map(a, b);
}

/// Inspecting containers neither adds nor takes away any, and changes nothing
/// of what was listed of them.
pub proof fn law_details_keep_what_was_listed(
    containers: Map<Seq<char>, ContainerStatus>,
    ids: Seq<(Seq<char>, String)>,
    details: Seq<ContainerDetails>,
)
    ensures
        all_detailed(containers, ids, details).dom() == containers.dom(),
        forall|s: Seq<char>| #[trigger]
            containers.dom().contains(s) ==> {
                let c = all_detailed(containers, ids, details)[s];
                c.state == containers[s].state && c.status == containers[s].status && c.image
                    == containers[s].image
            },
    decreases details.len(),
{
    if details.len() > 0 {
        law_details_keep_what_was_listed(containers, ids, details.drop_last());
        assert(all_detailed(containers, ids, details).dom() =~= containers.dom());
    }
}

/// The container of a service is the one that is listed last for it, as it is
/// listed; a service for which none is listed has none.
pub proof fn law_last_container_counts(rows: Seq<PsRow>, i: int, service: Seq<char>)
    ensures
        0 <= i < rows.len() && rows[i].service@ == service && (forall|j: int|
            i < j < rows.len() ==> (#[trigger] rows[j]).service@ != service) ==> {
            let c = containers_of(rows)[service];
            &&& containers_of(rows).dom().contains(service)
            &&& c.state == rows[i].state
            &&& c.status == rows[i].status
            &&& c.image == rows[i].image
            &&& c.started_at is None
            &&& c.image_id is None
            &&& c.image_version_label is None
        },
        containers_of(rows).dom().contains(service) <==> exists|j: int|
            0 <= j < rows.len() && (#[trigger] rows[j]).service@ == service,
    decreases rows.len(),
{
    if rows.len() > 0 {
        let less = rows.drop_last();
        law_last_container_counts(less, i, service);
        assert(rows[rows.len() - 1] == rows.last());
        assert forall|j: int| 0 <= j < less.len() implies #[trigger] less[j] == rows[j] by {}
        if containers_of(less).dom().contains(service) {
            let j = choose|j: int| 0 <= j < less.len() && (#[trigger] less[j]).service@ == service;
            assert(rows[j].service@ == service);
        }
        if exists|j: int| 0 <= j < rows.len() && (#[trigger] rows[j]).service@ == service {
            let j = choose|j: int| 0 <= j < rows.len() && (#[trigger] rows[j]).service@ == service;
            if j < less.len() {
                assert(less[j].service@ == service);
            }
        }
        if 0 <= i < less.len() {
            assert(less[i] == rows[i]);
        }
    }
}

/// The container ids are those that are listed and not empty, each with the
/// service that it is listed for last.
pub proof fn law_ids_belong_to_services(rows: Seq<PsRow>, i: int, id: Seq<char>)
    ensures
        0 <= i < rows.len() && rows[i].id@ == id && id.len() > 0 && (forall|j: int|
            i < j < rows.len() ==> (#[trigger] rows[j]).id@ != id) ==> ids_of(rows).dom().contains(
            id,
        ) && ids_of(rows)[id] == rows[i].service,
        ids_of(rows).dom().contains(id) ==> id.len() > 0 && exists|j: int|
            0 <= j < rows.len() && (#[trigger] rows[j]).id@ == id,
    decreases rows.len(),
{
    if rows.len() > 0 {
        let less = rows.drop_last();
        law_ids_belong_to_services(less, i, id);
        assert(rows[rows.len() - 1] == rows.last());
        assert forall|j: int| 0 <= j < less.len() implies #[trigger] less[j] == rows[j] by {}
        if ids_of(less).dom().contains(id) {
            let j = choose|j: int| 0 <= j < less.len() && (#[trigger] less[j]).id@ == id;
            assert(rows[j].id@ == id);
        }
        if 0 <= i < less.len() {
            assert(less[i] == rows[i]);
        }
    }
}

/// The service of a container is found by the first of the listed ids that its
/// full id starts with, and only where there is one.
pub proof fn law_full_ids_start_with_listed_ones(
    ids: Seq<(Seq<char>, String)>,
    full_id: Seq<char>,
    i: int,
)
    ensures
        0 <= i < ids.len() && ids[i].0.is_prefix_of(full_id) && (forall|j: int|
            0 <= j < i ==> !(#[trigger] ids[j]).0.is_prefix_of(full_id)) ==> service_of(
            ids,
            full_id,
        ) == Some(ids[i].1),
        (forall|j: int| 0 <= j < ids.len() ==> !(#[trigger] ids[j]).0.is_prefix_of(full_id))
            ==> service_of(ids, full_id) is None,
    decreases ids.len(),
{
    if ids.len() > 0 {
        let rest = ids.drop_first();
        law_full_ids_start_with_listed_ones(rest, full_id, i - 1);
        assert forall|j: int| 0 <= j < rest.len() implies #[trigger] rest[j] == ids[j + 1] by {}
        if 0 < i < ids.len() {
            assert(!(forall|j: int| 0 <= j < i ==> !(#[trigger] ids[j]).0.is_prefix_of(full_id))
                || !ids[0].0.is_prefix_of(full_id));
            assert(rest[i - 1] == ids[i]);
            if forall|j: int| 0 <= j < i ==> !(#[trigger] ids[j]).0.is_prefix_of(full_id) {
                assert forall|j: int| 0 <= j < i - 1 implies !(
                #[trigger] rest[j]).0.is_prefix_of(full_id) by {
                    assert(!ids[j + 1].0.is_prefix_of(full_id));
                }
            }
        }
        if forall|j: int| 0 <= j < ids.len() ==> !(#[trigger] ids[j]).0.is_prefix_of(full_id) {
            assert forall|j: int| 0 <= j < rest.len() implies !(#[trigger] rest[j]).0.is_prefix_of(
                full_id,
            ) by {
                assert(!ids[j + 1].0.is_prefix_of(full_id));
            }
            assert(!ids[0].0.is_prefix_of(full_id));
        }
    }
}

/// What inspecting has told last of a container stands with its service: when
/// it was started, its image and the image's label.  What is told of the
/// containers of other services makes no difference.
pub proof fn law_details_reach_their_service(
    containers: Map<Seq<char>, ContainerStatus>,
    ids: Seq<(Seq<char>, String)>,
    details: Seq<ContainerDetails>,
    i: int,
    service: String,
)
    requires
        containers.dom().contains(service@),
        0 <= i < details.len(),
        service_of(ids, details[i].id@) == Some(service),
        forall|j: int|
            i < j < details.len() ==> (service_of(ids, (#[trigger] details[j]).id@) matches Some(s)
                ==> s@ != service@),
    ensures
        ({
            let c = all_detailed(containers, ids, details)[service@];
            &&& c.started_at == details[i].started_at
            &&& c.image_id == Some(details[i].image_id)
            &&& c.image_version_label == details[i].version_label
        }),
    decreases details.len(),
{
    let less = details.drop_last();
    law_details_keep_what_was_listed(containers, ids, less);
    if i < less.len() {
        assert(less[i] == details[i]);
        assert forall|j: int| i < j < less.len() implies (service_of(
            ids,
            (#[trigger] less[j]).id@,
        ) matches Some(s) ==> s@ != service@) by {
            assert(less[j] == details[j]);
        }
        law_details_reach_their_service(containers, ids, less, i, service);
        assert(details[details.len() - 1] == details.last());
    }
}

/// A container of which inspecting has told nothing stays as it was listed.
pub proof fn law_containers_without_details_stay(
    containers: Map<Seq<char>, ContainerStatus>,
    ids: Seq<(Seq<char>, String)>,
    details: Seq<ContainerDetails>,
    service: Seq<char>,
)
    requires
        containers.dom().contains(service),
        forall|j: int|
            0 <= j < details.len() ==> (service_of(ids, (#[trigger] details[j]).id@) matches Some(s)
                ==> s@ != service),
    ensures
        all_detailed(containers, ids, details)[service] == containers[service],
    decreases details.len(),
{
    if details.len() > 0 {
        let less = details.drop_last();
        assert forall|j: int| 0 <= j < less.len() implies (service_of(
            ids,
            (#[trigger] less[j]).id@,
        ) matches Some(s) ==> s@ != service) by {
            assert(less[j] == details[j]);
        }
        law_containers_without_details_stay(containers, ids, less, service);
        law_details_keep_what_was_listed(containers, ids, less);
        assert(details[details.len() - 1] == details.last());
    }
}

/// A line that the inspect command prints reads back as what it was printed
/// from.
pub proof fn law_inspected_lines_read_back(
    id: Seq<char>,
    started: Seq<char>,
    image_id: Seq<char>,
    label: Seq<char>,
)
    requires
        !id.contains('\t'),
        !started.contains('\t'),
        !image_id.contains('\t'),
        !label.contains('\t'),
    ensures
        line_details(
            id + seq!['\t'] + started + seq!['\t'] + image_id + seq!['\t'] + label,
        ) == Some(
            (Details {
                id,
                started_at: docker_time(started),
                image_id,
                version_label: label_value(label),
            }),
        ),
        line_details(id + seq!['\t'] + started + seq!['\t'] + image_id) == Some(
            (Details { id, started_at: docker_time(started), image_id, version_label: None }),
        ),
        line_details(id + seq!['\t'] + started) is None,
        line_details(id) is None,
{
    let tab = seq!['\t'];
    let a = id + tab + started;
    let b = a + tab + image_id;
    let c = b + tab + label;
    lemma_pieces_apart(id, '\t', started);
    lemma_pieces_apart(a, '\t', image_id);
    lemma_pieces_apart(b, '\t', label);
    assert(pieces(a, '\t') =~= seq![id, started]);
    assert(pieces(b, '\t') =~= seq![id, started, image_id]);
    assert(pieces(c, '\t') =~= seq![id, started, image_id, label]);
}

/// The inspect command names each container by its id, in order, and asks for the
/// four fields that are read.
pub proof fn law_inspect_commands_name_all_containers(ids: Seq<Seq<char>>, i: int)
    ensures
        inspect_args(ids).len() == 5 + ids.len(),
        inspect_args(ids).take(4) == seq!["inspect"@, "--type"@, "container"@, "--format"@],
        inspect_args(ids)[4]
            == "{{.Id}}\t{{.State.StartedAt}}\t{{.Image}}\t{{index .Config.Labels \"org.opencontainers.image.version\"}}"@,
        0 <= i < ids.len() ==> inspect_args(ids)[5 + i] == ids[i],
{
    assert(inspect_args(ids).take(4) =~= seq!["inspect"@, "--type"@, "container"@, "--format"@]);
}

/// What lines tell adds up: a line that tells nothing hides no other.
pub proof fn law_inspected_lines_add_up(a: Seq<Seq<char>>, b: Seq<Seq<char>>)
    ensures
        lines_details(a + b) == lines_details(a) + lines_details(b),
    decreases b.len(),
{
    if b.len() == 0 {
        assert(a + b =~= a);
        assert(lines_details(a) + lines_details(b) =~= lines_details(a));
    } else {
        law_inspected_lines_add_up(a, b.drop_last());
        assert((a + b).drop_last() =~= a + b.drop_last());
        assert((a + b).last() == b.last());
        assert(lines_details(a + b) =~= lines_details(a) + lines_details(b));
    }
}

/// Each line that tells of a container does so in the order of the lines.
pub proof fn law_one_line_tells_of_one_container(line: Seq<char>)
    ensures
        lines_details(seq![line]) == (match line_details(line) {
            Some(d) => seq![d],
            None => Seq::empty(),
        }),
{
    assert(seq![line].drop_last() =~= Seq::empty());
    assert(lines_details(seq![line].drop_last()) =~= Seq::empty());
}

// ---------------------------------------------------------------------------
// The table
// ---------------------------------------------------------------------------

/// The colors of a status.
#[derive(Debug, Clone, Copy, PartialEq, Eq, Structural)]
pub enum StatusColor {
    Green,
    Red,
}

/// A row of the status table.
#[derive(Debug)]
pub struct StatusRow {
    pub profile: String,
    pub name: String,
    pub service_type: String,
    pub status: String,
    /// The color that the status is shown in, if any
    pub color: Option<StatusColor>,
    pub version: String,
    pub started: String,
}

/// The status table: titles and rows, or the text in its place where there is
/// nothing to show.
#[derive(Debug)]
pub enum StatusTable {
    Text(String),
    Table { titles: Vec<String>, rows: Vec<StatusRow> },
}

/// Whether a container runs.
pub open spec fn runs_now(container: Option<ContainerStatus>) -> bool {
    container matches Some(c) && c.state@ == "running"@
}

/// The word for what a service does, and its color.
pub open spec fn status_label(job: bool, running: bool) -> (Seq<char>, Option<StatusColor>) {
    if job {
        if running {
            ("JOB_RUNNING"@, Some(StatusColor::Green))
        } else {
            ("JOB"@, None)
        }
    } else if running {
        ("UP"@, Some(StatusColor::Green))
    } else {
        ("DOWN"@, Some(StatusColor::Red))
    }
}

/// The status of a service: the word for what it does and, where it runs and
/// tells it, for how long.
pub open spec fn status_text(job: bool, container: Option<ContainerStatus>) -> Seq<char> {
    let label = status_label(job, runs_now(container)).0;
    match container {
        Some(c) => match (runs_now(container), status_uptime(c.status@)) {
            (true, Some(uptime)) => label + " ("@ + uptime + ")"@,
            _ => label,
        },
        None => label,
    }
}

/// Whether a row shows a service and its container, with times as they read at
/// some offset from UTC.
pub open spec fn shows(
    row: StatusRow,
    info: ServiceInfo,
    container: Option<ContainerStatus>,
    now: Instant,
) -> bool {
    let job = info.service_type@ == JOB@;
    &&& row.profile@ == info.profile@
    &&& row.name@ == info.name@
    &&& row.service_type@ == info.service_type@
    &&& row.status@ == status_text(job, container)
    &&& row.color == status_label(job, runs_now(container)).1
    &&& row.version@ == version_cell_text(text_opt(info.image), container)
    &&& exists|offset: int| #[trigger]
        valid_offset(offset) && row.started@ == started_text(info@, container, now, offset)
}

/// The row of a service.
pub fn status_row(info: &ServiceInfo, container: Option<&ContainerStatus>, now: Timestamp) -> (r:
    StatusRow)
    ensures
        shows(
            r,
            *info,
            match container {
                Some(c) => Some(*c),
                None => None,
            },
            now@,
        ),
{
    let job = same(info.service_type.as_str(), JOB);
    let (running, uptime): (bool, Option<String>) = match container {
        Some(c) => if same(c.state.as_str(), "running") {
            (true, short_uptime(c.status.as_str()))
        } else {
            (false, None)
        },
        None => (false, None),
    };
    let (label, color): (&str, Option<StatusColor>) = if job {
        if running {
            ("JOB_RUNNING", Some(StatusColor::Green))
        } else {
            ("JOB", None)
        }
    } else if running {
        ("UP", Some(StatusColor::Green))
    } else {
        ("DOWN", Some(StatusColor::Red))
    };
    let mut status: String = label.to_owned();
    if let Some(uptime) = uptime {
        status.append(" (");
        status.append(uptime.as_str());
        status.append(")");
    }
    StatusRow {
        profile: info.profile.clone(),
        name: info.name.clone(),
        service_type: info.service_type.clone(),
        status,
        color,
        version: version_cell(info, container),
        started: started_cell(info, container, now),
    }
}

/// The titles of the columns.
pub open spec fn table_titles() -> Seq<Seq<char>> {
    seq!["Profile"@, "Name"@, "Type"@, "Status"@, "Version"@, "Started"@]
}

/// The status table: a row for each service, in the order given.
pub fn format_status_table(
    services_info: &Vec<ServiceInfo>,
    status_map: &TextMap<ContainerStatus>,
    now: Timestamp,
) -> (r: StatusTable)
    ensures
        services_info@.len() == 0 ==> (r matches StatusTable::Text(text) && text@
            == "No services found in compose file.\n"@),
        services_info@.len() > 0 ==> (r matches StatusTable::Table { titles, rows } && texts(
            titles@,
        ) == table_titles() && rows@.len() == services_info@.len() && forall|i: int|
            0 <= i < rows@.len() ==> shows(
                #[trigger] rows@[i],
                services_info@[i],
                lookup(status_map@, services_info@[i].name@),
                now@,
            )),
{
    if services_info.len() == 0 {
        return StatusTable::Text("No services found in compose file.\n".to_owned());
    }
    let titles: Vec<String> = vec![
        "Profile".to_owned(),
        "Name".to_owned(),
        "Type".to_owned(),
        "Status".to_owned(),
        "Version".to_owned(),
        "Started".to_owned(),
    ];
    assert(texts(titles@) =~= table_titles());
    let mut rows: Vec<StatusRow> = Vec::new();
    let mut i: usize = 0;
    while i < services_info.len()
        invariant
            i <= services_info@.len(),
            rows@.len() == i,
            forall|j: int|
                0 <= j < i ==> shows(
                    #[trigger] rows@[j],
                    services_info@[j],
                    lookup(status_map@, services_info@[j].name@),
                    now@,
                ),
        decreases services_info.len() - i,
    {
        let info: &ServiceInfo = &services_info[i];
        let container = status_map.get(info.name.as_str());
        rows.push(status_row(info, container, now));
        i = i + 1;
    }
    StatusTable::Table { titles, rows }
}

/// The status tells whether the container runs: of a service by `UP` in green
/// or `DOWN` in red, of a job by `JOB_RUNNING` in green or a plain `JOB`.  Only
/// of what runs it is told for how long.
pub proof fn law_status_tells_what_runs(
    row: StatusRow,
    info: ServiceInfo,
    container: Option<ContainerStatus>,
    now: Instant,
)
    requires
        shows(row, info, container, now),
    ensures
        ({
            let job = info.service_type@ == "job"@;
            let running = container matches Some(c) && c.state@ == "running"@;
            let uptime = status_uptime(container->Some_0.status@);
            let word = if job && running {
                "JOB_RUNNING"@
            } else if job {
                "JOB"@
            } else if running {
                "UP"@
            } else {
                "DOWN"@
            };
            &&& running && uptime is Some ==> row.status@ == word + " ("@ + uptime->Some_0 + ")"@
            &&& !(running && uptime is Some) ==> row.status@ == word
            &&& row.color == Some(StatusColor::Green) <==> running
            &&& row.color == Some(StatusColor::Red) <==> !running && !job
        }),
{
}

/// A row tells the service's own profile, name and type, and the version and
/// the start of its container.
pub proof fn law_rows_tell_of_their_service(
    row: StatusRow,
    info: ServiceInfo,
    container: Option<ContainerStatus>,
    now: Instant,
)
    requires
        shows(row, info, container, now),
    ensures
        row.profile@ == info.profile@,
        row.name@ == info.name@,
        row.service_type@ == info.service_type@,
        container matches Some(c) ==> (c.image_version_label matches Some(label) ==> row.version@
            == label@),
        row.version@ == version_cell_text(text_opt(info.image), container),
        container matches Some(c) ==> (c.started_at matches Some(t) ==> exists|offset: int|
            -86_400 < offset < 86_400 && row.started@ == #[trigger] minute_text(
                t@.seconds,
                offset,
            )),
        container is None ==> (info.history matches RunHistory::Last(run) ==> exists|offset: int|
            -86_400 < offset < 86_400 && #[trigger] minute_text(
                run.started_at@.seconds,
                offset,
            ).is_prefix_of(row.started@)),
{
    let offset = choose|offset: int| #[trigger]
        valid_offset(offset) && row.started@ == started_text(info@, container, now, offset);
    if let Some(c) = container {
        if let Some(t) = c.started_at {
            assert(row.started@ == minute_text(t@.seconds, offset));
        }
    } else {
        if let RunHistory::Last(run) = info.history {
            law_start_alone_is_shown(info@, info@, run, run, now, offset);
            assert(minute_text(run.started_at@.seconds, offset).is_prefix_of(row.started@));
        }
    }
}

/// A start time counts exactly if it is after the start of 1970, and is then taken
/// as it is.
pub proof fn law_docker_starts(t: Timestamp, start: Option<Timestamp>)
    requires
        call_ensures(docker_start, (t,), start),
    ensures
        t@.seconds > 0 <==> start is Some,
        start matches Some(s) ==> s == t,
{
}

/// The started column of a service without a container shows the start of its
/// last run, whenever that has ended.
pub proof fn law_started_column_shows_the_start(
    info: ServiceInfo,
    run: LastRun,
    now: Timestamp,
    offset: i32,
    cell: String,
)
    requires
        -86_400 < offset < 86_400,
        info.history == RunHistory::Last(run),
        call_ensures(started_cell_in, (&info, None::<&ContainerStatus>, now, offset), cell),
    ensures
        minute_text(run.started_at@.seconds, offset as int).is_prefix_of(cell@),
        ordinary(now@) && ordinary(run.started_at@) && 0 <= now@.nanos && 0
            <= run.started_at@.nanos && now@.seconds > run.started_at@.seconds && now@.nanos
            >= run.started_at@.nanos ==> cell@ == minute_text(
            run.started_at@.seconds,
            offset as int,
        ) + " ("@ + duration_text(now@.seconds - run.started_at@.seconds) + " ago)"@,
{
    law_start_alone_is_shown(info@, info@, run, run, now@, offset as int);
    if ordinary(now@) && ordinary(run.started_at@) && 0 <= now@.nanos && 0 <= run.started_at@.nanos
        && now@.seconds > run.started_at@.seconds && now@.nanos >= run.started_at@.nanos {
        law_age_counts_from_the_start(info@, run, now@, offset as int);
    }
}

/// The table has a row for each service, in order, and shows each with its own
/// container; without services it has none.
pub proof fn law_table_has_a_row_for_each_service(
    infos: Vec<ServiceInfo>,
    containers: TextMap<ContainerStatus>,
    now: Timestamp,
    table: StatusTable,
    i: int,
)
    requires
        call_ensures(format_status_table, (&infos, &containers, now), table),
    ensures
        infos@.len() == 0 <==> table is Text,
        table matches StatusTable::Table { titles, rows } ==> {
            &&& texts(titles@) == seq![
                "Profile"@,
                "Name"@,
                "Type"@,
                "Status"@,
                "Version"@,
                "Started"@,
            ]
            &&& rows@.len() == infos@.len()
            &&& 0 <= i < rows@.len() ==> rows@[i].name@ == infos@[i].name@ && rows@[i].profile@
                == infos@[i].profile@ && rows@[i].service_type@ == infos@[i].service_type@
            &&& 0 <= i < rows@.len() ==> (rows@[i].color == Some(StatusColor::Green) <==> (lookup(
                containers@,
                infos@[i].name@,
            ) matches Some(c) && c.state@ == "running"@))
        },
{
    if let StatusTable::Table { titles, rows } = table {
        if 0 <= i < rows@.len() {
            assert(shows(
                rows@[i],
                infos@[i],
                lookup(containers@, infos@[i].name@),
                now@,
            ));
        }
    }
}

/// Containers that do not run are listed as well.
pub proof fn law_all_containers_are_listed(context: ComposeContext, cmd: CommandLine)
    requires
        call_ensures(ps_command, (&context,), cmd),
    ensures
        cmd.program@ == "docker"@,
        ({
            let args = texts(cmd.args@);
            let n = args.len();
            &&& args[n - 4] == "ps"@
            &&& args[n - 3] == "--all"@
            &&& args[n - 2] == "--format"@
            &&& args[n - 1] == "json"@
            &&& args.take(n - 4) == compose_args(context, None)
        }),
{
    let args = texts(cmd.args@);
    assert(args.take(args.len() - 4) =~= compose_args(context, None));
}

/// Each service that the compose file describes is shown, once, and its container
/// is among those shown exactly if one is listed for it.
pub proof fn law_every_service_is_shown(
    compose: Compose,
    runs: Option<&TextMap<LastRun>>,
    rows: Vec<PsRow>,
    details: Vec<ContainerDetails>,
    shown: (Vec<ServiceInfo>, TextMap<ContainerStatus>),
    i: int,
)
    requires
        call_ensures(gather_status_data, (&compose, runs, rows, details), shown),
        0 <= i < compose.services@.len(),
    ensures
        compose.services@[i].1 matches Some(service) ==> infos_of(shown.0@).contains(
            info_of(compose.services@[i].0, service, runs_map(runs)),
        ),
        shown.0@.len() == listed(compose.services@, runs_map(runs)).len(),
        map_of(shown.1@).dom().contains(compose.services@[i].0) <==> exists|j: int|
            0 <= j < rows@.len() && (#[trigger] rows@[j]).service@ == compose.services@[i].0,
        forall|a: int, b: int|
            0 <= a < b < shown.0@.len() ==> !text_lt(
                (#[trigger] shown.0@[b]).profile@,
                (#[trigger] shown.0@[a]).profile@,
            ),
{
    broadcast use vstd::seq_lib::group_to_multiset_ensures;

    let all = listed(compose.services@, runs_map(runs));
    let infos = infos_of(shown.0@);
    let name = compose.services@[i].0;
    law_services_are_listed(compose.services@, runs_map(runs), i);
    assert(infos.len() == infos.to_multiset().len() && all.len() == all.to_multiset().len());
    if let Some(service) = compose.services@[i].1 {
        let info = info_of(name, service, runs_map(runs));
        assert(all.contains(info));
        assert(all.to_multiset().count(info) > 0);
        assert(infos.to_multiset().count(info) > 0);
    }
    let ids = choose|ids: Seq<(Seq<char>, String)>| #[trigger]
        lists_ids(ids, rows@) && map_of(shown.1@) == all_detailed(
            containers_of(rows@),
            ids,
            details@,
        );
    law_details_keep_what_was_listed(containers_of(rows@), ids, details@);
    law_last_container_counts(rows@, 0, name);
    assert forall|a: int, b: int| 0 <= a < b < shown.0@.len() implies !text_lt(
        (#[trigger] shown.0@[b]).profile@,
        (#[trigger] shown.0@[a]).profile@,
    ) by {
        assert(shown_before(infos[a], infos[b]));
        if text_lt(infos[a].profile, infos[b].profile) {
            lemma_text_lt_asymmetric(infos[a].profile, infos[b].profile);
        } else {
            lemma_text_lt_irreflexive(infos[a].profile);
        }
    }
}

} // verus!
