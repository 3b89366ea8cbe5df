//! Cron schedules, and commands that run on them.

use vstd::prelude::*;
use vstd::string::*;
use std::str::FromStr;
use crate::slack::{
    broadcast_messages, date_line, date_text, law_date_tells_the_time, law_quotation_holds_lines,
    messages_of, quotation, quote, to_webhooks, Message,
};
use crate::text::{
    count_words, decimal, holds, lemma_holds, lemma_holds_within, lemma_trimmed, lemma_trimmed_is,
    lemma_trimmed_padding, lemma_word_count_apart, text_opt, texts, trim, trimmed, whitespace,
    word_count, word_starts,
};
use crate::time::{
    elapsed, ordinary, valid_instant, Instant, Timestamp, MAX_SECONDS, NANOS_PER_SECOND,
};

verus! {

/// What the `cron` crate makes of an expression: a schedule, or the message of
/// its error.
pub uninterp spec fn cron_parse(expression: Seq<char>) -> Result<(), Seq<char>>;

/// Whether `chrono_tz` knows a time zone by this name.
pub uninterp spec fn known_zone(name: Seq<char>) -> bool;

/// The next instant, in seconds, at which the `cron` crate has a schedule fire
/// after a given instant, when the clock is read in a time zone, and the second
/// that this clock shows then.
pub uninterp spec fn cron_next(
    expression: Seq<char>,
    zone: Seq<char>,
    after_seconds: int,
    after_nanos: int,
) -> Option<(i64, u32)>;

/// White space between the fields of an expression.
pub open spec fn field_space(c: char) -> bool {
    c == ' ' || c == '\t' || c == '\r' || c == '\n'
}

/// The expression with one space for each run of white space between fields.
pub open spec fn squeezed(expression: Seq<char>) -> Seq<char>
    decreases expression.len(),
{
    if expression.len() == 0 {
        expression
    } else {
        let rest = squeezed(expression.drop_last());
        if !field_space(expression.last()) {
            rest.push(expression.last())
        } else if rest.len() > 0 && rest.last() == ' ' {
            rest
        } else {
            rest.push(' ')
        }
    }
}

/// Whether the seconds field of an expression is a zero: it starts with one,
/// and the next field, after a space, does not start with a sign that would
/// make a range, a period or a list of it.
pub open spec fn zero_seconds(expression: Seq<char>) -> bool {
    &&& expression.len() > 2
    &&& expression[0] == '0'
    &&& expression[1] == ' '
    &&& !field_space(expression[2])
    &&& expression[2] != '-' && expression[2] != '/' && expression[2] != ','
}

/// `cron::Schedule::from_str`: whether the expression is accepted, and the
/// error's message where it is not.  An accepted schedule displays as the
/// expression that it was read from.  Its grammar skips white space between
/// its tokens, so how much of it there is decides nothing.
#[verifier::external_body]
fn cron_check(expression: &str) -> (r: Result<(), String>)
    ensures
        match r {
            Ok(_) => cron_parse(expression@) == Ok::<(), Seq<char>>(()),
            Err(e) => cron_parse(expression@) == Err::<(), Seq<char>>(e@),
        },
        r is Ok <==> cron_parse(squeezed(expression@)) is Ok,
{
    match cron::Schedule::from_str(expression) {
        Ok(_) => Ok(()),
        Err(e) => Err(e.to_string()),
    }
}

/// `chrono_tz::Tz::from_str`: whether it knows a zone of that name.
#[verifier::external_body]
fn zone_check(name: &str) -> (r: bool)
    ensures
        r == known_zone(name@),
{
    chrono_tz::Tz::from_str(name).is_ok()
}

/// `chrono_tz::UTC`: the zone's name is `UTC`, and it is known by that name.
#[verifier::external_body]
fn utc_name() -> (r: String)
    ensures
        r@ == "UTC"@,
        known_zone(r@),
{
    chrono_tz::UTC.name().to_string()
}

/// `cron::Schedule::after` in a `chrono_tz` zone: `timestamp()` and `second()`
/// of the first instant that it yields.  It adds a second to the instant it
/// starts from, and so needs one that is not at the end of the calendar.  It
/// goes by the fields of the schedule alone, and so not by the amount of white
/// space between them; where the seconds field is a zero, the zone's clock
/// shows second zero, and in UTC that is the second of the instant itself.
#[verifier::external_body]
fn cron_after(expression: &str, zone: &str, seconds: i64, nanos: u32) -> (r: Option<(i64, u32)>)
    requires
        cron_parse(expression@) is Ok,
        known_zone(zone@),
        valid_instant(seconds as int, nanos as int),
        seconds + 2 <= MAX_SECONDS,
    ensures
        r == cron_next(expression@, zone@, seconds as int, nanos as int),
        r == cron_next(squeezed(expression@), zone@, seconds as int, nanos as int),
        r matches Some((t, _)) ==> valid_instant(t as int, 0),
        r matches Some((_, second)) ==> zero_seconds(expression@) ==> second == 0,
        r matches Some((t, second)) ==> zone@ == "UTC"@ ==> second == t as int % 60,
{
    let schedule = cron::Schedule::from_str(expression).unwrap();
    let zone = chrono_tz::Tz::from_str(zone).unwrap();
    let start = chrono::DateTime::<chrono::Utc>::from_timestamp(seconds, nanos).unwrap();
    let next = schedule.after(&start.with_timezone(&zone)).next();
    next.map(|t| (t.timestamp(), chrono::Timelike::second(&t)))
}

/// The Quartz form of an expression: white space around it is dropped, and
/// one in the classic crontab form, with five fields, gets a seconds field in
/// front.
pub open spec fn normalized(expression: Seq<char>) -> Seq<char> {
    let e = trimmed(expression);
    if word_count(e) == 5 {
        "0 "@ + e
    } else {
        e
    }
}

/// Whether an expression is taken for a schedule.
pub open spec fn is_accepted(expression: Seq<char>) -> bool {
    cron_parse(squeezed(normalized(expression))) is Ok
}

/// The instant at which the schedule of an expression fires next, and the
/// second that the zone's clock shows then.
pub open spec fn firing(expression: Seq<char>, zone: Seq<char>, at: Instant) -> Option<(i64, u32)> {
    cron_next(squeezed(normalized(expression)), zone, at.seconds, at.nanos)
}

/// A time zone that `chrono_tz` knows, by its name.
#[derive(Debug)]
pub struct Zone {
    name: String,
}

impl View for Zone {
    type V = Seq<char>;

    closed spec fn view(&self) -> Seq<char> {
        self.name@
    }
}

impl Zone {
    #[verifier::type_invariant]
    spec fn known(self) -> bool {
        known_zone(self.name@)
    }

    /// The zone of that name, where there is one.
    pub fn parse(name: &str) -> (r: Option<Zone>)
        ensures
            r is Some <==> known_zone(name@),
            r matches Some(z) ==> z@ == name@,
    {
        if zone_check(name) {
            Some(Zone { name: name.to_owned() })
        } else {
            None
        }
    }

    /// Coordinated universal time.
    pub fn utc() -> (r: Zone)
        ensures
            r@ == "UTC"@,
            known_zone("UTC"@),
    {
        Zone { name: utc_name() }
    }

    /// The zone's name.
    pub fn name(&self) -> (r: &str)
        ensures
            r@ == self@,
    {
        self.name.as_str()
    }

    /// The same zone again.
    pub fn copy(&self) -> (r: Zone)
        ensures
            r@ == self@,
    {
        proof {
            use_type_invariant(self);
        }
        Zone { name: self.name.clone() }
    }
}

/// A schedule that the `cron` crate accepts, by the expression it displays as.
#[derive(Debug)]
pub struct Schedule {
    source: String,
}

impl View for Schedule {
    type V = Seq<char>;

    closed spec fn view(&self) -> Seq<char> {
        self.source@
    }
}

/// An expression that is no schedule, and why.
#[derive(Debug)]
pub struct ScheduleError {
    pub expression: String,
    pub reason: String,
}

impl ScheduleError {
    /// What went wrong, naming the expression.
    pub fn message(&self) -> (r: String)
        ensures
            r@ == "while parsing cron expression: "@ + self.expression@,
    {
        let mut r: String = "while parsing cron expression: ".to_owned();
        r.append(self.expression.as_str());
        r
    }
}

impl Schedule {
    #[verifier::type_invariant]
    spec fn accepted(self) -> bool {
        cron_parse(self.source@) is Ok
    }

    /// The schedule of an expression in the form that the `cron` crate takes:
    /// seconds first.
    pub fn parse(expression: &str) -> (r: Result<Schedule, String>)
        ensures
            match cron_parse(expression@) {
                Ok(_) => r matches Ok(s) && s@ == expression@,
                Err(reason) => r matches Err(e) && e@ == reason,
            },
            r is Ok <==> cron_parse(squeezed(expression@)) is Ok,
    {
        match cron_check(expression) {
            Ok(_) => Ok(Schedule { source: expression.to_owned() }),
            Err(e) => Err(e),
        }
    }

    /// The expression of the schedule.
    pub fn to_string(&self) -> (r: String)
        ensures
            r@ == self@,
            cron_parse(self@) is Ok,
    {
        proof {
            use_type_invariant(self);
        }
        self.source.clone()
    }

    /// The first instant after `at` at which the schedule fires, in a zone.
    /// White space between the fields makes no difference to it.  With a zero
    /// for the seconds field, the zone's clock shows second zero then.
    pub fn next_after(&self, zone: &Zone, at: &Timestamp) -> (r: Option<Timestamp>)
        requires
            at@.seconds + 2 <= MAX_SECONDS,
        ensures
            match cron_next(self@, zone@, at@.seconds, at@.nanos) {
                Some((t, second)) => {
                    &&& r matches Some(next) && next@ == (Instant { seconds: t as int, nanos: 0 })
                    &&& zero_seconds(self@) ==> second == 0
                    &&& zone@ == "UTC"@ ==> second == t as int % 60
                },
                None => r is None,
            },
            cron_next(self@, zone@, at@.seconds, at@.nanos) == cron_next(
                squeezed(self@),
                zone@,
                at@.seconds,
                at@.nanos,
            ),
    {
        proof {
            use_type_invariant(self);
            use_type_invariant(zone);
        }
        match cron_after(self.source.as_str(), zone.name.as_str(), at.seconds(), at.nanos()) {
            Some((t, _)) => Timestamp::new(t, 0),
            None => None,
        }
    }
}

/// The Quartz form of an expression.
pub fn normalize_expression(expr: &str) -> (r: String)
    ensures
        r@ == normalized(expr@),
{
    let expr: &str = trim(expr);
    if count_words(expr) == 5 {
        let mut r: String = "0 ".to_owned();
        r.append(expr);
        r
    } else {
        expr.to_owned()
    }
}

/// Parses a cron expression.  The `cron` crate wants the Quartz form, with a
/// seconds field first (six fields, or seven with a trailing year).  The
/// classic crontab form has five fields (`minute hour day-of-month month
/// day-of-week`) and is unambiguous by its field count alone, so it is
/// accepted too and fires at second zero.  Shorthands like `@daily` pass
/// straight through.
pub fn parse_schedule(expr: &str) -> (r: Result<Schedule, ScheduleError>)
    ensures
        match cron_parse(normalized(expr@)) {
            Ok(_) => r matches Ok(s) && s@ == normalized(expr@),
            Err(reason) => r matches Err(e) && e.expression@ == trimmed(expr@) && e.reason@
                == reason,
        },
        r is Ok <==> is_accepted(expr@),
{
    match Schedule::parse(normalize_expression(expr).as_str()) {
        Ok(schedule) => Ok(schedule),
        Err(reason) => Err(ScheduleError { expression: trim(expr).to_owned(), reason }),
    }
}

/// What is squeezed from a text goes on alike behind texts that are squeezed
/// alike.
proof fn lemma_squeezed_goes_on(a: Seq<char>, b: Seq<char>, rest: Seq<char>)
    requires
        squeezed(a) == squeezed(b),
    ensures
        squeezed(a + rest) == squeezed(b + rest),
    decreases rest.len(),
{
    if rest.len() == 0 {
        assert(a + rest =~= a);
        assert(b + rest =~= b);
    } else {
        lemma_squeezed_goes_on(a, b, rest.drop_last());
        assert((a + rest).drop_last() =~= a + rest.drop_last());
        assert((b + rest).drop_last() =~= b + rest.drop_last());
    }
}

/// More white space behind a zero and a space is squeezed away.
proof fn lemma_squeezed_zero(more: Seq<char>)
    requires
        forall|i: int| 0 <= i < more.len() ==> field_space(#[trigger] more[i]),
    ensures
        squeezed("0 "@ + more) == "0 "@,
    decreases more.len(),
{
    reveal_strlit("0 ");
    let s = "0 "@ + more;
    if more.len() == 0 {
        let zero = seq!['0'];
        assert(s.drop_last() =~= zero);
        assert(zero.drop_last() =~= Seq::empty());
        assert(squeezed(zero.drop_last()) =~= Seq::empty());
        assert(squeezed(zero) =~= zero);
        assert(squeezed(s) =~= zero.push(' '));
    } else {
        assert forall|i: int| 0 <= i < more.drop_last().len() implies field_space(
            #[trigger] more.drop_last()[i],
        ) by {
            assert(field_space(more[i]));
        }
        lemma_squeezed_zero(more.drop_last());
        assert(s.drop_last() =~= "0 "@ + more.drop_last());
        assert(field_space(more[more.len() - 1]));
    }
}

/// A zero is one word.
proof fn lemma_zero_is_a_word()
    ensures
        word_count(seq!['0']) == 1,
{
    let zero = seq!['0'];
    assert(zero.drop_last() =~= Seq::<char>::empty());
    assert(word_count(zero.drop_last()) == 0);
    assert(word_starts(zero, 0));
}

/// White space before a text adds no words.
proof fn lemma_word_count_padded(left: Seq<char>, s: Seq<char>)
    requires
        forall|i: int| 0 <= i < left.len() ==> whitespace(#[trigger] left[i]),
    ensures
        word_count(left + s) == word_count(s),
        word_count(left) == 0,
    decreases left.len(),
{
    if left.len() == 0 {
        assert(left + s =~= s);
    } else {
        let rest = left.drop_last();
        assert forall|i: int| 0 <= i < rest.len() implies whitespace(#[trigger] rest[i]) by {
            assert(whitespace(left[i]));
        }
        assert(whitespace(left[left.len() - 1]));
        lemma_word_count_padded(rest, s);
        lemma_word_count_apart(rest, left.last(), s);
        assert(rest + seq![left.last()] + s =~= left + s);
    }
}

/// A classic expression with five fields means the one with six fields that
/// has a zero for the seconds before them: both are taken or neither is, and
/// they fire at the same times.  White space may stand around the five fields;
/// before them, it is such as may stand between fields.
pub proof fn law_five_fields_mean_six(left: Seq<char>, fields: Seq<char>, right: Seq<char>)
    requires
        trimmed(fields) == fields,
        word_count(fields) == 5,
        forall|i: int| 0 <= i < left.len() ==> field_space(#[trigger] left[i]),
        forall|i: int| 0 <= i < right.len() ==> whitespace(#[trigger] right[i]),
    ensures
        is_accepted("0 "@ + (left + fields + right)) == is_accepted(left + fields + right),
        forall|zone: Seq<char>, at: Instant| #[trigger]
            firing("0 "@ + (left + fields + right), zone, at) == firing(
                left + fields + right,
                zone,
                at,
            ),
{
    reveal_strlit("0 ");
    let expression = left + fields + right;
    assert forall|i: int| 0 <= i < left.len() implies whitespace(#[trigger] left[i]) by {
        assert(field_space(left[i]));
    }
    // what the five fields are normalized to
    lemma_trimmed(fields);
    lemma_trimmed_padding(left, fields, right);
    law_five_fields_fire_at_second_zero(expression);
    // what the six are
    let full = "0 "@ + left + fields;
    let nothing = Seq::<char>::empty();
    assert("0 "@ + expression =~= nothing + full + right);
    lemma_trimmed_padding(nothing, full, right);
    assert(full[0] == '0' && full.last() == fields.last());
    lemma_trimmed_is(full);
    let zero = seq!['0'];
    assert(full =~= zero + seq![' '] + (left + fields));
    lemma_word_count_apart(zero, ' ', left + fields);
    lemma_word_count_padded(left, fields);
    lemma_zero_is_a_word();
    // the white space between is squeezed
    lemma_squeezed_zero(left);
    lemma_squeezed_zero(nothing);
    assert("0 "@ + nothing =~= "0 "@);
    lemma_squeezed_goes_on("0 "@ + left, "0 "@, fields);
}

/// A classic expression with five fields gets a zero for the seconds and so
/// fires at second zero, unless its minutes start with a sign that would make a
/// range, a period or a list of that zero.
pub proof fn law_five_fields_fire_at_second_zero(expression: Seq<char>)
    requires
        word_count(trimmed(expression)) == 5,
    ensures
        normalized(expression) == "0 "@ + trimmed(expression),
        normalized("0 "@ + trimmed(expression)) == normalized(expression),
        trimmed(expression)[0] != '-' && trimmed(expression)[0] != '/' && trimmed(expression)[0]
            != ',' ==> zero_seconds(normalized(expression)),
{
    reveal_strlit("0 ");
    let e = trimmed(expression);
    let zero = seq!['0'];
    let full = zero + seq![' '] + e;
    assert("0 "@ + e =~= full);
    lemma_trimmed(expression);
    lemma_word_count_apart(zero, ' ', e);
    lemma_zero_is_a_word();
    assert(word_count(full) == 6);
    assert(full.last() == e.last());
    lemma_trimmed_is(full);
}

/// An expression whose field count is not five is taken as it is.
pub proof fn law_other_field_counts_are_unchanged(expression: Seq<char>)
    requires
        word_count(trimmed(expression)) != 5,
    ensures
        normalized(expression) == trimmed(expression),
{
}

/// White space around an expression makes no difference: it is taken or not,
/// and fires, as without.
pub proof fn law_surrounding_whitespace_is_tolerated(
    left: Seq<char>,
    expression: Seq<char>,
    right: Seq<char>,
)
    requires
        forall|i: int| 0 <= i < left.len() ==> whitespace(#[trigger] left[i]),
        forall|i: int| 0 <= i < right.len() ==> whitespace(#[trigger] right[i]),
    ensures
        normalized(left + expression + right) == normalized(expression),
        is_accepted(left + expression + right) == is_accepted(expression),
        forall|zone: Seq<char>, at: Instant| #[trigger]
            firing(left + expression + right, zone, at) == firing(expression, zone, at),
{
    lemma_trimmed_padding(left, expression, right);
}

/// Squeezing leaves the number of words, and whether the last character is
/// white space.
proof fn lemma_squeezed_words(s: Seq<char>)
    ensures
        word_count(squeezed(s)) == word_count(s),
        s.len() == 0 <==> squeezed(s).len() == 0,
        s.len() > 0 ==> whitespace(squeezed(s).last()) == whitespace(s.last()),
        s.len() > 0 && !field_space(s[0]) ==> squeezed(s)[0] == s[0],
    decreases s.len(),
{
    if s.len() > 0 {
        let less = s.drop_last();
        let rest = squeezed(less);
        lemma_squeezed_words(less);
        assert(rest.push(s.last()).drop_last() =~= rest);
        assert(rest.push(' ').drop_last() =~= rest);
        if less.len() > 0 {
            assert(less.last() == s[s.len() - 2]);
            assert(less[0] == s[0]);
        }
    }
}

/// A zero and a space before a text that starts a field stay as they are.
proof fn lemma_squeezed_behind_zero(s: Seq<char>)
    requires
        s.len() > 0,
        !field_space(s[0]),
    ensures
        squeezed("0 "@ + s) == "0 "@ + squeezed(s),
    decreases s.len(),
{
    let less = s.drop_last();
    assert(("0 "@ + s).drop_last() =~= "0 "@ + less);
    if less.len() == 0 {
        lemma_squeezed_zero(less);
        assert(squeezed(less) =~= Seq::empty());
        assert(squeezed("0 "@ + s) =~= "0 "@ + squeezed(s));
    } else {
        lemma_squeezed_behind_zero(less);
        lemma_squeezed_words(less);
        let rest = squeezed(less);
        assert(("0 "@ + rest).last() == rest.last());
        assert(squeezed("0 "@ + s) =~= "0 "@ + squeezed(s));
    }
}

/// How much white space stands between the fields of an expression makes no
/// difference.
pub proof fn law_whitespace_between_fields_is_tolerated(a: Seq<char>, b: Seq<char>)
    requires
        squeezed(trimmed(a)) == squeezed(trimmed(b)),
    ensures
        is_accepted(a) == is_accepted(b),
        forall|zone: Seq<char>, at: Instant| #[trigger]
            firing(a, zone, at) == firing(b, zone, at),
{
    lemma_trimmed(a);
    lemma_trimmed(b);
    lemma_squeezed_words(trimmed(a));
    lemma_squeezed_words(trimmed(b));
    if word_count(trimmed(a)) == 5 {
        lemma_squeezed_behind_zero(trimmed(a));
        lemma_squeezed_behind_zero(trimmed(b));
    }
}

/// Normalizing an expression again changes nothing: a schedule's own
/// expression parses to the same schedule.
pub proof fn law_normalizing_is_idempotent(expression: Seq<char>)
    ensures
        normalized(normalized(expression)) == normalized(expression),
{
    lemma_trimmed(expression);
    if word_count(trimmed(expression)) == 5 {
        law_five_fields_fire_at_second_zero(expression);
    }
}

// ---------------------------------------------------------------------------
// Running on a schedule
// ---------------------------------------------------------------------------

/// Where a task that runs on a schedule stands.
#[derive(Debug, Clone, Copy)]
pub enum Phase {
    /// The next time is to be found
    Idle,
    /// The task waits for the time at which it is due
    Sleeping { due: Timestamp },
    /// What was due is being done
    Running { due: Timestamp },
    /// There is no next time
    Done,
}

/// What happens to a task that runs on a schedule.
#[derive(Debug, Clone, Copy)]
pub enum Event {
    /// An idle task is asked at this time what comes next
    Tick(Timestamp),
    /// The sleep is over, at this time
    Woke(Timestamp),
    /// What was due has been done, or could not be
    Ended,
}

/// What a task that runs on a schedule is to do.
#[derive(Debug, Clone, Copy)]
pub enum Action {
    /// Nothing: the event does not belong to the phase
    Nothing,
    /// Leave: there is no next time
    Exit,
    /// The time that is due has passed already
    Overdue { due: Timestamp },
    /// Sleep for a number of nanoseconds
    Sleep { due: Timestamp, nanos: u128 },
    /// Do what is due; `skewed` tells that the clock is more than a second off
    Execute { due: Timestamp, skewed: bool },
    /// Tell how it went
    Report { due: Timestamp },
}

/// Whether a task wakes more than a second away from the time at which it is
/// due.
pub open spec fn skewed(now: Instant, due: Instant) -> bool {
    elapsed(now, due) > NANOS_PER_SECOND || elapsed(now, due) < -NANOS_PER_SECOND
}

/// Whether an idle task, which is next due at the given time if at all, goes to
/// the next phase with an action when it is asked.
pub open spec fn is_plan(due: Option<Instant>, now: Instant, next: Phase, action: Action) -> bool {
    match due {
        Some(at) => if elapsed(at, now) < 0 {
            next is Idle && (action matches Action::Overdue { due } && due@ == at)
        } else {
            &&& next matches Phase::Sleeping { due }
            &&& due@ == at
            &&& action == Action::Sleep { due, nanos: elapsed(at, now) as u128 }
            &&& elapsed(at, now) <= u128::MAX
        },
        None => next is Done && action is Exit,
    }
}

/// The instant at which a schedule fires next.
pub open spec fn next_instant(schedule: Seq<char>, zone: Seq<char>, now: Instant) -> Option<
    Instant,
> {
    match cron_next(schedule, zone, now.seconds, now.nanos) {
        Some((t, _)) => Some(Instant { seconds: t as int, nanos: 0 }),
        None => None,
    }
}

/// Whether a step of a task on `schedule`, whose clock is read in `zone`, leads
/// from one phase by an event to the next phase with an action.
pub open spec fn is_step(
    schedule: Seq<char>,
    zone: Seq<char>,
    phase: Phase,
    event: Event,
    next: Phase,
    action: Action,
) -> bool {
    match (phase, event) {
        (Phase::Idle, Event::Tick(now)) => is_plan(
            next_instant(schedule, zone, now@),
            now@,
            next,
            action,
        ),
        (Phase::Sleeping { due }, Event::Woke(now)) => next == Phase::Running { due } && action
            == Action::Execute { due, skewed: skewed(now@, due@) },
        (Phase::Running { due }, Event::Ended) => next is Idle && action == Action::Report { due },
        _ => next == phase && action is Nothing,
    }
}

/// What an idle task does that is next due at the given time, if at all.
pub fn plan_next(due: Option<Timestamp>, now: &Timestamp) -> (r: (Phase, Action))
    ensures
        is_plan(
            match due {
                Some(t) => Some(t@),
                None => None,
            },
            now@,
            r.0,
            r.1,
        ),
{
    match due {
        Some(due) => {
            let delay: i128 = due.nanos_since(now);
            if delay < 0 {
                (Phase::Idle, Action::Overdue { due })
            } else {
                (Phase::Sleeping { due }, Action::Sleep { due, nanos: delay as u128 })
            }
        },
        None => (Phase::Done, Action::Exit),
    }
}

/// Takes a task on a schedule one step further.
pub fn step(schedule: &Schedule, zone: &Zone, phase: Phase, event: Event) -> (r: (Phase, Action))
    requires
        event matches Event::Tick(now) ==> now@.seconds + 2 <= MAX_SECONDS,
    ensures
        is_step(schedule@, zone@, phase, event, r.0, r.1),
{
    match (phase, event) {
        (Phase::Idle, Event::Tick(now)) => plan_next(schedule.next_after(zone, &now), &now),
        (Phase::Sleeping { due }, Event::Woke(now)) => {
            let off: i128 = now.nanos_since(&due);
            let skewed = off > NANOS_PER_SECOND || off < -NANOS_PER_SECOND;
            (Phase::Running { due }, Action::Execute { due, skewed })
        },
        (Phase::Running { due }, Event::Ended) => (Phase::Idle, Action::Report { due }),
        (phase, _) => (phase, Action::Nothing),
    }
}

/// What is due is done only after the sleep for it, once for each sleep, and
/// how it went is told for the same time; then the next time is looked for.
pub proof fn law_each_sleep_leads_to_one_run(
    schedule: Seq<char>,
    zone: Seq<char>,
    phase: Phase,
    asked: Timestamp,
    asleep: Phase,
    sleep: Action,
    woken: Timestamp,
    running: Phase,
    execute: Action,
    after: Phase,
    report: Action,
)
    requires
        is_step(schedule, zone, phase, Event::Tick(asked), asleep, sleep),
        sleep is Sleep,
        is_step(schedule, zone, asleep, Event::Woke(woken), running, execute),
        is_step(schedule, zone, running, Event::Ended, after, report),
    ensures
        phase is Idle,
        execute == (Action::Execute {
            due: sleep->Sleep_due,
            skewed: skewed(woken@, sleep->Sleep_due@),
        }),
        report == (Action::Report { due: sleep->Sleep_due }),
        after is Idle,
{
}

/// A task that has no next time does nothing any more.
pub proof fn law_done_is_final(
    schedule: Seq<char>,
    zone: Seq<char>,
    event: Event,
    next: Phase,
    action: Action,
)
    requires
        is_step(schedule, zone, Phase::Done, event, next, action),
    ensures
        next is Done,
        action is Nothing,
{
}

/// An idle task that is due sleeps until that very time: the time at which it
/// is asked and the nanoseconds of the sleep make the time that is due, however
/// far off it is.  Only a time that has passed is overdue, and only a task
/// without a next time leaves.
pub proof fn law_sleep_ends_when_due(
    due: Option<Instant>,
    now: Instant,
    next: Phase,
    action: Action,
)
    requires
        is_plan(due, now, next, action),
        ordinary(now),
        due matches Some(at) ==> ordinary(at),
    ensures
        due is None <==> action is Exit,
        due is None <==> next is Done,
        due matches Some(at) ==> (at.seconds * 1_000_000_000 + at.nanos >= now.seconds
            * 1_000_000_000 + now.nanos <==> action is Sleep),
        due matches Some(at) ==> (at.seconds * 1_000_000_000 + at.nanos < now.seconds
            * 1_000_000_000 + now.nanos <==> action is Overdue),
        action matches Action::Sleep { due: d, nanos } ==> {
            &&& due == Some(d@)
            &&& now.seconds * 1_000_000_000 + now.nanos + nanos == d@.seconds * 1_000_000_000
                + d@.nanos
            &&& next == (Phase::Sleeping { due: d })
        },
        action matches Action::Overdue { due: d } ==> due == Some(d@) && next is Idle,
{
}

/// A task that is asked within a leap second sleeps until the time that is due
/// as well: it is off by no more than that second, and never early.
pub proof fn law_sleep_from_a_leap_second(due: Instant, now: Instant, next: Phase, action: Action)
    requires
        is_plan(Some(due), now, next, action),
        valid_instant(now.seconds, now.nanos),
        valid_instant(due.seconds, due.nanos),
        ordinary(due),
    ensures
        action matches Action::Sleep { due: d, nanos } ==> {
            let wakes = now.seconds * 1_000_000_000 + now.nanos + nanos;
            let at = due.seconds * 1_000_000_000 + due.nanos;
            d@ == due && at <= wakes <= at + 1_000_000_000
        },
        due.seconds > now.seconds + 1 ==> action is Sleep,
        due.seconds < now.seconds ==> action is Overdue,
{
}

/// No task is woken, and nothing that is due done, before the time at which the
/// schedule fires: whoever sleeps at least as long as is asked for wakes at
/// that time or later, does what was due then, and is told to be off the mark
/// exactly if it is more than a second later.
pub proof fn law_nothing_is_done_early(
    schedule: Seq<char>,
    zone: Seq<char>,
    asked: Timestamp,
    asleep: Phase,
    sleep: Action,
    woken: Timestamp,
    running: Phase,
    execute: Action,
)
    requires
        ordinary(asked@),
        ordinary(woken@),
        is_step(schedule, zone, Phase::Idle, Event::Tick(asked), asleep, sleep),
        sleep is Sleep,
        woken@.seconds * 1_000_000_000 + woken@.nanos >= asked@.seconds * 1_000_000_000
            + asked@.nanos + sleep->Sleep_nanos,
        is_step(schedule, zone, asleep, Event::Woke(woken), running, execute),
    ensures
        execute is Execute,
        cron_next(schedule, zone, asked@.seconds, asked@.nanos) is Some,
        ({
            let fires = cron_next(schedule, zone, asked@.seconds, asked@.nanos)->Some_0.0;
            let late = woken@.seconds * 1_000_000_000 + woken@.nanos - fires * 1_000_000_000;
            &&& execute->Execute_due@.seconds == fires
            &&& execute->Execute_due@.nanos == 0
            &&& late >= 0
            &&& execute->Execute_skewed <==> late > 1_000_000_000
        }),
{
    let t = cron_next(schedule, zone, asked@.seconds, asked@.nanos)->Some_0.0;
    let fires = Instant { seconds: t as int, nanos: 0 };
    law_sleep_ends_when_due(Some(fires), asked@, asleep, sleep);
}

/// Each kind of action belongs to one phase and one kind of event: what is due
/// is done on waking and never else, and how it went is told once it has ended
/// and never else.  Any other event changes nothing.
pub proof fn law_actions_belong_to_phases(
    schedule: Seq<char>,
    zone: Seq<char>,
    phase: Phase,
    event: Event,
    next: Phase,
    action: Action,
)
    requires
        is_step(schedule, zone, phase, event, next, action),
    ensures
        action is Execute <==> phase is Sleeping && event is Woke,
        action is Report <==> phase is Running && event is Ended,
        (action is Sleep || action is Overdue || action is Exit) <==> phase is Idle && event
            is Tick,
        action is Nothing ==> next == phase,
        phase matches Phase::Sleeping { due } ==> (action matches Action::Execute { due: d, .. }
            ==> d == due && next == (Phase::Running { due })),
        phase matches Phase::Running { due } ==> (action matches Action::Report { due: d } ==> d
            == due && next is Idle),
{
}

/// A task is off the mark exactly if it wakes more than a second before or after
/// the time at which it is due.
pub proof fn law_a_second_off_is_on_the_mark(now: Instant, due: Instant)
    requires
        ordinary(now),
        ordinary(due),
    ensures
        ({
            let woken = now.seconds * 1_000_000_000 + now.nanos;
            let at = due.seconds * 1_000_000_000 + due.nanos;
            skewed(now, due) <==> woken < at - 1_000_000_000 || woken > at + 1_000_000_000
        }),
{
}

/// What became of a command that was run.
#[derive(Debug)]
pub enum Outcome {
    /// It could not be started, or not be waited for: the message of the error
    Failed(String),
    /// It has ended
    Finished { success: bool, stdout: String, stderr: String },
}

/// A check mark or a cross.
pub open spec fn mark(success: bool) -> Seq<char> {
    if success {
        "✅"@
    } else {
        "❌"@
    }
}

/// A check mark or a cross.
pub fn mark_text(success: bool) -> (r: &'static str)
    ensures
        r@ == mark(success),
{
    if success {
        "✅"
    } else {
        "❌"
    }
}

/// A text between fences, where it is not empty and to be shown.
pub open spec fn fenced(text: Seq<char>, shown: bool) -> Seq<Seq<char>> {
    if shown && text.len() > 0 {
        seq!["```\n"@ + text + "\n```"@]
    } else {
        Seq::empty()
    }
}

/// The message on a command that was run on a schedule.
pub open spec fn command_notice(
    hostname: Seq<char>,
    action: Seq<char>,
    stdout: Seq<char>,
    stderr: Seq<char>,
    success: bool,
    due: Instant,
) -> Seq<char> {
    quotation(
        seq![mark(success) + " *"@ + hostname + "* "@ + action] + fenced(stdout, true) + fenced(
            stderr,
            !success,
        ) + seq![date_text("Next "@ + action + " at"@, due)],
    )
}

/// A text between fences.
fn fence(text: &str) -> (r: String)
    ensures
        r@ == "```\n"@ + text@ + "\n```"@,
{
    let mut r: String = "```\n".to_owned();
    r.append(text);
    r.append("\n```");
    r
}

/// The message on a command that was run on a schedule: what it has printed,
/// and on failure what it has complained of.
pub fn command_notice_text(
    hostname: &str,
    action: &str,
    stdout: &str,
    stderr: &str,
    success: bool,
    due: &Timestamp,
) -> (r: String)
    ensures
        r@ == command_notice(hostname@, action@, stdout@, stderr@, success, due@),
{
    let mut lines: Vec<String> = Vec::new();
    let mut title: String = mark_text(success).to_owned();
    title.append(" *");
    title.append(hostname);
    title.append("* ");
    title.append(action);
    lines.push(title);
    if !stdout.is_empty() {
        lines.push(fence(stdout));
    }
    if !success && !stderr.is_empty() {
        lines.push(fence(stderr));
    }
    let mut label: String = "Next ".to_owned();
    label.append(action);
    label.append(" at");
    lines.push(date_line(label.as_str(), due));
    assert(texts(lines@) =~= seq![mark(success) + " *"@ + hostname@ + "* "@ + action@] + fenced(
        stdout@,
        true,
    ) + fenced(stderr@, !success) + seq![date_text("Next "@ + action@ + " at"@, due@)]);
    quote(&lines)
}

/// The messages on a command that was run on a schedule: on failure to both
/// webhooks, else to the general one only; where the command could not even be
/// run, to the one for errors only.
pub open spec fn command_messages(
    hostname: Seq<char>,
    action: Seq<char>,
    outcome: Outcome,
    due: Instant,
    url: Option<Seq<char>>,
    on_error_url: Option<Seq<char>>,
) -> Seq<(Seq<char>, Seq<char>)> {
    match outcome {
        Outcome::Failed(error) => broadcast_messages(
            None,
            on_error_url,
            command_notice(hostname, action, ""@, error@, false, due),
        ),
        Outcome::Finished { success, stdout, stderr } => broadcast_messages(
            url,
            if success {
                None
            } else {
                on_error_url
            },
            command_notice(hostname, action, stdout@, stderr@, success, due),
        ),
    }
}

/// The messages on a command that was run on a schedule.
pub fn command_report(
    hostname: &str,
    action: &str,
    outcome: &Outcome,
    due: &Timestamp,
    slack_webhook_url: &Option<String>,
    slack_webhook_on_error_url: &Option<String>,
) -> (r: Vec<Message>)
    ensures
        messages_of(r@) == command_messages(
            hostname@,
            action@,
            *outcome,
            due@,
            text_opt(*slack_webhook_url),
            text_opt(*slack_webhook_on_error_url),
        ),
{
    match outcome {
        Outcome::Failed(error) => {
            let text = command_notice_text(hostname, action, "", error.as_str(), false, due);
            to_webhooks(&None, slack_webhook_on_error_url, text.as_str())
        },
        Outcome::Finished { success, stdout, stderr } => {
            let text = command_notice_text(
                hostname,
                action,
                stdout.as_str(),
                stderr.as_str(),
                *success,
                due,
            );
            if *success {
                to_webhooks(slack_webhook_url, &None, text.as_str())
            } else {
                to_webhooks(slack_webhook_url, slack_webhook_on_error_url, text.as_str())
            }
        },
    }
}

/// The webhook for errors is not told of a command that succeeds, and the
/// general one not of a command that could not be run.
pub proof fn law_command_messages(
    hostname: Seq<char>,
    action: Seq<char>,
    outcome: Outcome,
    due: Instant,
    url: Option<Seq<char>>,
    on_error_url: Option<Seq<char>>,
)
    ensures
        outcome matches Outcome::Finished { success, .. } && success ==> command_messages(
            hostname,
            action,
            outcome,
            due,
            url,
            on_error_url,
        ) == command_messages(hostname, action, outcome, due, url, None),
        outcome is Failed ==> command_messages(hostname, action, outcome, due, url, on_error_url)
            == command_messages(hostname, action, outcome, due, None, on_error_url),
{
}

/// The message on a command tells whether it has succeeded, on which host which
/// command, what it has printed, what it has complained of if it has failed,
/// and the time.  What a command that succeeds has complained of is not told.
pub proof fn law_command_notice_tells_the_outcome(
    hostname: Seq<char>,
    action: Seq<char>,
    stdout: Seq<char>,
    stderr: Seq<char>,
    other: Seq<char>,
    success: bool,
    due: Instant,
)
    ensures
        ({
            let text = command_notice(hostname, action, stdout, stderr, success, due);
            &&& success ==> holds(text, "✅ *"@ + hostname + "* "@ + action)
            &&& !success ==> holds(text, "❌ *"@ + hostname + "* "@ + action)
            &&& holds(text, stdout)
            &&& !success ==> holds(text, stderr)
            &&& holds(text, "<!date^"@ + decimal(due.seconds) + "^"@ + ("Next "@ + action + " at"@))
            &&& success ==> text == command_notice(hostname, action, stdout, other, success, due)
        }),
{
    reveal_strlit("✅");
    reveal_strlit("❌");
    reveal_strlit(" *");
    reveal_strlit("✅ *");
    reveal_strlit("❌ *");
    let nothing = Seq::<char>::empty();
    let title = mark(success) + " *"@ + hostname + "* "@ + action;
    let when = date_text("Next "@ + action + " at"@, due);
    let out = fenced(stdout, true);
    let err = fenced(stderr, !success);
    let lines = seq![title] + out + err + seq![when];
    let text = command_notice(hostname, action, stdout, stderr, success, due);
    assert(text == quotation(lines));
    assert("✅"@ + " *"@ =~= "✅ *"@);
    assert("❌"@ + " *"@ =~= "❌ *"@);
    law_quotation_holds_lines(lines, 0);
    assert(lines[0] == title);
    law_quotation_holds_lines(lines, lines.len() - 1);
    law_date_tells_the_time("Next "@ + action + " at"@, due);
    lemma_holds_within(
        text,
        when,
        "<!date^"@ + decimal(due.seconds) + "^"@ + ("Next "@ + action + " at"@),
    );
    lemma_holds(nothing, nothing, text);
    assert(nothing + nothing + text =~= text);
    if stdout.len() > 0 {
        law_quotation_holds_lines(lines, 1);
        lemma_holds("```\n"@, stdout, "\n```"@);
        lemma_holds_within(text, lines[1], stdout);
    } else {
        assert(stdout =~= nothing);
    }
    if stderr.len() > 0 {
        if !success {
            let k = 1 + out.len();
            law_quotation_holds_lines(lines, k as int);
            assert(lines[k as int] == err[0]);
            lemma_holds("```\n"@, stderr, "\n```"@);
            lemma_holds_within(text, lines[k as int], stderr);
        }
    } else {
        assert(stderr =~= nothing);
    }
}

/// Who is told of a command: the general webhook of each that has ended, the
/// one for errors of each that has failed or could not be run, each once and
/// nobody else.
pub proof fn law_who_is_told_of_a_command(
    hostname: Seq<char>,
    action: Seq<char>,
    outcome: Outcome,
    due: Instant,
    url: Option<Seq<char>>,
    on_error_url: Option<Seq<char>>,
    target: Seq<char>,
)
    ensures
        ({
            let all = command_messages(hostname, action, outcome, due, url, on_error_url);
            let told = exists|i: int| 0 <= i < all.len() && (#[trigger] all[i]).0 == target;
            match outcome {
                Outcome::Finished { success, stdout, stderr } => {
                    &&& told <==> url == Some(target) || (!success && on_error_url == Some(target))
                    &&& forall|i: int|
                        0 <= i < all.len() ==> (#[trigger] all[i]).1 == command_notice(
                            hostname,
                            action,
                            stdout@,
                            stderr@,
                            success,
                            due,
                        )
                },
                Outcome::Failed(error) => {
                    &&& told <==> on_error_url == Some(target)
                    &&& forall|i: int|
                        0 <= i < all.len() ==> (#[trigger] all[i]).1 == command_notice(
                            hostname,
                            action,
                            ""@,
                            error@,
                            false,
                            due,
                        )
                },
            }
        }),
        command_messages(hostname, action, outcome, due, url, on_error_url).len() <= 2,
{
    let all = command_messages(hostname, action, outcome, due, url, on_error_url);
    if outcome is Finished && url is Some {
        assert(all[0].0 == url->Some_0);
    }
    if all.len() > 0 {
        assert(all[all.len() - 1].0 == all.last().0);
    }
}

/// The message on a command has a line for its outcome, one for what it has
/// printed, one for what it has complained of if it has failed, and one for the
/// time; what is empty has none.
pub proof fn law_command_notice_has_no_other_lines(
    hostname: Seq<char>,
    action: Seq<char>,
    stdout: Seq<char>,
    stderr: Seq<char>,
    due: Instant,
)
    ensures
        ({
            let good = "✅"@ + " *"@ + hostname + "* "@ + action;
            let bad = "❌"@ + " *"@ + hostname + "* "@ + action;
            let when = date_text("Next "@ + action + " at"@, due);
            let out = "```\n"@ + stdout + "\n```"@;
            let err = "```\n"@ + stderr + "\n```"@;
            let told = |success: bool|
                command_notice(hostname, action, stdout, stderr, success, due);
            &&& stdout.len() == 0 ==> told(true) == quotation(seq![good, when])
            &&& stdout.len() > 0 ==> told(true) == quotation(seq![good, out, when])
            &&& stdout.len() == 0 && stderr.len() == 0 ==> told(false) == quotation(
                seq![bad, when],
            )
            &&& stdout.len() > 0 && stderr.len() == 0 ==> told(false) == quotation(
                seq![bad, out, when],
            )
            &&& stdout.len() == 0 && stderr.len() > 0 ==> told(false) == quotation(
                seq![bad, err, when],
            )
            &&& stdout.len() > 0 && stderr.len() > 0 ==> told(false) == quotation(
                seq![bad, out, err, when],
            )
        }),
{
    let good = "✅"@ + " *"@ + hostname + "* "@ + action;
    let bad = "❌"@ + " *"@ + hostname + "* "@ + action;
    let when = date_text("Next "@ + action + " at"@, due);
    let out = "```\n"@ + stdout + "\n```"@;
    let err = "```\n"@ + stderr + "\n```"@;
    let end = seq![when];
    let none = Seq::<Seq<char>>::empty();
    assert(seq![good] + none + none + end =~= seq![good, when]);
    assert(seq![good] + seq![out] + none + end =~= seq![good, out, when]);
    assert(seq![bad] + none + none + end =~= seq![bad, when]);
    assert(seq![bad] + seq![out] + none + end =~= seq![bad, out, when]);
    assert(seq![bad] + none + seq![err] + end =~= seq![bad, err, when]);
    assert(seq![bad] + seq![out] + seq![err] + end =~= seq![bad, out, err, when]);
}

/// What an idle task is told to do takes it to the very time at which it is due.
pub proof fn law_plans_end_when_due(
    due: Option<Timestamp>,
    now: Timestamp,
    plan: (Phase, Action),
)
    requires
        call_ensures(plan_next, (due, &now), plan),
        ordinary(now@),
        due matches Some(at) ==> ordinary(at@),
    ensures
        due is None <==> plan.1 is Exit,
        plan.1 matches Action::Sleep { due: d, nanos } ==> now@.seconds * 1_000_000_000 + now@.nanos
            + nanos == d@.seconds * 1_000_000_000 + d@.nanos,
        plan.1 matches Action::Sleep { due: d, .. } ==> due matches Some(at) && d@ == at@,
        due matches Some(at) ==> (plan.1 is Overdue <==> at@.seconds * 1_000_000_000 + at@.nanos
            < now@.seconds * 1_000_000_000 + now@.nanos),
{
    let at = match due {
        Some(t) => Some(t@),
        None => None,
    };
    law_sleep_ends_when_due(at, now@, plan.0, plan.1);
}

/// An expression that is no schedule is told as it was given, without the white
/// space around it.
pub proof fn law_rejected_expressions_are_told(
    expression: &str,
    parsed: Result<Schedule, ScheduleError>,
)
    requires
        call_ensures(parse_schedule, (expression,), parsed),
    ensures
        parsed matches Err(e) ==> e.expression@ == trimmed(expression@),
        parsed is Ok <==> cron_parse(normalized(expression@)) is Ok,
        parsed matches Ok(s) ==> (word_count(trimmed(expression@)) == 5 ==> s@ == "0 "@ + trimmed(
            expression@,
        )),
        parsed matches Ok(s) ==> (word_count(trimmed(expression@)) != 5 ==> s@ == trimmed(
            expression@,
        )),
{
}

} // verus!
