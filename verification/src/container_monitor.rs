//! Watching whether the containers of services run, and telling of changes.

use vstd::prelude::*;
use vstd::string::*;
use crate::compose::{compose_args, compose_command, CommandLine, ComposeContext};
use crate::slack::{
    broadcast_messages, date_line, date_text, law_quotation_holds_lines, law_quotations_go_on,
    messages_of, quotation, quote, to_webhooks, Message,
};
use crate::text::{holds, same, text_opt, texts};
use crate::text_map::{has_key, map_of, TextMap};
use crate::time::{
    elapsed, ordinary, valid_instant, whole_seconds, Instant, Timestamp, MIN_SECONDS,
};

verus! {

/// The state in which `docker compose ps` reports the container of a service.
#[derive(Debug)]
pub struct ServiceState {
    pub service: String,
    pub state: String,
}

/// What was last seen of a service.
#[derive(Debug, Clone, Copy)]
pub struct ServiceStatus {
    /// Whether it runs, if it was looked at
    pub is_running: Option<bool>,
    /// When it was last seen to run, if ever
    pub last_running: Option<Timestamp>,
}

/// The seconds that a service has to be away before that is told.
pub const GRACE_SECONDS: i64 = 30;

/// The command that lists the containers that run.
pub fn ps_command(context: &ComposeContext) -> (r: CommandLine)
    ensures
        r.program@ == "docker"@,
        texts(r.args@) == compose_args(*context, None) + seq!["ps"@, "--format"@, "json"@],
{
    let cmd = compose_command(context, None).arg("ps").arg("--format").arg("json");
    assert(texts(cmd.args@) =~= compose_args(*context, None) + seq![
        "ps"@,
        "--format"@,
        "json"@,
    ]);
    cmd
}

/// The state that is reported of a service: the last one.
pub open spec fn reported_state(rows: Seq<ServiceState>, service: Seq<char>) -> Option<Seq<char>>
    decreases rows.len(),
{
    if rows.len() == 0 {
        None
    } else if rows.last().service@ == service {
        Some(rows.last().state@)
    } else {
        reported_state(rows.drop_last(), service)
    }
}

/// Whether a service is reported to run.
pub open spec fn reported_running(rows: Seq<ServiceState>, service: Seq<char>) -> bool {
    reported_state(rows, service) == Some("running"@)
}

/// Whether a service is reported to run.
pub fn is_reported_running(rows: &Vec<ServiceState>, service: &str) -> (r: bool)
    ensures
        r == reported_running(rows@, service@),
{
    let mut n: usize = rows.len();
    assert(rows@.take(n as int) =~= rows@);
    while n > 0
        invariant
            n <= rows@.len(),
            reported_state(rows@, service@) == reported_state(rows@.take(n as int), service@),
        decreases n,
    {
        assert(rows@.take(n as int).drop_last() =~= rows@.take(n - 1));
        if same(rows[n - 1].service.as_str(), service) {
            return same(rows[n - 1].state.as_str(), "running");
        }
        n = n - 1;
    }
    false
}

/// What was seen of a service before it was first looked at.
pub open spec fn unseen() -> ServiceStatus {
    ServiceStatus { is_running: None, last_running: None }
}

/// What is seen of a service once it is looked at.
pub open spec fn seen(status: ServiceStatus, running: bool, now: Timestamp) -> ServiceStatus {
    ServiceStatus {
        is_running: Some(running),
        last_running: if running {
            Some(now)
        } else {
            status.last_running
        },
    }
}

/// The instant at which a service was last seen to run: the first of the
/// calendar where it never was.
pub open spec fn last_seen(status: ServiceStatus) -> Instant {
    match status.last_running {
        Some(t) => t@,
        None => Instant { seconds: MIN_SECONDS as int, nanos: 0 },
    }
}

/// Whether what is seen of a service is news: it runs and did not, or it does
/// not run and has been away for long enough.
pub open spec fn is_news(status: ServiceStatus, running: bool, now: Instant) -> bool {
    status.is_running != Some(running) && (running || whole_seconds(
        elapsed(now, last_seen(status)),
    ) >= GRACE_SECONDS)
}

/// What was last seen of a service.
pub open spec fn status_in(
    board: Map<Seq<char>, ServiceStatus>,
    service: Seq<char>,
) -> ServiceStatus {
    if board.dom().contains(service) {
        board[service]
    } else {
        unseen()
    }
}

/// What is seen once the services have been looked at, in order.
pub open spec fn board_after(
    board: Map<Seq<char>, ServiceStatus>,
    services: Seq<Seq<char>>,
    rows: Seq<ServiceState>,
    now: Timestamp,
) -> Map<Seq<char>, ServiceStatus>
    decreases services.len(),
{
    if services.len() == 0 {
        board
    } else {
        let before = board_after(board, services.drop_last(), rows, now);
        let s = services.last();
        before.insert(s, seen(status_in(before, s), reported_running(rows, s), now))
    }
}

/// Whether looking at the services, in order, brings news.
pub open spec fn brings_news(
    board: Map<Seq<char>, ServiceStatus>,
    services: Seq<Seq<char>>,
    rows: Seq<ServiceState>,
    now: Timestamp,
) -> bool
    decreases services.len(),
{
    services.len() > 0 && {
        let before = board_after(board, services.drop_last(), rows, now);
        let s = services.last();
        brings_news(board, services.drop_last(), rows, now) || is_news(
            status_in(before, s),
            reported_running(rows, s),
            now@,
        )
    }
}

/// What was seen of the services that are watched.
pub struct StatusBoard {
    pub services: TextMap<ServiceStatus>,
    /// Whether nothing has been told yet
    pub first: bool,
}

impl StatusBoard {
    /// Nothing was seen yet.
    pub fn new() -> (r: StatusBoard)
        ensures
            map_of(r.services@) == Map::<Seq<char>, ServiceStatus>::empty(),
            r.first,
    {
        let services: TextMap<ServiceStatus> = TextMap::new();
        assert(map_of(services@) =~= Map::<Seq<char>, ServiceStatus>::empty());
        StatusBoard { services, first: true }
    }

    /// Takes in what is reported of the services at a time, and tells whether
    /// there is something to tell: there is news, or nothing was told yet.
    pub fn observe(&mut self, services: &Vec<String>, rows: &Vec<ServiceState>, now: Timestamp) -> (
    notify: bool)
        ensures
            map_of(final(self).services@) == board_after(
                map_of(old(self).services@),
                texts(services@),
                rows@,
                now,
            ),
            notify == (old(self).first || brings_news(
                map_of(old(self).services@),
                texts(services@),
                rows@,
                now,
            )),
            !final(self).first,
    {
        let ghost before = map_of(self.services@);
        let ghost all = texts(services@);
        let mut notify = self.first;
        let mut i: usize = 0;
        let ghost first = self.first;
        assert(all.take(0) =~= Seq::empty());
        while i < services.len()
            invariant
                i <= services@.len(),
                all == texts(services@),
                map_of(self.services@) == board_after(before, all.take(i as int), rows@, now),
                notify == (first || brings_news(before, all.take(i as int), rows@, now)),
            decreases services.len() - i,
        {
            let service: &str = services[i].as_str();
            let ghost board = map_of(self.services@);
            proof {
                assert(all.take(i + 1).drop_last() =~= all.take(i as int));
                assert(all.take(i + 1).last() == service@);
                assert(board.dom().contains(service@) <==> has_key(self.services@, service@));
            }
            let running = is_reported_running(rows, service);
            let status: ServiceStatus = match self.services.get(service) {
                Some(status) => *status,
                None => ServiceStatus { is_running: None, last_running: None },
            };
            let last_running: Timestamp = match status.last_running {
                Some(t) => t,
                None => Timestamp::min(),
            };
            let changed = match status.is_running {
                Some(was) => was != running,
                None => true,
            };
            if changed && (running || now.seconds_since(&last_running) >= GRACE_SECONDS) {
                notify = true;
            }
            let seen = ServiceStatus {
                is_running: Some(running),
                last_running: if running {
                    Some(now)
                } else {
                    status.last_running
                },
            };
            self.services.insert(service.to_owned(), seen);
            i = i + 1;
        }
        assert(all.take(all.len() as int) =~= all);
        self.first = false;
        notify
    }

    /// Takes in what is reported of the services at a time, and says what to
    /// send: where there is something to tell, the message on all services to
    /// each webhook that is set, else nothing.
    pub fn check(
        &mut self,
        hostname: &str,
        services: &Vec<String>,
        rows: &Vec<ServiceState>,
        now: Timestamp,
        slack_webhook_url: &Option<String>,
        slack_webhook_on_error_url: &Option<String>,
    ) -> (r: Vec<Message>)
        ensures
            map_of(final(self).services@) == board_after(
                map_of(old(self).services@),
                texts(services@),
                rows@,
                now,
            ),
            !final(self).first,
            messages_of(r@) == (if old(self).first || brings_news(
                map_of(old(self).services@),
                texts(services@),
                rows@,
                now,
            ) {
                broadcast_messages(
                    text_opt(*slack_webhook_url),
                    text_opt(*slack_webhook_on_error_url),
                    notice(hostname@, now@, final(self).services@),
                )
            } else {
                Seq::empty()
            }),
    {
        if self.observe(services, rows, now) {
            messages(hostname, &now, self, slack_webhook_url, slack_webhook_on_error_url)
        } else {
            let r: Vec<Message> = Vec::new();
            assert(messages_of(r@) =~= Seq::empty());
            r
        }
    }
}

/// The line of a service.
pub open spec fn service_line(name: Seq<char>, status: ServiceStatus) -> Seq<char> {
    (if status.is_running == Some(true) {
        "🟩"@
    } else {
        "🟥"@
    }) + " "@ + name
}

/// The message on the services.
pub open spec fn notice(
    hostname: Seq<char>,
    now: Instant,
    services: Seq<(Seq<char>, ServiceStatus)>,
) -> Seq<char> {
    quotation(
        seq!["💿 *container monitor* for "@ + hostname, ""@, date_text("Run at"@, now), ""@]
            + services.map_values(|e: (Seq<char>, ServiceStatus)| service_line(e.0, e.1)),
    )
}

/// The message on the services: each in a line of its own.
pub fn notice_text(hostname: &str, now: &Timestamp, services: &TextMap<ServiceStatus>) -> (r:
    String)
    ensures
        r@ == notice(hostname@, now@, services@),
{
    let mut title: String = "💿 *container monitor* for ".to_owned();
    title.append(hostname);
    let mut lines: Vec<String> = vec![
        title,
        "".to_owned(),
        date_line("Run at", now),
        "".to_owned(),
    ];
    let ghost head = seq![
        "💿 *container monitor* for "@ + hostname@,
        ""@,
        date_text("Run at"@, now@),
        ""@,
    ];
    let ghost tail = services@.map_values(
        |e: (Seq<char>, ServiceStatus)| service_line(e.0, e.1),
    );
    let n: usize = services.len();
    let mut i: usize = 0;
    assert(texts(lines@) =~= head + tail.take(0));
    while i < n
        invariant
            n == services@.len(),
            i <= n,
            tail == services@.map_values(
                |e: (Seq<char>, ServiceStatus)| service_line(e.0, e.1),
            ),
            texts(lines@) == head + tail.take(i as int),
        decreases n - i,
    {
        let ghost was = texts(lines@);
        let running = match services.value(i).is_running {
            Some(running) => running,
            None => false,
        };
        let mut line: String = if running {
            "🟩".to_owned()
        } else {
            "🟥".to_owned()
        };
        line.append(" ");
        line.append(services.key(i).as_str());
        lines.push(line);
        proof {
            assert(line@ == tail[i as int]);
            assert(texts(lines@) =~= was.push(line@));
            assert(was.push(line@) =~= head + tail.take(i + 1));
        }
        i = i + 1;
    }
    assert(tail.take(n as int) =~= tail);
    quote(&lines)
}

/// The message on the services for each webhook that is set.
pub fn messages(
    hostname: &str,
    now: &Timestamp,
    board: &StatusBoard,
    slack_webhook_url: &Option<String>,
    slack_webhook_on_error_url: &Option<String>,
) -> (r: Vec<Message>)
    ensures
        messages_of(r@) == broadcast_messages(
            text_opt(*slack_webhook_url),
            text_opt(*slack_webhook_on_error_url),
            notice(hostname@, now@, board.services@),
        ),
{
    let text = notice_text(hostname, now, &board.services);
    to_webhooks(slack_webhook_url, slack_webhook_on_error_url, text.as_str())
}

/// A service that was just looked at is on the board as reported; one that was
/// not looked at is as it was.
pub proof fn law_board_shows_the_report(
    board: Map<Seq<char>, ServiceStatus>,
    services: Seq<Seq<char>>,
    rows: Seq<ServiceState>,
    now: Timestamp,
    service: Seq<char>,
)
    ensures
        services.contains(service) ==> status_in(
            board_after(board, services, rows, now),
            service,
        ).is_running == Some(reported_running(rows, service)),
        !services.contains(service) ==> status_in(board_after(board, services, rows, now), service)
            == status_in(board, service),
    decreases services.len(),
{
    if services.len() > 0 {
        let rest = services.drop_last();
        law_board_shows_the_report(board, rest, rows, now, service);
        if services.contains(service) && services.last() != service {
            let k = choose|k: int| 0 <= k < services.len() && services[k] == service;
            assert(rest[k] == service);
        }
        if rest.contains(service) {
            let k = choose|k: int| 0 <= k < rest.len() && rest[k] == service;
            assert(services[k] == service);
        }
        assert(services.contains(services.last()));
    }
}

/// Services that are reported as they were bring no news.
pub proof fn law_no_change_is_no_news(
    board: Map<Seq<char>, ServiceStatus>,
    services: Seq<Seq<char>>,
    rows: Seq<ServiceState>,
    now: Timestamp,
)
    requires
        forall|i: int|
            0 <= i < services.len() ==> status_in(board, #[trigger] services[i]).is_running == Some(
                reported_running(rows, services[i]),
            ),
    ensures
        !brings_news(board, services, rows, now),
    decreases services.len(),
{
    if services.len() > 0 {
        let rest = services.drop_last();
        assert forall|i: int| 0 <= i < rest.len() implies status_in(
            board,
            #[trigger] rest[i],
        ).is_running == Some(reported_running(rows, rest[i])) by {
            assert(rest[i] == services[i]);
        }
        law_no_change_is_no_news(board, rest, rows, now);
        law_board_shows_the_report(board, rest, rows, now, services.last());
        assert(services.last() == services[services.len() - 1]);
    }
}

/// A service that comes back is news at once; one that goes away is news only
/// if it was away for the time of grace when it is first missed.
pub proof fn law_short_absence_is_no_news(status: ServiceStatus, now: Instant)
    ensures
        is_news(status, true, now) <==> status.is_running != Some(true),
        status.last_running matches Some(t) && whole_seconds(elapsed(now, t@)) < GRACE_SECONDS
            ==> !is_news(status, false, now),
{
}

/// A check brings news exactly if one of the services is news, going by what
/// was seen of it before the check.
pub proof fn law_news_is_of_a_service(
    board: Map<Seq<char>, ServiceStatus>,
    services: Seq<Seq<char>>,
    rows: Seq<ServiceState>,
    now: Timestamp,
)
    ensures
        brings_news(board, services, rows, now) <==> exists|i: int|
            0 <= i < services.len() && is_news(
                status_in(board, #[trigger] services[i]),
                reported_running(rows, services[i]),
                now@,
            ),
    decreases services.len(),
{
    if services.len() > 0 {
        let rest = services.drop_last();
        let last = services.last();
        law_news_is_of_a_service(board, rest, rows, now);
        law_board_shows_the_report(board, rest, rows, now, last);
        assert(last == services[services.len() - 1]);
        if brings_news(board, rest, rows, now) {
            let i = choose|i: int|
                0 <= i < rest.len() && is_news(
                    status_in(board, #[trigger] rest[i]),
                    reported_running(rows, rest[i]),
                    now@,
                );
            assert(services[i] == rest[i]);
        } else if rest.contains(last) {
            let k = choose|k: int| 0 <= k < rest.len() && rest[k] == last;
            assert(!is_news(status_in(board, rest[k]), reported_running(rows, rest[k]), now@));
        }
        if exists|i: int|
            0 <= i < services.len() && is_news(
                status_in(board, #[trigger] services[i]),
                reported_running(rows, services[i]),
                now@,
            ) {
            let i = choose|i: int|
                0 <= i < services.len() && is_news(
                    status_in(board, #[trigger] services[i]),
                    reported_running(rows, services[i]),
                    now@,
                );
            if i < rest.len() {
                assert(rest[i] == services[i]);
            }
        }
    }
}

/// Whether a check has something to tell of a service: it runs and did not at
/// the check before; or it does not run, was not known to be away, and was
/// never seen to run or not within the time of grace.
pub open spec fn is_told(status: ServiceStatus, running: bool, now: Instant) -> bool {
    if running {
        status.is_running != Some(true)
    } else {
        status.is_running != Some(false) && match status.last_running {
            Some(t) => whole_seconds(elapsed(now, t@)) >= GRACE_SECONDS,
            None => true,
        }
    }
}

/// A check is told, to each webhook that is set, exactly if it is the first or
/// has something to tell of one of the services, going by what was seen of it
/// before the check.  The first seconds of the calendar are left out: a service
/// that was never seen to run counts as last seen at its beginning.
pub proof fn law_checks_tell_of_a_service(
    first: bool,
    board: Map<Seq<char>, ServiceStatus>,
    services: Seq<Seq<char>>,
    rows: Seq<ServiceState>,
    now: Timestamp,
)
    requires
        valid_instant(now@.seconds, now@.nanos),
        now@.seconds >= MIN_SECONDS + GRACE_SECONDS,
    ensures
        first || brings_news(board, services, rows, now) <==> first || exists|i: int|
            0 <= i < services.len() && is_told(
                status_in(board, #[trigger] services[i]),
                reported_running(rows, services[i]),
                now@,
            ),
{
    law_news_is_of_a_service(board, services, rows, now);
    assert forall|i: int| 0 <= i < services.len() implies is_told(
        status_in(board, #[trigger] services[i]),
        reported_running(rows, services[i]),
        now@,
    ) == is_news(
        status_in(board, services[i]),
        reported_running(rows, services[i]),
        now@,
    ) by {}
}

/// What is reported last of a service counts, and a service of which nothing is
/// reported does not run.
pub proof fn law_last_report_counts(rows: Seq<ServiceState>, service: Seq<char>, i: int)
    ensures
        0 <= i < rows.len() && rows[i].service@ == service && (forall|j: int|
            i < j < rows.len() ==> (#[trigger] rows[j]).service@ != service) ==> (reported_running(
            rows,
            service,
        ) <==> rows[i].state@ == "running"@),
        (forall|j: int| 0 <= j < rows.len() ==> (#[trigger] rows[j]).service@ != service)
            ==> !reported_running(rows, service),
    decreases rows.len(),
{
    if rows.len() > 0 {
        let less = rows.drop_last();
        law_last_report_counts(less, service, i);
        assert(rows[rows.len() - 1] == rows.last());
        assert forall|j: int| 0 <= j < less.len() implies #[trigger] less[j] == rows[j] by {}
        if 0 <= i < less.len() {
            assert(less[i] == rows[i]);
        }
    }
}

/// A check notes when a service runs, and leaves the time at which it was last
/// seen to run as it was where it does not.
pub proof fn law_board_keeps_the_last_time_seen(
    board: Map<Seq<char>, ServiceStatus>,
    services: Seq<Seq<char>>,
    rows: Seq<ServiceState>,
    now: Timestamp,
    service: Seq<char>,
)
    requires
        services.contains(service),
    ensures
        reported_running(rows, service) ==> status_in(
            board_after(board, services, rows, now),
            service,
        ).last_running == Some(now),
        !reported_running(rows, service) ==> status_in(
            board_after(board, services, rows, now),
            service,
        ).last_running == status_in(board, service).last_running,
        board_after(board, services, rows, now).dom().contains(service),
    decreases services.len(),
{
    let rest = services.drop_last();
    if rest.contains(service) {
        law_board_keeps_the_last_time_seen(board, rest, rows, now, service);
    } else {
        law_board_shows_the_report(board, rest, rows, now, service);
        let k = choose|k: int| 0 <= k < services.len() && services[k] == service;
        if k < rest.len() {
            assert(rest[k] == service);
        }
        assert(services.last() == service);
    }
}

/// The time of grace is thirty seconds by the clock: a service that ran at the
/// check before and does not now is news exactly if it was last seen to run at
/// least that long ago, and one that has come back is news at once.
pub proof fn law_grace_is_thirty_seconds(status: ServiceStatus, seen_at: Timestamp, now: Instant)
    requires
        ordinary(now),
        ordinary(seen_at@),
        status.last_running == Some(seen_at),
    ensures
        status.is_running == Some(true) ==> (is_news(status, false, now) <==> now.seconds
            * 1_000_000_000 + now.nanos >= seen_at@.seconds * 1_000_000_000 + seen_at@.nanos
            + 30_000_000_000),
        status.is_running == Some(false) ==> !is_news(status, false, now),
        status.is_running == Some(false) ==> is_news(status, true, now),
        status.is_running == Some(true) ==> !is_news(status, true, now),
{
}

/// The message tells of each service whether it runs: a green square before its
/// name if it does, a red one if not.
pub proof fn law_notice_tells_every_service(
    hostname: Seq<char>,
    now: Instant,
    services: Seq<(Seq<char>, ServiceStatus)>,
    i: int,
)
    requires
        0 <= i < services.len(),
    ensures
        services[i].1.is_running == Some(true) ==> holds(
            notice(hostname, now, services),
            "🟩"@ + " "@ + services[i].0,
        ),
        services[i].1.is_running != Some(true) ==> holds(
            notice(hostname, now, services),
            "🟥"@ + " "@ + services[i].0,
        ),
        holds(notice(hostname, now, services), "💿 *container monitor* for "@ + hostname),
{
    let top = seq![
        "💿 *container monitor* for "@ + hostname,
        ""@,
        date_text("Run at"@, now),
        ""@,
    ];
    let tail = services.map_values(|e: (Seq<char>, ServiceStatus)| service_line(e.0, e.1));
    let lines = top + tail;
    assert(notice(hostname, now, services) == quotation(lines));
    law_quotation_holds_lines(lines, 0);
    law_quotation_holds_lines(lines, 4 + i);
    assert(lines[4 + i] == tail[i]);
    assert(lines[0] == top[0]);
}

/// The message begins with the host and the time, and goes on with a line for
/// each further service.
pub proof fn law_notice_goes_on(
    hostname: Seq<char>,
    now: Instant,
    services: Seq<(Seq<char>, ServiceStatus)>,
    service: (Seq<char>, ServiceStatus),
)
    ensures
        notice(hostname, now, Seq::empty()) == quotation(
            seq!["💿 *container monitor* for "@ + hostname, ""@, date_text("Run at"@, now), ""@],
        ),
        notice(hostname, now, services.push(service)) == notice(hostname, now, services) + "\n> "@
            + ((if service.1.is_running == Some(true) {
            "🟩"@
        } else {
            "🟥"@
        }) + " "@ + service.0),
{
    let top = seq![
        "💿 *container monitor* for "@ + hostname,
        ""@,
        date_text("Run at"@, now),
        ""@,
    ];
    let f = |e: (Seq<char>, ServiceStatus)| service_line(e.0, e.1);
    let line = service_line(service.0, service.1);
    let lines = top + services.map_values(f);
    assert(top + Seq::<(Seq<char>, ServiceStatus)>::empty().map_values(f) =~= top);
    assert(top + services.push(service).map_values(f) =~= lines.push(line));
    law_quotations_go_on(lines, line);
}

/// A service that was never looked at is news when it does not run as well, but
/// for the first seconds of the calendar.
pub proof fn law_first_look_is_news(now: Instant)
    requires
        ordinary(now),
        0 <= now.nanos,
        now.seconds >= MIN_SECONDS + 30,
    ensures
        is_news((ServiceStatus { is_running: None, last_running: None }), false, now),
        is_news((ServiceStatus { is_running: None, last_running: None }), true, now),
{
}

/// The first check is told.  A later one is told where a service has come back,
/// and is not where all are as they were.  What was reported is what the next
/// check goes by.
pub proof fn law_news_is_told(
    board: &mut StatusBoard,
    services: Vec<String>,
    rows: Vec<ServiceState>,
    now: Timestamp,
    told: bool,
    i: int,
)
    requires
        call_ensures(StatusBoard::observe, (board, &services, &rows, now), told),
        0 <= i < services@.len(),
    ensures
        ({
            let name = services@[i]@;
            let was = status_in(map_of(old(board).services@), name);
            let is = status_in(map_of(final(board).services@), name);
            let running = reported_running(rows@, name);
            &&& old(board).first ==> told
            &&& running && was.is_running != Some(true) ==> told
            &&& !old(board).first && (forall|k: int|
                0 <= k < services@.len() ==> status_in(
                    map_of(old(board).services@),
                    (#[trigger] services@[k])@,
                ).is_running == Some(reported_running(rows@, services@[k]@))) ==> !told
            &&& is.is_running == Some(running)
            &&& running ==> is.last_running == Some(now)
            &&& !running ==> is.last_running == was.last_running
            &&& !final(board).first
        }),
{
    let all = texts(services@);
    let name = services@[i]@;
    let before = map_of(old(board).services@);
    assert(all[i] == name);
    law_board_shows_the_report(before, all, rows@, now, name);
    law_board_keeps_the_last_time_seen(before, all, rows@, now, name);
    law_news_is_of_a_service(before, all, rows@, now);
    if forall|k: int|
        0 <= k < services@.len() ==> status_in(before, (#[trigger] services@[k])@).is_running
            == Some(reported_running(rows@, services@[k]@)) {
        assert forall|k: int| 0 <= k < all.len() implies status_in(
            before,
            #[trigger] all[k],
        ).is_running == Some(reported_running(rows@, all[k])) by {
            assert(all[k] == services@[k]@);
        }
        law_no_change_is_no_news(before, all, rows@, now);
    }
}

/// A check that has something to tell sends its message once to each webhook that
/// is set, and one that has not sends none.
pub proof fn law_checks_are_sent(
    board: &mut StatusBoard,
    hostname: &str,
    services: Vec<String>,
    rows: Vec<ServiceState>,
    now: Timestamp,
    url: Option<String>,
    on_error_url: Option<String>,
    sent: Vec<Message>,
    i: int,
)
    requires
        call_ensures(
            StatusBoard::check,
            (board, hostname, &services, &rows, now, &url, &on_error_url),
            sent,
        ),
    ensures
        ({
            let news = brings_news(
                map_of(old(board).services@),
                texts(services@),
                rows@,
                now,
            );
            &&& !old(board).first && !news ==> sent@.len() == 0
            &&& old(board).first || news ==> sent@.len() == (if url is Some {
                1int
            } else {
                0
            }) + (if on_error_url is Some {
                1int
            } else {
                0
            })
            &&& old(board).first || news ==> (url matches Some(u) ==> sent@[0].url@ == u@)
            &&& old(board).first || news ==> (on_error_url matches Some(u) ==> sent@.last().url@
                == u@)
            &&& 0 <= i < sent@.len() ==> sent@[i].text@ == notice(
                hostname@,
                now@,
                final(board).services@,
            )
            &&& !final(board).first
        }),
{
    let all = messages_of(sent@);
    assert(all.len() == sent@.len());
    if sent@.len() > 0 {
        assert(all[sent@.len() - 1] == (sent@.last().url@, sent@.last().text@));
        assert(all[0] == (sent@[0].url@, sent@[0].text@));
    }
    if 0 <= i < sent@.len() {
        assert(all[i] == (sent@[i].url@, sent@[i].text@));
    }
}

} // verus!
