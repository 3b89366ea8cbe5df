//! Which tasks the labels of a compose project ask for, and what a task on a
//! service does each time it is due.

use vstd::prelude::*;
use vstd::string::*;
use crate::compose::{
    action_name, compose_args, compose_command, done_word, CommandLine, ComposeAction,
    ComposeContext,
};
use crate::compose_types::{Compose, Service};
use crate::paths::{components, join_path, path_join, same_path};
use crate::scheduler::{
    cron_parse, known_zone, mark, mark_text, Outcome, Schedule, ScheduleError, Zone,
};
use crate::slack::{
    broadcast_messages, date_line, date_text, law_date_tells_the_time, law_quotation_holds_lines,
    messages_of, quotation, quote, to_webhooks, Message,
};
use crate::text::{
    decimal, holds, lemma_holds_within, lower, same, same_ignoring_case, str_opt, strip_prefix,
    text_opt, texts,
};
use crate::text_map::{lookup, ordered, TextMap};
use crate::time::{rfc3339_text, Instant, Timestamp};

verus! {

/// The label that has a service run on a schedule.
pub const RUN_KEY: &'static str = "co.architect.composer.run";

/// What stands before the name of a schedule in a label of that kind.
pub const RUN_PREFIX: &'static str = "co.architect.composer.run.";

/// The label that has a service restarted on a schedule.
pub const RESTART_KEY: &'static str = "co.architect.composer.restart";

/// What stands before the name of a schedule in a label of that kind.
pub const RESTART_PREFIX: &'static str = "co.architect.composer.restart.";

/// The label that has a service's runs told to Slack.
pub const NOTIFY_KEY: &'static str = "co.architect.composer.notify.slack";

/// The label that has a service's failed runs told to Slack.
pub const NOTIFY_ON_ERROR_KEY: &'static str = "co.architect.composer.notify.slack.on-error";

/// The label that tells the time zone of a service's schedules.
pub const ZONE_KEY: &'static str = "co.architect.composer.tz";

/// The schedule of a service that is only run by hand.
pub const MANUAL: &'static str = "manual";

/// What a label asks for: the action and the name of the schedule, if it has
/// one.
pub open spec fn schedule_action(key: Seq<char>) -> Option<(ComposeAction, Option<Seq<char>>)> {
    if key == RUN_KEY@ {
        Some((ComposeAction::Run, None))
    } else if RUN_PREFIX@.is_prefix_of(key) {
        Some((ComposeAction::Run, Some(key.skip(RUN_PREFIX@.len() as int))))
    } else if key == RESTART_KEY@ {
        Some((ComposeAction::Restart, None))
    } else if RESTART_PREFIX@.is_prefix_of(key) {
        Some((ComposeAction::Restart, Some(key.skip(RESTART_PREFIX@.len() as int))))
    } else {
        None
    }
}

/// Check if a label key is a schedule label and return the corresponding action
/// and optional schedule name (the suffix after the base key).
/// Matches exact keys (e.g., `co.architect.composer.run`) and suffixed keys
/// (e.g., `co.architect.composer.run.morning`).
pub fn get_schedule_action<'a>(key: &'a str) -> (r: Option<(ComposeAction, Option<&'a str>)>)
    ensures
        match schedule_action(key@) {
            Some((action, name)) => r matches Some((a, n)) && a == action && str_opt(n) == name,
            None => r is None,
        },
{
    if same(key, RUN_KEY) {
        return Some((ComposeAction::Run, None));
    }
    if let Some(suffix) = strip_prefix(key, RUN_PREFIX) {
        return Some((ComposeAction::Run, Some(suffix)));
    }
    if same(key, RESTART_KEY) {
        return Some((ComposeAction::Restart, None));
    }
    if let Some(suffix) = strip_prefix(key, RESTART_PREFIX) {
        return Some((ComposeAction::Restart, Some(suffix)));
    }
    None
}

/// A label asks for one action only: the plain keys for that action without a
/// name, a key with a suffix for that action under the suffix as a name.
pub proof fn law_schedule_keys(suffix: Seq<char>)
    ensures
        schedule_action(RUN_KEY@) == Some((ComposeAction::Run, None::<Seq<char>>)),
        schedule_action(RESTART_KEY@) == Some((ComposeAction::Restart, None::<Seq<char>>)),
        schedule_action(RUN_KEY@ + "."@ + suffix) == Some((ComposeAction::Run, Some(suffix))),
        schedule_action(RESTART_KEY@ + "."@ + suffix) == Some(
            (ComposeAction::Restart, Some(suffix)),
        ),
{
    reveal_strlit("co.architect.composer.run");
    reveal_strlit("co.architect.composer.run.");
    reveal_strlit("co.architect.composer.restart");
    reveal_strlit("co.architect.composer.restart.");
    reveal_strlit(".");
    let run = RUN_KEY@ + "."@ + suffix;
    let restart = RESTART_KEY@ + "."@ + suffix;
    assert(RUN_KEY@ + "."@ =~= RUN_PREFIX@);
    assert(RESTART_KEY@ + "."@ =~= RESTART_PREFIX@);
    assert(run.subrange(0, RUN_PREFIX@.len() as int) =~= RUN_PREFIX@);
    assert(run.skip(RUN_PREFIX@.len() as int) =~= suffix);
    assert(restart.subrange(0, RESTART_PREFIX@.len() as int) =~= RESTART_PREFIX@);
    assert(restart.skip(RESTART_PREFIX@.len() as int) =~= suffix);
    assert(run.len() != RUN_KEY@.len());
    // the first letter in which the two keys differ
    let i: int = 23;
    assert(RUN_PREFIX@[i] == 'u' && RESTART_KEY@[i] == 'e' && RESTART_PREFIX@[i] == 'e');
    assert(RUN_KEY@[i] == 'u');
    assert(restart[i] == 'e');
    if RUN_PREFIX@.is_prefix_of(restart) {
        assert(restart.subrange(0, RUN_PREFIX@.len() as int)[i] == 'u');
    }
    if RUN_PREFIX@.is_prefix_of(RESTART_KEY@) {
        assert(RESTART_KEY@.subrange(0, RUN_PREFIX@.len() as int)[i] == 'u');
    }
    assert(restart != RUN_KEY@);
    assert(restart.len() != RESTART_KEY@.len());
    assert(RESTART_KEY@ != RUN_KEY@);
}

/// No other label asks for anything: one that does is one of the two plain keys,
/// or one of them with a dot and a name behind it.
pub proof fn law_other_keys_ask_for_nothing(key: Seq<char>)
    requires
        schedule_action(key) is Some,
    ensures
        ({
            let (action, name) = schedule_action(key)->Some_0;
            let plain = match action {
                ComposeAction::Run => "co.architect.composer.run"@,
                ComposeAction::Restart => "co.architect.composer.restart"@,
            };
            match name {
                None => key == plain,
                Some(name) => key == plain + "."@ + name,
            }
        }),
{
    reveal_strlit("co.architect.composer.run");
    reveal_strlit("co.architect.composer.run.");
    reveal_strlit("co.architect.composer.restart");
    reveal_strlit("co.architect.composer.restart.");
    reveal_strlit(".");
    assert(RUN_KEY@ + "."@ =~= RUN_PREFIX@);
    assert(RESTART_KEY@ + "."@ =~= RESTART_PREFIX@);
    if let (action, Some(name)) = schedule_action(key)->Some_0 {
        let prefix = match action {
            ComposeAction::Run => RUN_PREFIX@,
            ComposeAction::Restart => RESTART_PREFIX@,
        };
        assert(key =~= prefix + name);
    }
}

/// Whether a setting is switched on.
pub open spec fn switched_on(value: Seq<char>) -> bool {
    value == "true"@ || value == "1"@
}

/// Whether a setting is switched on: it is `true` or `1`.
pub fn is_switched_on(value: &str) -> (r: bool)
    ensures
        r == switched_on(value@),
{
    same(value, "true") || same(value, "1")
}

/// Whether the system monitor is to run with its defaults: its setting is `1`,
/// or `true` in upper or lower case.  Any other setting is the path of its
/// configuration.
pub fn is_default_config(value: &str) -> (r: bool)
    ensures
        r == (value@.map_values(|c: char| lower(c)) == "true"@ || value@ == "1"@),
{
    same_ignoring_case(value, "true") || same(value, "1")
}

// ---------------------------------------------------------------------------
// The plan
// ---------------------------------------------------------------------------

/// A task that acts on a service on a schedule.
#[derive(Debug)]
pub struct Job {
    pub action: ComposeAction,
    pub schedule: Schedule,
    pub zone: Zone,
    pub service: String,
    /// The name of the schedule, if it has one
    pub schedule_name: Option<String>,
    /// Where each run is told
    pub slack_webhook_url: Option<String>,
    /// Where each failed run is told
    pub slack_webhook_on_error_url: Option<String>,
}

/// The model of a task on a service.
pub struct JobModel {
    pub action: ComposeAction,
    pub schedule: Seq<char>,
    pub zone: Seq<char>,
    pub service: Seq<char>,
    pub schedule_name: Option<Seq<char>>,
    pub url: Option<Seq<char>>,
    pub on_error_url: Option<Seq<char>>,
}

impl View for Job {
    type V = JobModel;

    open spec fn view(&self) -> JobModel {
        JobModel {
            action: self.action,
            schedule: self.schedule@,
            zone: self.zone@,
            service: self.service@,
            schedule_name: text_opt(self.schedule_name),
            url: text_opt(self.slack_webhook_url),
            on_error_url: text_opt(self.slack_webhook_on_error_url),
        }
    }
}

/// The models of tasks.
pub open spec fn jobs_of(jobs: Seq<Job>) -> Seq<JobModel> {
    jobs.map_values(|j: Job| j@)
}

/// Why the labels of a project make no plan.
#[derive(Debug)]
pub enum TaskError {
    /// A time zone that is not known, by its name
    Timezone(String),
    /// A schedule that is none
    Schedule(ScheduleError),
}

/// The model of the reason why labels make no plan.
pub enum Flaw {
    Timezone(Seq<char>),
    Schedule(Seq<char>, Seq<char>),
}

impl View for TaskError {
    type V = Flaw;

    open spec fn view(&self) -> Flaw {
        match *self {
            TaskError::Timezone(name) => Flaw::Timezone(name@),
            TaskError::Schedule(e) => Flaw::Schedule(e.expression@, e.reason@),
        }
    }
}

impl TaskError {
    /// What is wrong with the labels.
    pub fn message(&self) -> (r: String)
        ensures
            r@ == (match self@ {
                Flaw::Timezone(_) => "failed to parse timezone"@,
                Flaw::Schedule(expression, _) => "while parsing cron expression: "@ + expression,
            }),
    {
        match self {
            TaskError::Timezone(_) => "failed to parse timezone".to_owned(),
            TaskError::Schedule(e) => e.message(),
        }
    }
}

/// The tasks of a project, and the services whose containers are watched.
#[derive(Debug)]
pub struct TaskPlan {
    pub jobs: Vec<Job>,
    pub monitored: Vec<String>,
}

/// The model of a plan.
pub struct Plan {
    pub jobs: Seq<JobModel>,
    pub monitored: Seq<Seq<char>>,
}

impl View for TaskPlan {
    type V = Plan;

    open spec fn view(&self) -> Plan {
        Plan { jobs: jobs_of(self.jobs@), monitored: texts(self.monitored@) }
    }
}

/// The webhooks that a project has.
pub struct Webhooks {
    pub url: Option<Seq<char>>,
    pub on_error_url: Option<Seq<char>>,
}

/// Whether a label is there and switched on.
pub open spec fn label_on(labels: Seq<(Seq<char>, String)>, key: Seq<char>) -> bool {
    lookup(labels, key) matches Some(value) && switched_on(value@)
}

/// The name of the time zone that labels give: UTC where they give none.
pub open spec fn zone_name(labels: Seq<(Seq<char>, String)>) -> Seq<char> {
    match lookup(labels, ZONE_KEY@) {
        Some(name) => name@,
        None => "UTC"@,
    }
}

/// Whether labels give a time zone that is not known.
pub open spec fn zone_unknown(labels: Seq<(Seq<char>, String)>) -> bool {
    lookup(labels, ZONE_KEY@) is Some && !known_zone(zone_name(labels))
}

/// What a schedule label asks for.
#[derive(Debug)]
pub struct Request {
    pub action: ComposeAction,
    /// The name of the schedule, if it has one
    pub schedule_name: Option<String>,
    /// The cron expression
    pub expression: String,
}

/// The model of what a schedule label asks for.
pub struct RequestModel {
    pub action: ComposeAction,
    pub schedule_name: Option<Seq<char>>,
    pub expression: Seq<char>,
}

impl View for Request {
    type V = RequestModel;

    open spec fn view(&self) -> RequestModel {
        RequestModel {
            action: self.action,
            schedule_name: text_opt(self.schedule_name),
            expression: self.expression@,
        }
    }
}

/// What labels ask for, in order.  A label that is set to `manual` asks for
/// nothing.
pub open spec fn requests_of(labels: Seq<(Seq<char>, String)>) -> Seq<RequestModel>
    decreases labels.len(),
{
    if labels.len() == 0 {
        Seq::empty()
    } else {
        let rest = requests_of(labels.drop_last());
        let (key, value) = labels.last();
        match schedule_action(key) {
            Some((action, schedule_name)) => if value@ == MANUAL@ {
                rest
            } else {
                rest.push(RequestModel { action, schedule_name, expression: value@ })
            },
            None => rest,
        }
    }
}

/// The task that a request of a service makes, in the context of all labels of
/// that service.
pub open spec fn job_of(
    service: Seq<char>,
    labels: Seq<(Seq<char>, String)>,
    hooks: Webhooks,
    request: RequestModel,
) -> JobModel {
    JobModel {
        action: request.action,
        schedule: request.expression,
        zone: zone_name(labels),
        service,
        schedule_name: request.schedule_name,
        url: if label_on(labels, NOTIFY_KEY@) {
            hooks.url
        } else {
            None
        },
        on_error_url: if label_on(labels, NOTIFY_ON_ERROR_KEY@) {
            hooks.on_error_url
        } else {
            None
        },
    }
}

/// The tasks that requests of a service make, or the first flaw, where
/// `reasons` tells of each request why its expression is no schedule, if it is
/// none.
pub open spec fn jobs_for(
    service: Seq<char>,
    labels: Seq<(Seq<char>, String)>,
    hooks: Webhooks,
    requests: Seq<RequestModel>,
    reasons: Seq<Option<Seq<char>>>,
) -> Result<Seq<JobModel>, Flaw>
    decreases requests.len(),
{
    if requests.len() == 0 {
        Ok(Seq::empty())
    } else {
        let request = requests.last();
        match (
            jobs_for(service, labels, hooks, requests.drop_last(), reasons),
            reasons[requests.len() - 1],
        ) {
            (Err(flaw), _) => Err(flaw),
            (Ok(_), Some(reason)) => Err(Flaw::Schedule(request.expression, reason)),
            (Ok(jobs), None) => Ok(jobs.push(job_of(service, labels, hooks, request))),
        }
    }
}

/// Why an expression is no schedule, if it is none.
pub open spec fn cron_flaw(expression: Seq<char>) -> Option<Seq<char>> {
    match cron_parse(expression) {
        Ok(_) => None,
        Err(reason) => Some(reason),
    }
}

/// The tasks that the labels of a service ask for, or their first flaw.
pub open spec fn label_jobs(
    service: Seq<char>,
    labels: Seq<(Seq<char>, String)>,
    hooks: Webhooks,
) -> Result<Seq<JobModel>, Flaw> {
    if zone_unknown(labels) {
        Err(Flaw::Timezone(zone_name(labels)))
    } else {
        let requests = requests_of(labels);
        jobs_for(
            service,
            labels,
            hooks,
            requests,
            requests.map_values(|r: RequestModel| cron_flaw(r.expression)),
        )
    }
}

/// The tasks that a service asks for, or the first flaw of its labels.
pub open spec fn service_jobs(
    name: Seq<char>,
    service: Option<Service>,
    hooks: Webhooks,
) -> Result<Seq<JobModel>, Flaw> {
    match service {
        Some(s) => match s.labels {
            Some(labels) => label_jobs(name, labels@, hooks),
            None => Ok(Seq::empty()),
        },
        None => Ok(Seq::empty()),
    }
}

/// Whether a label has the service run, and not kept running.
pub open spec fn asks_to_run(key: Seq<char>) -> bool {
    schedule_action(key) matches Some((action, _)) && action == ComposeAction::Run
}

/// Whether a service is run one-shot: one of its labels has it run.
pub open spec fn one_shot(service: Option<Service>) -> bool {
    service matches Some(s) && s.labels matches Some(labels) && exists|i: int|
        0 <= i < labels@.len() && asks_to_run((#[trigger] labels@[i]).0)
}

/// The plan for services: the tasks that each asks for, in order, and those
/// to watch; or the first flaw.
pub open spec fn planned(entries: Seq<(Seq<char>, Option<Service>)>, hooks: Webhooks) -> Result<
    Plan,
    Flaw,
>
    decreases entries.len(),
{
    if entries.len() == 0 {
        Ok(Plan { jobs: Seq::empty(), monitored: Seq::empty() })
    } else {
        let (name, service) = entries.last();
        match planned(entries.drop_last(), hooks) {
            Err(flaw) => Err(flaw),
            Ok(plan) => match service_jobs(name, service, hooks) {
                Err(flaw) => Err(flaw),
                Ok(jobs) => Ok(
                    Plan {
                        jobs: plan.jobs + jobs,
                        monitored: if one_shot(service) {
                            plan.monitored
                        } else {
                            plan.monitored.push(name)
                        },
                    },
                ),
            },
        }
    }
}

/// The webhooks that are given.
pub open spec fn hooks_of(url: Option<String>, on_error_url: Option<String>) -> Webhooks {
    Webhooks { url: text_opt(url), on_error_url: text_opt(on_error_url) }
}

/// Whether a label is there and switched on.
fn has_switched_on(labels: &TextMap<String>, key: &str) -> (r: bool)
    ensures
        r == label_on(labels@, key@),
{
    match labels.get(key) {
        Some(value) => is_switched_on(value.as_str()),
        None => false,
    }
}

/// What the labels of a service ask for.
pub fn schedule_requests(labels: &TextMap<String>) -> (r: Vec<Request>)
    ensures
        r@.map_values(|q: Request| q@) == requests_of(labels@),
{
    let ghost view = |q: Request| q@;
    let mut r: Vec<Request> = Vec::new();
    let n: usize = labels.len();
    let mut i: usize = 0;
    assert(r@.map_values(view) =~= Seq::empty());
    while i < n
        invariant
            n == labels@.len(),
            i <= n,
            view == (|q: Request| q@),
            r@.map_values(view) == requests_of(labels@.take(i as int)),
        decreases n - i,
    {
        let key: &String = labels.key(i);
        let value: &String = labels.value(i);
        let ghost was = r@;
        assert(labels@.take(i + 1).drop_last() =~= labels@.take(i as int));
        assert(labels@.take(i + 1).last() == (key@, *value));
        if let Some((action, schedule_name)) = get_schedule_action(key.as_str()) {
            if !same(value.as_str(), MANUAL) {
                let request = Request {
                    action,
                    schedule_name: match schedule_name {
                        Some(s) => Some(s.to_owned()),
                        None => None,
                    },
                    expression: value.clone(),
                };
                r.push(request);
                assert(r@.map_values(view) =~= was.map_values(view).push(request@));
            }
        }
        i = i + 1;
    }
    assert(labels@.take(n as int) =~= labels@);
    r
}

/// Whether one of the labels has the service run.
pub fn is_one_shot(labels: &TextMap<String>) -> (r: bool)
    ensures
        r == exists|i: int| 0 <= i < labels@.len() && asks_to_run((#[trigger] labels@[i]).0),
{
    let n: usize = labels.len();
    let mut i: usize = 0;
    while i < n
        invariant
            n == labels@.len(),
            i <= n,
            forall|j: int| 0 <= j < i ==> !asks_to_run((#[trigger] labels@[j]).0),
        decreases n - i,
    {
        if let Some((action, _)) = get_schedule_action(labels.key(i).as_str()) {
            if action == ComposeAction::Run {
                assert(asks_to_run(labels@[i as int].0));
                return true;
            }
        }
        i = i + 1;
    }
    false
}

/// Why each of the expressions is no schedule, if it is none.
pub open spec fn reasons_of(parsed: Seq<Result<Schedule, String>>) -> Seq<Option<Seq<char>>> {
    parsed.map_values(
        |p: Result<Schedule, String>|
            match p {
                Ok(_) => None::<Seq<char>>,
                Err(reason) => Some(reason@),
            },
    )
}

/// The tasks that requests of a service make, or the first flaw.  `parsed`
/// holds for each request the schedule of its expression, or why that is none;
/// `zone` is the time zone that the labels give.
#[verifier::loop_isolation(false)]
pub fn make_jobs(
    service: &str,
    labels: &TextMap<String>,
    slack_webhook_url: &Option<String>,
    slack_webhook_on_error_url: &Option<String>,
    zone: &Zone,
    requests: Vec<Request>,
    parsed: Vec<Result<Schedule, String>>,
) -> (r: Result<Vec<Job>, TaskError>)
    requires
        parsed@.len() == requests@.len(),
        zone@ == zone_name(labels@),
        forall|i: int|
            0 <= i < parsed@.len() ==> ((#[trigger] parsed@[i]) matches Ok(s) ==> s@
                == requests@[i].expression@),
    ensures
        match jobs_for(
            service@,
            labels@,
            hooks_of(*slack_webhook_url, *slack_webhook_on_error_url),
            requests@.map_values(|q: Request| q@),
            reasons_of(parsed@),
        ) {
            Ok(jobs) => r matches Ok(made) && jobs_of(made@) == jobs,
            Err(flaw) => r matches Err(e) && e@ == flaw,
        },
{
    let url: Option<String> = if has_switched_on(labels, NOTIFY_KEY) {
        slack_webhook_url.clone()
    } else {
        None
    };
    let on_error_url: Option<String> = if has_switched_on(labels, NOTIFY_ON_ERROR_KEY) {
        slack_webhook_on_error_url.clone()
    } else {
        None
    };
    let ghost hooks = hooks_of(*slack_webhook_url, *slack_webhook_on_error_url);
    let ghost asked = requests@.map_values(|q: Request| q@);
    let ghost all = requests@;
    let ghost results = parsed@;
    let ghost reasons = reasons_of(parsed@);
    let mut jobs: Vec<Job> = Vec::new();
    let mut parsed = parsed;
    assert(jobs_of(jobs@) =~= Seq::empty());
    assert(results.skip(0) =~= results);
    for request in it: requests
        invariant
            it.seq() == all,
            parsed@ == results.skip(it.index() as int),
            results.len() == all.len(),
            asked == all.map_values(|q: Request| q@),
            reasons == reasons_of(results),
            forall|i: int|
                0 <= i < results.len() ==> ((#[trigger] results[i]) matches Ok(s) ==> s@
                    == all[i].expression@),
            zone@ == zone_name(labels@),
            text_opt(url) == (if label_on(labels@, NOTIFY_KEY@) {
                hooks.url
            } else {
                None
            }),
            text_opt(on_error_url) == (if label_on(labels@, NOTIFY_ON_ERROR_KEY@) {
                hooks.on_error_url
            } else {
                None
            }),
            hooks == hooks_of(*slack_webhook_url, *slack_webhook_on_error_url),
            jobs_for(service@, labels@, hooks, asked.take(it.index() as int), reasons) == Ok::<
                Seq<JobModel>,
                Flaw,
            >(jobs_of(jobs@)),
    {
        let ghost i = it.index() as int;
        let ghost was = jobs@;
        let result = parsed.remove(0);
        proof {
            assert(result == results[i]);
            assert(parsed@ =~= results.skip(i + 1));
            assert(asked.take(i + 1).drop_last() =~= asked.take(i));
            assert(asked.take(i + 1).last() == request@);
        }
        match result {
            Ok(schedule) => {
                let job = Job {
                    action: request.action,
                    schedule,
                    zone: zone.copy(),
                    service: service.to_owned(),
                    schedule_name: request.schedule_name,
                    slack_webhook_url: url.clone(),
                    slack_webhook_on_error_url: on_error_url.clone(),
                };
                jobs.push(job);
                assert(jobs_of(jobs@) =~= jobs_of(was).push(job@));
            },
            Err(reason) => {
                proof {
                    lemma_first_flaw(service@, labels@, hooks, asked, reasons, i + 1);
                }
                return Err(
                    TaskError::Schedule(ScheduleError { expression: request.expression, reason }),
                );
            },
        }
    }
    assert(asked.take(asked.len() as int) =~= asked);
    Ok(jobs)
}

/// A flaw of the first requests is the flaw of all of them.
proof fn lemma_first_flaw(
    service: Seq<char>,
    labels: Seq<(Seq<char>, String)>,
    hooks: Webhooks,
    requests: Seq<RequestModel>,
    reasons: Seq<Option<Seq<char>>>,
    i: int,
)
    requires
        0 <= i <= requests.len(),
        jobs_for(service, labels, hooks, requests.take(i), reasons) is Err,
    ensures
        jobs_for(service, labels, hooks, requests, reasons) == jobs_for(
            service,
            labels,
            hooks,
            requests.take(i),
            reasons,
        ),
    decreases requests.len(),
{
    if i < requests.len() {
        assert(requests.drop_last().take(i) =~= requests.take(i));
        lemma_first_flaw(service, labels, hooks, requests.drop_last(), reasons, i);
    } else {
        assert(requests.take(i) =~= requests);
    }
}

/// The tasks that the labels of a service ask for.
fn plan_labels(
    name: &str,
    labels: &TextMap<String>,
    slack_webhook_url: &Option<String>,
    slack_webhook_on_error_url: &Option<String>,
) -> (r: Result<Vec<Job>, TaskError>)
    ensures
        match label_jobs(
            name@,
            labels@,
            hooks_of(*slack_webhook_url, *slack_webhook_on_error_url),
        ) {
            Ok(jobs) => r matches Ok(made) && jobs_of(made@) == jobs,
            Err(flaw) => r matches Err(e) && e@ == flaw,
        },
{
    let zone: Zone = match labels.get(ZONE_KEY) {
        Some(zone_name) => match Zone::parse(zone_name.as_str()) {
            Some(zone) => zone,
            None => {
                return Err(TaskError::Timezone(zone_name.clone()));
            },
        },
        None => Zone::utc(),
    };
    let requests = schedule_requests(labels);
    let ghost asked = requests@.map_values(|q: Request| q@);
    let mut parsed: Vec<Result<Schedule, String>> = Vec::new();
    let mut i: usize = 0;
    while i < requests.len()
        invariant
            i <= requests@.len(),
            asked == requests@.map_values(|q: Request| q@),
            parsed@.len() == i,
            forall|j: int|
                0 <= j < i ==> ((#[trigger] parsed@[j]) matches Ok(s) ==> s@
                    == requests@[j].expression@),
            forall|j: int|
                0 <= j < i ==> (#[trigger] reasons_of(parsed@)[j]) == cron_flaw(
                    asked[j].expression,
                ),
        decreases requests.len() - i,
    {
        let ghost was = parsed@;
        let result = Schedule::parse(requests[i].expression.as_str());
        parsed.push(result);
        assert forall|j: int| 0 <= j < i + 1 implies (#[trigger] reasons_of(parsed@)[j])
            == cron_flaw(asked[j].expression) by {
            if j < i {
                assert(reasons_of(was)[j] == cron_flaw(asked[j].expression));
            }
        }
        i = i + 1;
    }
    assert(reasons_of(parsed@) =~= asked.map_values(|r: RequestModel| cron_flaw(r.expression)));
    make_jobs(
        name,
        labels,
        slack_webhook_url,
        slack_webhook_on_error_url,
        &zone,
        requests,
        parsed,
    )
}

/// A flaw of the first services is the flaw of all of them.
proof fn lemma_first_flawed_service(
    entries: Seq<(Seq<char>, Option<Service>)>,
    hooks: Webhooks,
    i: int,
)
    requires
        0 <= i <= entries.len(),
        planned(entries.take(i), hooks) is Err,
    ensures
        planned(entries, hooks) == planned(entries.take(i), hooks),
    decreases entries.len(),
{
    if i < entries.len() {
        assert(entries.drop_last().take(i) =~= entries.take(i));
        lemma_first_flawed_service(entries.drop_last(), hooks, i);
    } else {
        assert(entries.take(i) =~= entries);
    }
}

/// Reads from the labels of the services which tasks there are to run and
/// which containers to watch.  The first flaw in the labels stops the plan.
pub fn plan_tasks(
    compose: &Compose,
    slack_webhook_url: &Option<String>,
    slack_webhook_on_error_url: &Option<String>,
) -> (r: Result<TaskPlan, TaskError>)
    ensures
        match planned(
            compose.services@,
            hooks_of(*slack_webhook_url, *slack_webhook_on_error_url),
        ) {
            Ok(plan) => r matches Ok(p) && p@ == plan,
            Err(flaw) => r matches Err(e) && e@ == flaw,
        },
{
    let mut jobs: Vec<Job> = Vec::new();
    let mut monitored: Vec<String> = Vec::new();
    let ghost hooks = hooks_of(*slack_webhook_url, *slack_webhook_on_error_url);
    let ghost entries = compose.services@;
    let n: usize = compose.services.len();
    let mut i: usize = 0;
    assert(jobs_of(jobs@) =~= Seq::empty());
    assert(texts(monitored@) =~= Seq::empty());
    while i < n
        invariant
            n == entries.len(),
            entries == compose.services@,
            i <= n,
            hooks == hooks_of(*slack_webhook_url, *slack_webhook_on_error_url),
            planned(entries.take(i as int), hooks) == Ok::<Plan, Flaw>(
                Plan { jobs: jobs_of(jobs@), monitored: texts(monitored@) },
            ),
        decreases n - i,
    {
        let name: &String = compose.services.key(i);
        let ghost watched = monitored@;
        proof {
            assert(entries.take(i + 1).drop_last() =~= entries.take(i as int));
            assert(entries.take(i + 1).last() == entries[i as int]);
            assert(jobs_of(jobs@) + Seq::<JobModel>::empty() =~= jobs_of(jobs@));
        }
        let mut should_monitor = true;
        if let Some(service) = compose.services.value(i) {
            if let Some(labels) = &service.labels {
                match plan_labels(
                    name.as_str(),
                    labels,
                    slack_webhook_url,
                    slack_webhook_on_error_url,
                ) {
                    Ok(made) => {
                        // don't monitor services that are run one-shot
                        should_monitor = !is_one_shot(labels);
                        let mut made = made;
                        let ghost before = jobs@;
                        let ghost added = made@;
                        jobs.append(&mut made);
                        assert(jobs_of(jobs@) =~= jobs_of(before) + jobs_of(added));
                    },
                    Err(e) => {
                        proof {
                            lemma_first_flawed_service(entries, hooks, i + 1);
                        }
                        return Err(e);
                    },
                }
            }
        }
        if should_monitor {
            monitored.push(name.clone());
            assert(texts(monitored@) =~= texts(watched).push(name@));
        }
        i = i + 1;
    }
    assert(entries.take(n as int) =~= entries);
    Ok(TaskPlan { jobs, monitored })
}

/// Schedules that are all set to `manual` ask for no task.
pub proof fn law_manual_schedules_nothing(labels: Seq<(Seq<char>, String)>)
    requires
        forall|i: int|
            0 <= i < labels.len() && schedule_action((#[trigger] labels[i]).0) is Some
                ==> labels[i].1@ == MANUAL@,
    ensures
        requests_of(labels) == Seq::<RequestModel>::empty(),
    decreases labels.len(),
{
    if labels.len() > 0 {
        let rest = labels.drop_last();
        assert forall|i: int|
            0 <= i < rest.len() && schedule_action((#[trigger] rest[i]).0) is Some implies rest[i].1@
            == MANUAL@ by {
            assert(rest[i] == labels[i]);
        }
        law_manual_schedules_nothing(rest);
        let last = labels[labels.len() - 1];
        assert(schedule_action(last.0) is Some ==> last.1@ == MANUAL@);
    }
}

/// In a plan a service is watched exactly if it is not run one-shot.
pub proof fn law_one_shot_services_are_not_watched(
    entries: Seq<(Seq<char>, Option<Service>)>,
    hooks: Webhooks,
    i: int,
)
    requires
        ordered(entries),
        planned(entries, hooks) is Ok,
        0 <= i < entries.len(),
    ensures
        planned(entries, hooks)->Ok_0.monitored.contains(entries[i].0) <==> !one_shot(entries[i].1),
    decreases entries.len(),
{
    let rest = entries.drop_last();
    let last = entries.last();
    let now = planned(entries, hooks)->Ok_0.monitored;
    let before = planned(rest, hooks)->Ok_0.monitored;
    assert(ordered(rest)) by {
        assert forall|a: int, b: int| 0 <= a < b < rest.len() implies crate::text::text_lt(
            #[trigger] rest[a].0,
            #[trigger] rest[b].0,
        ) by {
            assert(crate::text::text_lt(entries[a].0, entries[b].0));
        }
    }
    if i < rest.len() {
        law_one_shot_services_are_not_watched(rest, hooks, i);
        assert(rest[i] == entries[i]);
        assert(crate::text::text_lt(entries[i].0, entries[entries.len() - 1].0));
        crate::text::lemma_text_lt_asymmetric(entries[i].0, last.0);
        if before.contains(entries[i].0) {
            let k = choose|k: int| 0 <= k < before.len() && before[k] == entries[i].0;
            assert(now[k] == entries[i].0);
        }
        if now.contains(entries[i].0) {
            let k = choose|k: int| 0 <= k < now.len() && now[k] == entries[i].0;
            assert(before[k] == entries[i].0);
        }
    } else {
        lemma_watched_are_listed(rest, hooks);
        if one_shot(last.1) && now.contains(last.0) {
            let k = choose|k: int| 0 <= k < now.len() && now[k] == last.0;
            let j = choose|j: int| 0 <= j < rest.len() && (#[trigger] rest[j]).0 == before[k];
            assert(crate::text::text_lt(entries[j].0, entries[entries.len() - 1].0));
            crate::text::lemma_text_lt_irreflexive(last.0);
        }
        if !one_shot(last.1) {
            assert(now[now.len() - 1] == last.0);
        }
    }
}

/// A watched service is one of the services.
proof fn lemma_watched_are_listed(entries: Seq<(Seq<char>, Option<Service>)>, hooks: Webhooks)
    requires
        planned(entries, hooks) is Ok,
    ensures
        forall|k: int|
            0 <= k < planned(entries, hooks)->Ok_0.monitored.len() ==> exists|j: int|
                0 <= j < entries.len() && (#[trigger] entries[j]).0 == (#[trigger] planned(
                    entries,
                    hooks,
                )->Ok_0.monitored[k]),
    decreases entries.len(),
{
    if entries.len() > 0 {
        let rest = entries.drop_last();
        lemma_watched_are_listed(rest, hooks);
        let now = planned(entries, hooks)->Ok_0.monitored;
        let before = planned(rest, hooks)->Ok_0.monitored;
        assert forall|k: int| 0 <= k < now.len() implies exists|j: int|
            0 <= j < entries.len() && (#[trigger] entries[j]).0 == (#[trigger] now[k]) by {
            if k < before.len() {
                let j = choose|j: int| 0 <= j < rest.len() && (#[trigger] rest[j]).0 == before[k];
                assert(entries[j].0 == now[k]);
            } else {
                assert(entries[entries.len() - 1].0 == now[k]);
            }
        }
    }
}

/// A service without a label that has it run, be it on a schedule or by hand, is
/// watched; one with such a label is not, whatever the label is set to.
pub proof fn law_services_that_run_by_label_are_not_watched(
    entries: Seq<(Seq<char>, Option<Service>)>,
    hooks: Webhooks,
    i: int,
)
    requires
        ordered(entries),
        planned(entries, hooks) is Ok,
        0 <= i < entries.len(),
    ensures
        entries[i].1 matches Some(s) ==> (s.labels matches Some(labels) ==> (planned(
            entries,
            hooks,
        )->Ok_0.monitored.contains(entries[i].0) <==> (forall|k: int|
            0 <= k < labels@.len() ==> (#[trigger] labels@[k]).0 != "co.architect.composer.run"@
                && !"co.architect.composer.run."@.is_prefix_of(labels@[k].0)))),
        (entries[i].1 matches Some(s) ==> s.labels is None) ==> planned(
            entries,
            hooks,
        )->Ok_0.monitored.contains(entries[i].0),
{
    law_one_shot_services_are_not_watched(entries, hooks, i);
    if let Some(s) = entries[i].1 {
        if let Some(labels) = s.labels {
            assert forall|k: int| 0 <= k < labels@.len() implies asks_to_run(
                (#[trigger] labels@[k]).0,
            ) == (labels@[k].0 == "co.architect.composer.run"@
                || "co.architect.composer.run."@.is_prefix_of(labels@[k].0)) by {}
            if one_shot(entries[i].1) {
                let k = choose|k: int|
                    0 <= k < labels@.len() && asks_to_run((#[trigger] labels@[k]).0);
                assert(labels@[k].0 == "co.architect.composer.run"@
                    || "co.architect.composer.run."@.is_prefix_of(labels@[k].0));
            } else {
                assert forall|k: int| 0 <= k < labels@.len() implies !asks_to_run(
                    (#[trigger] labels@[k]).0,
                ) by {}
            }
        }
    }
}

/// What labels ask for adds up: no label changes what another asks for.
pub proof fn law_requests_add_up(a: Seq<(Seq<char>, String)>, b: Seq<(Seq<char>, String)>)
    ensures
        requests_of(a + b) == requests_of(a) + requests_of(b),
    decreases b.len(),
{
    if b.len() == 0 {
        assert(a + b =~= a);
        assert(requests_of(a) + requests_of(b) =~= requests_of(a));
    } else {
        law_requests_add_up(a, b.drop_last());
        assert((a + b).drop_last() =~= a + b.drop_last());
        assert(requests_of(a + b) =~= requests_of(a) + requests_of(b));
    }
}

/// Each label that asks for a schedule, and is not set to `manual`, makes a
/// request with its own expression, and no request comes from anywhere else.
pub proof fn law_each_schedule_label_is_a_request(labels: Seq<(Seq<char>, String)>)
    ensures
        forall|i: int|
            #![trigger labels[i]]
            0 <= i < labels.len() && labels[i].1@ != "manual"@ ==> match schedule_action(
                labels[i].0,
            ) {
                Some((action, schedule_name)) => requests_of(labels).contains(
                    (RequestModel { action, schedule_name, expression: labels[i].1@ }),
                ),
                None => true,
            },
        forall|k: int|
            0 <= k < requests_of(labels).len() ==> exists|i: int|
                0 <= i < labels.len() && labels[i].1@ == (#[trigger] requests_of(
                    labels,
                )[k]).expression && labels[i].1@ != "manual"@ && schedule_action(
                    (#[trigger] labels[i]).0,
                ) == Some((requests_of(labels)[k].action, requests_of(labels)[k].schedule_name)),
        requests_of(labels).len() <= labels.len(),
    decreases labels.len(),
{
    if labels.len() > 0 {
        let less = labels.drop_last();
        let before = requests_of(less);
        let all = requests_of(labels);
        law_each_schedule_label_is_a_request(less);
        assert forall|i: int|
            #![trigger labels[i]]
            0 <= i < labels.len() && labels[i].1@ != "manual"@ implies match schedule_action(
            labels[i].0,
        ) {
            Some((action, schedule_name)) => all.contains(
                (RequestModel { action, schedule_name, expression: labels[i].1@ }),
            ),
            None => true,
        } by {
            if let Some((action, schedule_name)) = schedule_action(labels[i].0) {
                let request = RequestModel { action, schedule_name, expression: labels[i].1@ };
                if i < less.len() {
                    assert(less[i] == labels[i]);
                    let k = choose|k: int| 0 <= k < before.len() && before[k] == request;
                    assert(all[k] == request);
                } else {
                    assert(all[all.len() - 1] == request);
                }
            }
        }
        assert forall|k: int| 0 <= k < all.len() implies exists|i: int|
            0 <= i < labels.len() && labels[i].1@ == (#[trigger] all[k]).expression && labels[i].1@
                != "manual"@ && schedule_action((#[trigger] labels[i]).0) == Some(
                (all[k].action, all[k].schedule_name),
            ) by {
            if k < before.len() {
                assert(all[k] == before[k]);
                let i = choose|i: int|
                    0 <= i < less.len() && less[i].1@ == before[k].expression && less[i].1@
                        != "manual"@ && schedule_action((#[trigger] less[i]).0) == Some(
                        (before[k].action, before[k].schedule_name),
                    );
                assert(less[i] == labels[i]);
            } else {
                assert(labels[labels.len() - 1] == labels.last());
            }
        }
    }
}

/// What the value under a key is, from the entries themselves.
proof fn lemma_lookup(labels: Seq<(Seq<char>, String)>, key: Seq<char>)
    requires
        ordered(labels),
    ensures
        forall|k: int|
            0 <= k < labels.len() && (#[trigger] labels[k]).0 == key ==> lookup(labels, key)
                == Some(labels[k].1),
        (forall|k: int| 0 <= k < labels.len() ==> (#[trigger] labels[k]).0 != key) ==> lookup(
            labels,
            key,
        ) is None,
{
    assert forall|k: int| 0 <= k < labels.len() && (#[trigger] labels[k]).0 == key implies lookup(
        labels,
        key,
    ) == Some(labels[k].1) by {
        crate::text_map::lemma_key_at(labels, k);
    }
}

/// Whatever the action of a task is, it fires in the time zone that the
/// service's own label names, and in UTC only where there is no such label.  It
/// is told to a webhook exactly where the label for that is `true` or `1`.
pub proof fn law_tasks_keep_to_the_labels(
    service: Seq<char>,
    labels: Seq<(Seq<char>, String)>,
    hooks: Webhooks,
    request: RequestModel,
)
    requires
        ordered(labels),
    ensures
        ({
            let job = job_of(service, labels, hooks, request);
            &&& job.service == service
            &&& job.action == request.action
            &&& job.schedule == request.expression
            &&& job.schedule_name == request.schedule_name
            &&& forall|k: int|
                0 <= k < labels.len() && (#[trigger] labels[k]).0 == "co.architect.composer.tz"@
                    ==> job.zone == labels[k].1@
            &&& (forall|k: int|
                0 <= k < labels.len() ==> (#[trigger] labels[k]).0 != "co.architect.composer.tz"@)
                ==> job.zone == "UTC"@
            &&& forall|k: int|
                0 <= k < labels.len() && (#[trigger] labels[k]).0
                    == "co.architect.composer.notify.slack"@ ==> job.url == (if labels[k].1@
                    == "true"@ || labels[k].1@ == "1"@ {
                    hooks.url
                } else {
                    None
                })
            &&& (forall|k: int|
                0 <= k < labels.len() ==> (#[trigger] labels[k]).0
                    != "co.architect.composer.notify.slack"@) ==> job.url is None
            &&& forall|k: int|
                0 <= k < labels.len() && (#[trigger] labels[k]).0
                    == "co.architect.composer.notify.slack.on-error"@ ==> job.on_error_url == (
                if labels[k].1@ == "true"@ || labels[k].1@ == "1"@ {
                    hooks.on_error_url
                } else {
                    None
                })
            &&& (forall|k: int|
                0 <= k < labels.len() ==> (#[trigger] labels[k]).0
                    != "co.architect.composer.notify.slack.on-error"@) ==> job.on_error_url is None
        }),
{
    lemma_lookup(labels, ZONE_KEY@);
    lemma_lookup(labels, NOTIFY_KEY@);
    lemma_lookup(labels, NOTIFY_ON_ERROR_KEY@);
}

/// Requests make one task each, in order, in the time zone that the service's
/// label names (UTC where there is none), unless one of their expressions is no
/// schedule; then the first that is none is the flaw.
pub proof fn law_requests_make_tasks(
    service: Seq<char>,
    labels: Seq<(Seq<char>, String)>,
    hooks: Webhooks,
    requests: Seq<RequestModel>,
    reasons: Seq<Option<Seq<char>>>,
)
    requires
        ordered(labels),
        reasons.len() >= requests.len(),
    ensures
        jobs_for(service, labels, hooks, requests, reasons) is Ok <==> forall|i: int|
            0 <= i < requests.len() ==> (#[trigger] reasons[i]) is None,
        jobs_for(service, labels, hooks, requests, reasons) matches Ok(jobs) ==> {
            &&& jobs.len() == requests.len()
            &&& forall|i: int|
                0 <= i < jobs.len() ==> {
                    &&& (#[trigger] jobs[i]).service == service
                    &&& jobs[i].action == requests[i].action
                    &&& jobs[i].schedule == requests[i].expression
                    &&& jobs[i].schedule_name == requests[i].schedule_name
                }
            &&& forall|i: int, k: int|
                #![trigger jobs[i], labels[k]]
                0 <= i < jobs.len() && 0 <= k < labels.len() && labels[k].0
                    == "co.architect.composer.tz"@ ==> jobs[i].zone == labels[k].1@
            &&& (forall|k: int|
                0 <= k < labels.len() ==> (#[trigger] labels[k]).0 != "co.architect.composer.tz"@)
                ==> forall|i: int| 0 <= i < jobs.len() ==> (#[trigger] jobs[i]).zone == "UTC"@
            &&& forall|i: int|
                0 <= i < jobs.len() ==> (#[trigger] jobs[i]) == job_of(
                    service,
                    labels,
                    hooks,
                    requests[i],
                )
        },
        jobs_for(service, labels, hooks, requests, reasons) matches Err(flaw) ==> exists|i: int|
            0 <= i < requests.len() && (#[trigger] reasons[i]) is Some && flaw == Flaw::Schedule(
                requests[i].expression,
                reasons[i]->Some_0,
            ) && forall|j: int| 0 <= j < i ==> (#[trigger] reasons[j]) is None,
    decreases requests.len(),
{
    if requests.len() > 0 {
        let less = requests.drop_last();
        law_requests_make_tasks(service, labels, hooks, less, reasons);
        law_tasks_keep_to_the_labels(service, labels, hooks, requests.last());
        let n = requests.len() - 1;
        let made = jobs_for(service, labels, hooks, requests, reasons);
        let before = jobs_for(service, labels, hooks, less, reasons);
        if before is Ok {
            assert(forall|i: int| 0 <= i < less.len() ==> (#[trigger] reasons[i]) is None);
            if reasons[n] is None {
                let jobs = made->Ok_0;
                assert forall|i: int| 0 <= i < jobs.len() implies (#[trigger] jobs[i]) == job_of(
                    service,
                    labels,
                    hooks,
                    requests[i],
                ) by {
                    if i < n {
                        assert(jobs[i] == before->Ok_0[i]);
                        assert(requests[i] == less[i]);
                    }
                }
                assert forall|i: int| 0 <= i < jobs.len() implies (#[trigger] jobs[i]).zone == job_of(
                    service,
                    labels,
                    hooks,
                    requests[i],
                ).zone by {}
            }
        } else {
            let i = choose|i: int|
                0 <= i < less.len() && (#[trigger] reasons[i]) is Some && before->Err_0
                    == Flaw::Schedule(less[i].expression, reasons[i]->Some_0) && forall|j: int|
                    0 <= j < i ==> (#[trigger] reasons[j]) is None;
            assert(requests[i] == less[i]);
        }
    }
}

/// The plan for a row of services is that for its first ones and that for the
/// others, one behind the other: no service changes what another gets.
pub proof fn law_plans_add_up(
    a: Seq<(Seq<char>, Option<Service>)>,
    b: Seq<(Seq<char>, Option<Service>)>,
    hooks: Webhooks,
)
    ensures
        planned(a + b, hooks) is Ok <==> planned(a, hooks) is Ok && planned(b, hooks) is Ok,
        planned(a + b, hooks) matches Ok(plan) ==> plan.jobs == planned(a, hooks)->Ok_0.jobs
            + planned(b, hooks)->Ok_0.jobs && plan.monitored == planned(a, hooks)->Ok_0.monitored
            + planned(b, hooks)->Ok_0.monitored,
        planned(a, hooks) is Err ==> planned(a + b, hooks) == planned(a, hooks),
        planned(a, hooks) is Ok && planned(b, hooks) is Err ==> planned(a + b, hooks) == planned(
            b,
            hooks,
        ),
    decreases b.len(),
{
    if b.len() == 0 {
        assert(a + b =~= a);
        if let Ok(plan) = planned(a, hooks) {
            assert(plan.jobs + Seq::<JobModel>::empty() =~= plan.jobs);
            assert(plan.monitored + Seq::<Seq<char>>::empty() =~= plan.monitored);
        }
    } else {
        law_plans_add_up(a, b.drop_last(), hooks);
        assert((a + b).drop_last() =~= a + b.drop_last());
        assert((a + b).last() == b.last());
        if planned(a + b, hooks) is Ok {
            let x = planned(a, hooks)->Ok_0;
            let y = planned(b.drop_last(), hooks)->Ok_0;
            let z = planned(b, hooks)->Ok_0;
            let jobs = service_jobs(b.last().0, b.last().1, hooks)->Ok_0;
            assert(x.jobs + y.jobs + jobs =~= x.jobs + (y.jobs + jobs));
            assert(planned(a + b, hooks)->Ok_0.monitored =~= x.monitored + z.monitored);
        }
    }
}

/// The tasks of each service stand together in the plan.
proof fn lemma_service_in_plan(
    entries: Seq<(Seq<char>, Option<Service>)>,
    hooks: Webhooks,
    i: int,
)
    requires
        planned(entries, hooks) is Ok,
        0 <= i < entries.len(),
    ensures
        service_jobs(entries[i].0, entries[i].1, hooks) is Ok,
        forall|job: JobModel|
            service_jobs(entries[i].0, entries[i].1, hooks)->Ok_0.contains(job) ==> planned(
                entries,
                hooks,
            )->Ok_0.jobs.contains(job),
{
    let a = entries.take(i);
    let b = seq![entries[i]];
    let c = entries.skip(i + 1);
    assert(entries =~= (a + b) + c);
    law_plans_add_up(a + b, c, hooks);
    law_plans_add_up(a, b, hooks);
    assert(b.drop_last() =~= Seq::empty());
    assert(planned(b.drop_last(), hooks) is Ok);
    let jobs = service_jobs(entries[i].0, entries[i].1, hooks)->Ok_0;
    let first = planned(a, hooks)->Ok_0.jobs;
    let all = planned(entries, hooks)->Ok_0.jobs;
    assert(planned(b, hooks)->Ok_0.jobs =~= jobs);
    assert forall|job: JobModel| jobs.contains(job) implies all.contains(job) by {
        let k = choose|k: int| 0 <= k < jobs.len() && jobs[k] == job;
        assert(all[first.len() + k] == job);
    }
}

/// A task of the plan is one of some service.
proof fn lemma_task_of_service(
    entries: Seq<(Seq<char>, Option<Service>)>,
    hooks: Webhooks,
    j: int,
) -> (i: int)
    requires
        planned(entries, hooks) is Ok,
        0 <= j < planned(entries, hooks)->Ok_0.jobs.len(),
    ensures
        0 <= i < entries.len(),
        service_jobs(entries[i].0, entries[i].1, hooks) matches Ok(jobs) && jobs.contains(
            planned(entries, hooks)->Ok_0.jobs[j],
        ),
    decreases entries.len(),
{
    let less = entries.drop_last();
    let before = planned(less, hooks)->Ok_0.jobs;
    if j < before.len() {
        lemma_task_of_service(less, hooks, j)
    } else {
        let last = entries[entries.len() - 1];
        let jobs = service_jobs(last.0, last.1, hooks)->Ok_0;
        assert(jobs[j - before.len()] == planned(entries, hooks)->Ok_0.jobs[j]);
        entries.len() - 1
    }
}

/// Each schedule that a service's labels give, and that is not `manual`, has a
/// task in the plan: with the action, the name and the expression of the label,
/// in the time zone that the service's label names or else in UTC.
pub proof fn law_each_schedule_is_planned(
    entries: Seq<(Seq<char>, Option<Service>)>,
    hooks: Webhooks,
    i: int,
    labels: TextMap<String>,
    k: int,
)
    requires
        planned(entries, hooks) is Ok,
        0 <= i < entries.len(),
        entries[i].1 matches Some(s) && s.labels == Some(labels),
        ordered(labels@),
        0 <= k < labels@.len(),
        schedule_action(labels@[k].0) is Some,
        labels@[k].1@ != "manual"@,
    ensures
        exists|j: int|
            #![trigger planned(entries, hooks)->Ok_0.jobs[j]]
            {
                let job = planned(entries, hooks)->Ok_0.jobs[j];
                &&& 0 <= j < planned(entries, hooks)->Ok_0.jobs.len()
                &&& job.service == entries[i].0
                &&& job.schedule == labels@[k].1@
                &&& schedule_action(labels@[k].0) == Some((job.action, job.schedule_name))
                &&& forall|m: int|
                    0 <= m < labels@.len() && (#[trigger] labels@[m]).0
                        == "co.architect.composer.tz"@ ==> job.zone == labels@[m].1@
                &&& (forall|m: int|
                    0 <= m < labels@.len() ==> (#[trigger] labels@[m]).0
                        != "co.architect.composer.tz"@) ==> job.zone == "UTC"@
            },
{
    let name = entries[i].0;
    let jobs = service_jobs(name, entries[i].1, hooks)->Ok_0;
    lemma_service_in_plan(entries, hooks, i);
    law_each_schedule_label_is_a_request(labels@);
    let requests = requests_of(labels@);
    let (action, schedule_name) = schedule_action(labels@[k].0)->Some_0;
    let request = RequestModel { action, schedule_name, expression: labels@[k].1@ };
    assert(requests.contains(request));
    let q = choose|q: int| 0 <= q < requests.len() && requests[q] == request;
    let reasons = requests.map_values(|r: RequestModel| cron_flaw(r.expression));
    law_requests_make_tasks(name, labels@, hooks, requests, reasons);
    law_tasks_keep_to_the_labels(name, labels@, hooks, request);
    assert(jobs_for(name, labels@, hooks, requests, reasons) == Ok::<Seq<JobModel>, Flaw>(jobs));
    let job = jobs[q];
    assert(job == job_of(name, labels@, hooks, request));
    assert(jobs.contains(job));
    let all = planned(entries, hooks)->Ok_0.jobs;
    assert(all.contains(job));
    let j = choose|j: int| 0 <= j < all.len() && all[j] == job;
    assert(all[j].schedule == labels@[k].1@);
}

/// The plan holds no other tasks: each acts on a service because of one of its
/// labels, whose expression is its schedule.
pub proof fn law_each_task_has_a_label(
    entries: Seq<(Seq<char>, Option<Service>)>,
    hooks: Webhooks,
    j: int,
) -> (found: (int, int))
    requires
        planned(entries, hooks) is Ok,
        0 <= j < planned(entries, hooks)->Ok_0.jobs.len(),
        forall|i: int|
            0 <= i < entries.len() ==> ((#[trigger] entries[i]).1 matches Some(s) ==> (s.labels
                matches Some(labels) ==> ordered(labels@))),
    ensures
        0 <= found.0 < entries.len(),
        entries[found.0].1 matches Some(s) && s.labels matches Some(labels) && {
            let job = planned(entries, hooks)->Ok_0.jobs[j];
            &&& job.service == entries[found.0].0
            &&& 0 <= found.1 < labels@.len()
            &&& schedule_action(labels@[found.1].0) == Some((job.action, job.schedule_name))
            &&& job.schedule == labels@[found.1].1@
            &&& job.schedule != "manual"@
            &&& cron_parse(job.schedule) is Ok
        },
{
    let i = lemma_task_of_service(entries, hooks, j);
    let job = planned(entries, hooks)->Ok_0.jobs[j];
    let labels = entries[i].1->Some_0.labels->Some_0@;
    assert(entries[i].1 is Some);
    let requests = requests_of(labels);
    let reasons = requests.map_values(|r: RequestModel| cron_flaw(r.expression));
    law_requests_make_tasks(entries[i].0, labels, hooks, requests, reasons);
    law_each_schedule_label_is_a_request(labels);
    let jobs = service_jobs(entries[i].0, entries[i].1, hooks)->Ok_0;
    let q = choose|q: int| 0 <= q < jobs.len() && jobs[q] == job;
    assert(requests[q].expression == job.schedule);
    assert(reasons[q] is None);
    let k = choose|k: int|
        0 <= k < labels.len() && labels[k].1@ == requests[q].expression && labels[k].1@
            != "manual"@ && schedule_action((#[trigger] labels[k]).0) == Some(
            (requests[q].action, requests[q].schedule_name),
        );
    (i, k)
}

/// Each task of a service, whatever its action, fires in the time zone that the
/// service's label names, and in UTC only where it has no such label.
pub proof fn law_tasks_fire_in_the_zone_of_their_service(
    entries: Seq<(Seq<char>, Option<Service>)>,
    hooks: Webhooks,
    i: int,
    labels: TextMap<String>,
    j: int,
)
    requires
        ordered(entries),
        planned(entries, hooks) is Ok,
        forall|n: int|
            0 <= n < entries.len() ==> ((#[trigger] entries[n]).1 matches Some(s) ==> (s.labels
                matches Some(l) ==> ordered(l@))),
        0 <= i < entries.len(),
        entries[i].1 matches Some(s) && s.labels == Some(labels),
        0 <= j < planned(entries, hooks)->Ok_0.jobs.len(),
        planned(entries, hooks)->Ok_0.jobs[j].service == entries[i].0,
    ensures
        forall|m: int|
            0 <= m < labels@.len() && (#[trigger] labels@[m]).0 == "co.architect.composer.tz"@
                ==> planned(entries, hooks)->Ok_0.jobs[j].zone == labels@[m].1@,
        (forall|m: int|
            0 <= m < labels@.len() ==> (#[trigger] labels@[m]).0 != "co.architect.composer.tz"@)
            ==> planned(entries, hooks)->Ok_0.jobs[j].zone == "UTC"@,
{
    let n = lemma_task_of_service(entries, hooks, j);
    let job = planned(entries, hooks)->Ok_0.jobs[j];
    let found = entries[n].1->Some_0.labels->Some_0@;
    assert(entries[n].1 is Some);
    let requests = requests_of(found);
    let reasons = requests.map_values(|r: RequestModel| cron_flaw(r.expression));
    law_requests_make_tasks(entries[n].0, found, hooks, requests, reasons);
    let jobs = service_jobs(entries[n].0, entries[n].1, hooks)->Ok_0;
    let q = choose|q: int| 0 <= q < jobs.len() && jobs[q] == job;
    assert(jobs[q].service == entries[n].0);
    crate::text_map::lemma_key_at(entries, n);
    crate::text_map::lemma_key_at(entries, i);
    assert(n == i);
    law_tasks_keep_to_the_labels(entries[i].0, labels@, hooks, requests[q]);
}

/// Each task of a service is told to the webhooks that the service's labels switch
/// on, and to no other.
pub proof fn law_tasks_are_told_as_their_labels_say(
    entries: Seq<(Seq<char>, Option<Service>)>,
    hooks: Webhooks,
    i: int,
    labels: TextMap<String>,
    j: int,
)
    requires
        ordered(entries),
        planned(entries, hooks) is Ok,
        forall|n: int|
            0 <= n < entries.len() ==> ((#[trigger] entries[n]).1 matches Some(s) ==> (s.labels
                matches Some(l) ==> ordered(l@))),
        0 <= i < entries.len(),
        entries[i].1 matches Some(s) && s.labels == Some(labels),
        0 <= j < planned(entries, hooks)->Ok_0.jobs.len(),
        planned(entries, hooks)->Ok_0.jobs[j].service == entries[i].0,
    ensures
        ({
            let job = planned(entries, hooks)->Ok_0.jobs[j];
            let notify = exists|m: int|
                0 <= m < labels@.len() && (#[trigger] labels@[m]).0
                    == "co.architect.composer.notify.slack"@ && (labels@[m].1@ == "true"@
                    || labels@[m].1@ == "1"@);
            let on_error = exists|m: int|
                0 <= m < labels@.len() && (#[trigger] labels@[m]).0
                    == "co.architect.composer.notify.slack.on-error"@ && (labels@[m].1@ == "true"@
                    || labels@[m].1@ == "1"@);
            &&& notify ==> job.url == hooks.url
            &&& !notify ==> job.url is None
            &&& on_error ==> job.on_error_url == hooks.on_error_url
            &&& !on_error ==> job.on_error_url is None
        }),
{
    let n = lemma_task_of_service(entries, hooks, j);
    let job = planned(entries, hooks)->Ok_0.jobs[j];
    let found = entries[n].1->Some_0.labels->Some_0@;
    assert(entries[n].1 is Some);
    let requests = requests_of(found);
    let reasons = requests.map_values(|r: RequestModel| cron_flaw(r.expression));
    law_requests_make_tasks(entries[n].0, found, hooks, requests, reasons);
    let jobs = service_jobs(entries[n].0, entries[n].1, hooks)->Ok_0;
    let q = choose|q: int| 0 <= q < jobs.len() && jobs[q] == job;
    assert(jobs[q].service == entries[n].0);
    crate::text_map::lemma_key_at(entries, n);
    crate::text_map::lemma_key_at(entries, i);
    assert(n == i);
    law_tasks_keep_to_the_labels(entries[i].0, labels@, hooks, requests[q]);
    lemma_lookup(labels@, NOTIFY_KEY@);
    lemma_lookup(labels@, NOTIFY_ON_ERROR_KEY@);
    if label_on(labels@, NOTIFY_KEY@) {
        let m = crate::text_map::key_index(labels@, NOTIFY_KEY@);
        assert(labels@[m].0 == NOTIFY_KEY@);
    }
    if label_on(labels@, NOTIFY_ON_ERROR_KEY@) {
        let m = crate::text_map::key_index(labels@, NOTIFY_ON_ERROR_KEY@);
        assert(labels@[m].0 == NOTIFY_ON_ERROR_KEY@);
    }
}

/// The labels of a service make tasks exactly if the time zone that they name
/// is known and each expression that they give, but for `manual`, is a schedule.
pub proof fn law_labels_have_to_be_sound(
    service: Seq<char>,
    labels: Seq<(Seq<char>, String)>,
    hooks: Webhooks,
)
    requires
        ordered(labels),
    ensures
        label_jobs(service, labels, hooks) is Ok <==> forall|k: int|
            #![trigger labels[k]]
            0 <= k < labels.len() ==> (labels[k].0 == "co.architect.composer.tz"@ ==> known_zone(
                labels[k].1@,
            )) && (schedule_action(labels[k].0) is Some && labels[k].1@ != "manual"@ ==> cron_parse(
                labels[k].1@,
            ) is Ok),
        label_jobs(service, labels, hooks) matches Err(Flaw::Timezone(name)) ==> !known_zone(name)
            && exists|k: int|
            0 <= k < labels.len() && (#[trigger] labels[k]).0 == "co.architect.composer.tz"@
                && labels[k].1@ == name,
        label_jobs(service, labels, hooks) matches Err(Flaw::Schedule(expression, reason))
            ==> cron_parse(expression) == Err::<(), Seq<char>>(reason) && exists|k: int|
            0 <= k < labels.len() && schedule_action((#[trigger] labels[k]).0) is Some
                && labels[k].1@ == expression,
{
    lemma_lookup(labels, ZONE_KEY@);
    law_each_schedule_label_is_a_request(labels);
    let requests = requests_of(labels);
    let reasons = requests.map_values(|r: RequestModel| cron_flaw(r.expression));
    law_requests_make_tasks(service, labels, hooks, requests, reasons);
    if zone_unknown(labels) {
        let k = crate::text_map::key_index(labels, ZONE_KEY@);
        assert(labels[k].0 == ZONE_KEY@);
        assert(labels[k].1@ == zone_name(labels));
    } else if jobs_for(service, labels, hooks, requests, reasons) is Ok {
        assert forall|k: int|
            #![trigger labels[k]]
            0 <= k < labels.len() implies (labels[k].0 == "co.architect.composer.tz"@
            ==> known_zone(labels[k].1@)) && (schedule_action(labels[k].0) is Some && labels[k].1@
            != "manual"@ ==> cron_parse(labels[k].1@) is Ok) by {
            if let Some((action, schedule_name)) = schedule_action(labels[k].0) {
                let request = RequestModel { action, schedule_name, expression: labels[k].1@ };
                if labels[k].1@ != "manual"@ {
                    let q = choose|q: int| 0 <= q < requests.len() && requests[q] == request;
                    assert(reasons[q] is None);
                }
            }
        }
    } else {
        let i = choose|i: int|
            0 <= i < requests.len() && (#[trigger] reasons[i]) is Some && label_jobs(
                service,
                labels,
                hooks,
            )->Err_0 == Flaw::Schedule(requests[i].expression, reasons[i]->Some_0) && forall|j: int|
                0 <= j < i ==> (#[trigger] reasons[j]) is None;
        assert(reasons[i] == cron_flaw(requests[i].expression));
        let k = choose|k: int|
            0 <= k < labels.len() && labels[k].1@ == requests[i].expression && labels[k].1@
                != "manual"@ && schedule_action((#[trigger] labels[k]).0) == Some(
                (requests[i].action, requests[i].schedule_name),
            );
        assert(schedule_action(labels[k].0) is Some);
    }
}

/// A plan is made exactly if the labels of every service make tasks; the flaw
/// of the first that do not is the flaw of the plan.
pub proof fn law_plans_need_every_service(
    entries: Seq<(Seq<char>, Option<Service>)>,
    hooks: Webhooks,
)
    ensures
        planned(entries, hooks) is Ok <==> forall|i: int|
            0 <= i < entries.len() ==> service_jobs((#[trigger] entries[i]).0, entries[i].1, hooks)
                is Ok,
        planned(entries, hooks) matches Err(flaw) ==> exists|i: int|
            0 <= i < entries.len() && service_jobs((#[trigger] entries[i]).0, entries[i].1, hooks)
                == Err::<Seq<JobModel>, Flaw>(flaw) && forall|j: int|
                0 <= j < i ==> service_jobs((#[trigger] entries[j]).0, entries[j].1, hooks) is Ok,
        forall|i: int|
            0 <= i < entries.len() && ((#[trigger] entries[i]).1 matches Some(s) ==> s.labels
                is None) ==> service_jobs(entries[i].0, entries[i].1, hooks) == Ok::<
                Seq<JobModel>,
                Flaw,
            >(Seq::empty()),
    decreases entries.len(),
{
    if entries.len() > 0 {
        let less = entries.drop_last();
        law_plans_need_every_service(less, hooks);
        let n = entries.len() - 1;
        assert forall|i: int| 0 <= i < n implies less[i] == entries[i] by {}
        if planned(less, hooks) is Ok {
            assert forall|i: int| 0 <= i < n implies service_jobs(
                (#[trigger] entries[i]).0,
                entries[i].1,
                hooks,
            ) is Ok by {
                assert(less[i] == entries[i]);
            }
            assert(entries[n] == entries.last());
        } else {
            let flaw = planned(less, hooks)->Err_0;
            let i = choose|i: int|
                0 <= i < less.len() && service_jobs((#[trigger] less[i]).0, less[i].1, hooks)
                    == Err::<Seq<JobModel>, Flaw>(flaw) && forall|j: int|
                    0 <= j < i ==> service_jobs((#[trigger] less[j]).0, less[j].1, hooks) is Ok;
            assert(less[i] == entries[i]);
            assert forall|j: int| 0 <= j < i implies service_jobs(
                (#[trigger] entries[j]).0,
                entries[j].1,
                hooks,
            ) is Ok by {
                assert(less[j] == entries[j]);
            }
        }
    }
}

/// A time zone that is not known is the flaw of the labels, whatever else is wrong
/// with them.
pub proof fn law_unknown_zones_are_told_first(
    service: Seq<char>,
    labels: Seq<(Seq<char>, String)>,
    hooks: Webhooks,
    k: int,
)
    requires
        ordered(labels),
        0 <= k < labels.len(),
        labels[k].0 == "co.architect.composer.tz"@,
        !known_zone(labels[k].1@),
    ensures
        label_jobs(service, labels, hooks) == Err::<Seq<JobModel>, Flaw>(
            Flaw::Timezone(labels[k].1@),
        ),
{
    lemma_lookup(labels, ZONE_KEY@);
}

/// The plan for one service holds its tasks, and watches it at most once.
pub proof fn law_plan_of_one_service(
    name: Seq<char>,
    service: Option<Service>,
    hooks: Webhooks,
)
    ensures
        ({
            let plan = planned(seq![(name, service)], hooks);
            let by_label = service matches Some(s) && s.labels matches Some(labels) && exists|k:
                int|
                0 <= k < labels@.len() && ((#[trigger] labels@[k]).0
                    == "co.architect.composer.run"@ || "co.architect.composer.run."@.is_prefix_of(
                    labels@[k].0,
                ));
            &&& plan is Ok <==> service_jobs(name, service, hooks) is Ok
            &&& plan is Ok ==> plan->Ok_0.jobs == service_jobs(name, service, hooks)->Ok_0
            &&& plan is Ok && by_label ==> plan->Ok_0.monitored.len() == 0
            &&& plan is Ok && !by_label ==> plan->Ok_0.monitored == seq![name]
            &&& planned(Seq::empty(), hooks) matches Ok(none) && none.jobs.len() == 0
                && none.monitored.len() == 0
        }),
{
    let one = seq![(name, service)];
    assert(one.drop_last() =~= Seq::empty());
    let start = planned(one.drop_last(), hooks)->Ok_0;
    assert(start.jobs == Seq::<JobModel>::empty());
    assert(start.monitored == Seq::<Seq<char>>::empty());
    if let Ok(jobs) = service_jobs(name, service, hooks) {
        assert(start.jobs + jobs =~= jobs);
        assert(start.monitored.push(name) =~= seq![name]);
    }
    if let Some(s) = service {
        if let Some(labels) = s.labels {
            assert forall|k: int| 0 <= k < labels@.len() implies asks_to_run(
                (#[trigger] labels@[k]).0,
            ) == (labels@[k].0 == "co.architect.composer.run"@
                || "co.architect.composer.run."@.is_prefix_of(labels@[k].0)) by {}
            if one_shot(service) {
                let k = choose|k: int|
                    0 <= k < labels@.len() && asks_to_run((#[trigger] labels@[k]).0);
                assert(labels@[k].0 == "co.architect.composer.run"@
                    || "co.architect.composer.run."@.is_prefix_of(labels@[k].0));
            }
        }
    }
}

// ---------------------------------------------------------------------------
// What a task does when it is due
// ---------------------------------------------------------------------------

/// The arguments with which a task acts on its service.
pub open spec fn job_args(context: ComposeContext, job: Job) -> Seq<Seq<char>> {
    compose_args(context, None) + (match job.action {
        ComposeAction::Run => seq!["run"@, "--rm"@],
        ComposeAction::Restart => seq!["restart"@],
    }) + seq![job.service@]
}

/// The command by which a task acts on its service: a run leaves no container
/// behind.
pub fn job_command(context: &ComposeContext, job: &Job) -> (r: CommandLine)
    ensures
        r.program@ == "docker"@,
        texts(r.args@) == job_args(*context, *job),
{
    let cmd = compose_command(context, None);
    let cmd = match job.action {
        ComposeAction::Run => cmd.arg("run").arg("--rm"),
        ComposeAction::Restart => cmd.arg("restart"),
    };
    let cmd = cmd.arg(job.service.as_str());
    assert(texts(cmd.args@) =~= job_args(*context, *job));
    cmd
}

/// A task acts on its own service and on nothing else, by its own action; only
/// a run removes its container afterwards.  The compose file and what else
/// belongs to the project come before.
pub proof fn law_commands_act_on_the_service(context: ComposeContext, job: Job)
    ensures
        ({
            let args = job_args(context, job);
            let n = args.len();
            let project = compose_args(context, None);
            &&& args.last() == job.service@
            &&& job.action == ComposeAction::Run ==> {
                &&& n == project.len() + 3
                &&& args[n - 3] == "run"@
                &&& args[n - 2] == "--rm"@
            }
            &&& job.action == ComposeAction::Restart ==> {
                &&& n == project.len() + 2
                &&& args[n - 2] == "restart"@
            }
            &&& args.take(project.len() as int) == project
        }),
{
    let project = compose_args(context, None);
    assert(job_args(context, job).take(project.len() as int) =~= project);
}

/// The service of a task, with the name of the schedule where it has one.
pub fn job_display(job: &Job) -> (r: String)
    ensures
        r@ == (match job.schedule_name {
            Some(name) => job.service@ + " ("@ + name@ + ")"@,
            None => job.service@,
        }),
{
    let mut r: String = job.service.clone();
    if let Some(name) = &job.schedule_name {
        r.append(" (");
        r.append(name.as_str());
        r.append(")");
    }
    r
}

/// The path of the file that takes what a run prints.
pub open spec fn log_file(
    run_logs: Seq<char>,
    now: Instant,
    service: Seq<char>,
    stream: Seq<char>,
) -> Seq<char> {
    path_join(
        run_logs,
        rfc3339_text(now.seconds, now.nanos) + "_"@ + service + "."@ + stream + ".log"@,
    )
}

/// The path of the file that takes what a run prints to `stream`.
pub fn log_file_path(run_logs: &str, now: &Timestamp, service: &str, stream: &str) -> (r: String)
    ensures
        r@ == log_file(run_logs@, now@, service@, stream@),
{
    let mut name: String = now.to_rfc3339();
    name.append("_");
    name.append(service);
    name.append(".");
    name.append(stream);
    name.append(".log");
    join_path(run_logs, name.as_str())
}

/// The file of a run lies in the directory for logs, and its name tells the
/// time, the service and the stream.
pub proof fn law_log_files_are_named_after_runs(
    run_logs: Seq<char>,
    now: Instant,
    service: Seq<char>,
    stream: Seq<char>,
)
    requires
        run_logs.len() > 0,
        run_logs.last() != '/',
        rfc3339_text(now.seconds, now.nanos).len() > 0,
        rfc3339_text(now.seconds, now.nanos)[0] != '/',
    ensures
        log_file(run_logs, now, service, stream) == run_logs + "/"@ + rfc3339_text(
            now.seconds,
            now.nanos,
        ) + "_"@ + service + "."@ + stream + ".log"@,
{
    reveal_strlit("/");
    let name = rfc3339_text(now.seconds, now.nanos) + "_"@ + service + "."@ + stream + ".log"@;
    assert(name[0] == rfc3339_text(now.seconds, now.nanos)[0]);
    assert(log_file(run_logs, now, service, stream) =~= run_logs + "/"@ + rfc3339_text(
        now.seconds,
        now.nanos,
    ) + "_"@ + service + "."@ + stream + ".log"@);
}

/// The message on a run of a service.
pub open spec fn job_notice(
    hostname: Seq<char>,
    service: Seq<char>,
    action: ComposeAction,
    success: bool,
    due: Instant,
) -> Seq<char> {
    quotation(
        seq![
            mark(success) + " *"@ + hostname + "."@ + service + "* "@ + done_word(action),
            date_text("Next "@ + action_name(action) + " at"@, due),
        ],
    )
}

/// The message on a run of a service.
pub fn job_notice_text(
    hostname: &str,
    service: &str,
    action: ComposeAction,
    success: bool,
    due: &Timestamp,
) -> (r: String)
    ensures
        r@ == job_notice(hostname@, service@, action, success, due@),
{
    let mut title: String = mark_text(success).to_owned();
    title.append(" *");
    title.append(hostname);
    title.append(".");
    title.append(service);
    title.append("* ");
    title.append(action.as_past_participle());
    let mut label: String = "Next ".to_owned();
    label.append(action.name());
    label.append(" at");
    let lines: Vec<String> = vec![title, date_line(label.as_str(), due)];
    assert(texts(lines@) =~= seq![
        mark(success) + " *"@ + hostname@ + "."@ + service@ + "* "@ + done_word(action),
        date_text("Next "@ + action_name(action) + " at"@, due@),
    ]);
    quote(&lines)
}

/// The messages on a run of a service: to the general webhook on each run that
/// has ended, to the one for errors on each that has failed.
pub open spec fn job_messages(
    hostname: Seq<char>,
    job: JobModel,
    outcome: Outcome,
    due: Instant,
) -> Seq<(Seq<char>, Seq<char>)> {
    match outcome {
        Outcome::Failed(_) => Seq::empty(),
        Outcome::Finished { success, .. } => broadcast_messages(
            job.url,
            if success {
                None
            } else {
                job.on_error_url
            },
            job_notice(hostname, job.service, job.action, success, due),
        ),
    }
}

/// The messages on a run of a service.
pub fn job_report(hostname: &str, job: &Job, outcome: &Outcome, due: &Timestamp) -> (r: Vec<
    Message,
>)
    ensures
        messages_of(r@) == job_messages(hostname@, job@, *outcome, due@),
{
    match outcome {
        Outcome::Failed(_) => {
            let r: Vec<Message> = Vec::new();
            assert(messages_of(r@) =~= Seq::empty());
            r
        },
        Outcome::Finished { success, .. } => {
            let text = job_notice_text(hostname, job.service.as_str(), job.action, *success, due);
            if *success {
                to_webhooks(&job.slack_webhook_url, &None, text.as_str())
            } else {
                to_webhooks(
                    &job.slack_webhook_url,
                    &job.slack_webhook_on_error_url,
                    text.as_str(),
                )
            }
        },
    }
}

/// A run that succeeds is told to the general webhook only, and one that could
/// not even be started to none.
pub proof fn law_errors_only(hostname: Seq<char>, job: JobModel, outcome: Outcome, due: Instant)
    requires
        outcome matches Outcome::Finished { success, .. } ==> success,
    ensures
        forall|i: int|
            0 <= i < job_messages(hostname, job, outcome, due).len() ==> job.url == Some(
                (#[trigger] job_messages(hostname, job, outcome, due)[i]).0,
            ),
        outcome is Failed ==> job_messages(hostname, job, outcome, due).len() == 0,
{
}

/// A run that fails is told to each webhook that is set.
pub proof fn law_failures_are_told(
    hostname: Seq<char>,
    job: JobModel,
    outcome: Outcome,
    due: Instant,
    url: Seq<char>,
)
    requires
        outcome matches Outcome::Finished { success, .. } && !success,
        job.url == Some(url) || job.on_error_url == Some(url),
    ensures
        job_messages(hostname, job, outcome, due).contains(
            (url, job_notice(hostname, job.service, job.action, false, due)),
        ),
{
    let all = job_messages(hostname, job, outcome, due);
    let told = (url, job_notice(hostname, job.service, job.action, false, due));
    if job.url == Some(url) {
        assert(all[0] == told);
    } else {
        assert(all[all.len() - 1] == told);
    }
}

/// The message on a run tells whether it has succeeded, the host, the service,
/// what was done to it, and the time.
pub proof fn law_run_notice_tells_the_outcome(
    hostname: Seq<char>,
    service: Seq<char>,
    action: ComposeAction,
    success: bool,
    due: Instant,
)
    ensures
        ({
            let text = job_notice(hostname, service, action, success, due);
            let sign = if success {
                "✅ *"@
            } else {
                "❌ *"@
            };
            let done = match action {
                ComposeAction::Run => "run"@,
                ComposeAction::Restart => "restarted"@,
            };
            &&& holds(text, sign + hostname + "."@ + service + "* "@ + done)
            &&& holds(
                text,
                "<!date^"@ + decimal(due.seconds) + "^"@ + ("Next "@ + action_name(action)
                    + " at"@),
            )
        }),
{
    reveal_strlit("✅");
    reveal_strlit("❌");
    reveal_strlit(" *");
    reveal_strlit("✅ *");
    reveal_strlit("❌ *");
    assert("✅"@ + " *"@ =~= "✅ *"@);
    assert("❌"@ + " *"@ =~= "❌ *"@);
    let when = date_text("Next "@ + action_name(action) + " at"@, due);
    let lines = seq![
        mark(success) + " *"@ + hostname + "."@ + service + "* "@ + done_word(action),
        when,
    ];
    law_quotation_holds_lines(lines, 0);
    law_quotation_holds_lines(lines, 1);
    law_date_tells_the_time("Next "@ + action_name(action) + " at"@, due);
    lemma_holds_within(
        quotation(lines),
        when,
        "<!date^"@ + decimal(due.seconds) + "^"@ + ("Next "@ + action_name(action) + " at"@),
    );
}

/// Who is told of a run: the webhook that the service has for each run if it
/// has ended, the one that it has for errors if it has failed, each once and
/// nobody else.  A run that could not be started is told to nobody.
pub proof fn law_who_is_told_of_a_run(
    hostname: Seq<char>,
    job: JobModel,
    outcome: Outcome,
    due: Instant,
    target: Seq<char>,
)
    ensures
        ({
            let all = job_messages(hostname, job, outcome, due);
            let told = exists|i: int| 0 <= i < all.len() && (#[trigger] all[i]).0 == target;
            match outcome {
                Outcome::Finished { success, .. } => {
                    &&& told <==> job.url == Some(target) || (!success && job.on_error_url == Some(
                        target,
                    ))
                    &&& forall|i: int|
                        0 <= i < all.len() ==> (#[trigger] all[i]).1 == job_notice(
                            hostname,
                            job.service,
                            job.action,
                            success,
                            due,
                        )
                    &&& all.len() == (if job.url is Some {
                        1int
                    } else {
                        0
                    }) + (if !success && job.on_error_url is Some {
                        1int
                    } else {
                        0
                    })
                },
                Outcome::Failed(_) => all.len() == 0,
            }
        }),
{
    let all = job_messages(hostname, job, outcome, due);
    if all.len() > 0 {
        assert(all[0].0 == all.first().0);
        assert(all[all.len() - 1].0 == all.last().0);
    }
}

/// The message on a run has two lines: what was done, and when it is done next.
pub proof fn law_run_notice_has_no_other_lines(
    hostname: Seq<char>,
    service: Seq<char>,
    success: bool,
    due: Instant,
)
    ensures
        ({
            let title = (if success {
                "✅"@
            } else {
                "❌"@
            }) + " *"@ + hostname + "."@ + service + "* "@;
            &&& job_notice(hostname, service, ComposeAction::Run, success, due) == quotation(
                seq![title + "run"@, date_text("Next "@ + "run"@ + " at"@, due)],
            )
            &&& job_notice(hostname, service, ComposeAction::Restart, success, due) == quotation(
                seq![title + "restarted"@, date_text("Next "@ + "restart"@ + " at"@, due)],
            )
        }),
{
}

// ---------------------------------------------------------------------------
// The compose file
// ---------------------------------------------------------------------------

/// The names that a compose file can have, in the order in which they are
/// tried.
pub open spec fn candidates() -> Seq<Seq<char>> {
    seq!["compose.yml"@, "compose.yaml"@, "docker-compose.yml"@, "docker-compose.yaml"@]
}

/// The names that a compose file can have, in the order in which they are
/// tried.
pub fn compose_file_candidates() -> (r: Vec<String>)
    ensures
        texts(r@) == candidates(),
{
    let r: Vec<String> = vec![
        "compose.yml".to_owned(),
        "compose.yaml".to_owned(),
        "docker-compose.yml".to_owned(),
        "docker-compose.yaml".to_owned(),
    ];
    assert(texts(r@) =~= candidates());
    r
}

/// Which compose file to use.
#[derive(Debug, PartialEq)]
pub enum FileChoice {
    /// This one
    Use(String),
    /// The one that the user selects of these
    Ask(Vec<String>),
    /// None was found: the message
    Missing(String),
}

/// The candidates that are there.
pub open spec fn found(names: Seq<Seq<char>>, present: Seq<bool>) -> Seq<Seq<char>>
    decreases names.len(),
{
    if names.len() == 0 {
        Seq::empty()
    } else {
        let rest = found(names.drop_last(), present);
        if present[names.len() - 1] {
            rest.push(names.last())
        } else {
            rest
        }
    }
}

/// Picks the compose file: the one that was asked for, else the one candidate
/// that is there; where several are there the user is to select one.
/// `present` tells of each candidate whether it is there.
pub fn resolve_compose_file(explicit: Option<String>, present: &Vec<bool>) -> (r: FileChoice)
    requires
        present@.len() == candidates().len(),
    ensures
        explicit matches Some(path) ==> r == FileChoice::Use(path),
        explicit is None ==> match r {
            FileChoice::Missing(message) => found(candidates(), present@).len() == 0 && message@
                == "No compose.yml or docker-compose.yml found in the current directory."@,
            FileChoice::Use(path) => found(candidates(), present@) == seq![path@],
            FileChoice::Ask(paths) => texts(paths@) == found(candidates(), present@)
                && paths@.len() > 1,
        },
{
    if let Some(path) = explicit {
        return FileChoice::Use(path);
    }
    let names = compose_file_candidates();
    let mut there: Vec<String> = Vec::new();
    let mut i: usize = 0;
    assert(texts(there@) =~= Seq::empty());
    assert(names@.len() == texts(names@).len());
    while i < names.len()
        invariant
            i <= names@.len(),
            texts(names@) == candidates(),
            names@.len() == candidates().len(),
            present@.len() == candidates().len(),
            texts(there@) == found(candidates().take(i as int), present@),
        decreases names.len() - i,
    {
        let ghost was = there@;
        assert(candidates().take(i + 1).drop_last() =~= candidates().take(i as int));
        assert(candidates()[i as int] == names@[i as int]@);
        if present[i] {
            there.push(names[i].clone());
            assert(texts(there@) =~= texts(was).push(names@[i as int]@));
        }
        i = i + 1;
    }
    assert(candidates().take(i as int) =~= candidates());
    if there.len() == 0 {
        FileChoice::Missing(
            "No compose.yml or docker-compose.yml found in the current directory.".to_owned(),
        )
    } else if there.len() == 1 {
        assert(texts(there@) =~= seq![there@[0]@]);
        FileChoice::Use(there[0].clone())
    } else {
        FileChoice::Ask(there)
    }
}

/// The names that are found are those that are there, all of them and in
/// order: with each further name, one more is found behind the others exactly
/// if it is there.
pub proof fn law_found_names_are_there(names: Seq<Seq<char>>, present: Seq<bool>, i: int)
    requires
        0 <= i < names.len() <= present.len(),
    ensures
        present[i] ==> found(names, present).contains(names[i]),
        forall|name: Seq<char>| #[trigger]
            found(names, present).contains(name) ==> exists|j: int|
                0 <= j < names.len() && present[j] && #[trigger] names[j] == name,
        found(names.take(i), present).is_prefix_of(found(names, present)),
        found(names.take(i + 1), present).len() == found(names.take(i), present).len() + if present[i] {
            1int
        } else {
            0
        },
    decreases names.len(),
{
    let less = names.drop_last();
    let before = found(less, present);
    let all = found(names, present);
    assert(before.is_prefix_of(all)) by {
        assert(all.subrange(0, before.len() as int) =~= before);
    }
    assert(names.take(i + 1).drop_last() =~= names.take(i));
    assert(names.take(i + 1).last() == names[i]);
    if less.len() > 0 {
        let m = if i < less.len() {
            i
        } else {
            0
        };
        law_found_names_are_there(less, present, m);
    }
    if i < less.len() {
        assert(less.take(i) =~= names.take(i));
        assert(less[i] == names[i]);
        let first = found(names.take(i), present);
        assert(all.subrange(0, first.len() as int) =~= before.subrange(0, first.len() as int));
        if present[i] {
            let k = choose|k: int| 0 <= k < before.len() && before[k] == names[i];
            assert(all[k] == names[i]);
        }
    } else {
        assert(names.take(i) =~= less);
        if present[i] {
            assert(all[all.len() - 1] == names[i]);
        }
    }
    assert forall|name: Seq<char>| #[trigger] all.contains(name) implies exists|j: int|
        0 <= j < names.len() && present[j] && #[trigger] names[j] == name by {
        let k = choose|k: int| 0 <= k < all.len() && all[k] == name;
        if k < before.len() {
            assert(before[k] == name);
            assert(before.contains(name));
            let j = choose|j: int| 0 <= j < less.len() && present[j] && #[trigger] less[j] == name;
            assert(names[j] == less[j]);
        } else {
            assert(names[names.len() - 1] == name);
        }
    }
}

/// Of the four names that a compose file can have, those that are there are found:
/// `compose` before `docker-compose`, and `.yml` before `.yaml`.
pub proof fn law_compose_files_are_found_in_order(present: Seq<bool>)
    requires
        present.len() == 4,
    ensures
        ({
            let one = |i: int, name: Seq<char>|
                if present[i] {
                    seq![name]
                } else {
                    Seq::<Seq<char>>::empty()
                };
            found(candidates(), present) == one(0, "compose.yml"@) + one(1, "compose.yaml"@) + one(
                2,
                "docker-compose.yml"@,
            ) + one(3, "docker-compose.yaml"@)
        }),
{
    let c = candidates();
    let none = Seq::<Seq<char>>::empty();
    let one = |i: int, name: Seq<char>|
        if present[i] {
            seq![name]
        } else {
            none
        };
    assert(c.drop_last() =~= c.take(3));
    assert(c.take(3).drop_last() =~= c.take(2));
    assert(c.take(2).drop_last() =~= c.take(1));
    assert(c.take(1).drop_last() =~= none);
    assert(found(none, present) =~= none);
    assert(found(c.take(1), present) =~= one(0, c[0]));
    assert(found(c.take(2), present) =~= one(0, c[0]) + one(1, c[1]));
    assert(found(c.take(3), present) =~= one(0, c[0]) + one(1, c[1]) + one(2, c[2]));
    assert(found(c, present) =~= one(0, c[0]) + one(1, c[1]) + one(2, c[2]) + one(3, c[3]));
}

/// What happened to a file.
#[derive(Debug, Clone, Copy, PartialEq, Eq, Structural)]
pub enum ChangeKind {
    Modified,
    Created,
    Removed,
    Other,
}

/// The compose file as it was last read.
#[derive(Debug)]
pub struct WatchedFile {
    pub path: String,
    pub contents: String,
}

impl WatchedFile {
    /// Whether an event can mean that the file has changed: the file is one of
    /// those that were modified, created or removed.  Paths are compared by
    /// their components.
    pub fn concerns(&self, kind: ChangeKind, paths: &Vec<String>) -> (r: bool)
        ensures
            r == (kind != ChangeKind::Other && exists|i: int|
                0 <= i < paths@.len() && components((#[trigger] paths@[i])@) == components(
                    self.path@,
                )),
    {
        if kind == ChangeKind::Other {
            return false;
        }
        let mut i: usize = 0;
        while i < paths.len()
            invariant
                i <= paths@.len(),
                kind != ChangeKind::Other,
                forall|j: int|
                    0 <= j < i ==> components((#[trigger] paths@[j])@) != components(self.path@),
            decreases paths.len() - i,
        {
            if same_path(paths[i].as_str(), self.path.as_str()) {
                return true;
            }
            i = i + 1;
        }
        false
    }

    /// Takes in what reading the file has given, if that went well, and tells
    /// whether the file counts as changed: its contents differ, or it cannot be
    /// read (as when it was deleted).
    pub fn observe(&mut self, read: Option<String>) -> (changed: bool)
        ensures
            final(self).path == old(self).path,
            match read {
                Some(contents) => changed == (contents@ != old(self).contents@)
                    && final(self).contents@ == contents@,
                None => changed && final(self).contents == old(self).contents,
            },
    {
        match read {
            Some(contents) => if same(contents.as_str(), self.contents.as_str()) {
                false
            } else {
                self.contents = contents;
                true
            },
            None => true,
        }
    }
}

/// The compose file that was asked for is used.  Else the one that is there is, or
/// the user is asked to select one of those that are.
pub proof fn law_compose_file_is_resolved(
    asked: Option<String>,
    present: Vec<bool>,
    choice: FileChoice,
)
    requires
        present@.len() == 4,
        call_ensures(resolve_compose_file, (asked, &present), choice),
    ensures
        ({
            let count = found(candidates(), present@).len();
            &&& asked is Some ==> choice == FileChoice::Use(asked->Some_0)
            &&& asked is None ==> (choice is Missing <==> count == 0)
            &&& asked is None ==> (choice is Use <==> count == 1)
            &&& asked is None ==> (choice is Ask <==> count >= 2)
            &&& asked is None ==> (choice matches FileChoice::Ask(names) ==> texts(names@) == found(
                candidates(),
                present@,
            ))
            &&& asked is None ==> (choice matches FileChoice::Use(name) ==> found(
                candidates(),
                present@,
            )[0] == name@)
            &&& asked is None ==> (choice is Missing <==> forall|i: int|
                0 <= i < 4 ==> !#[trigger] present@[i])
        }),
{
    law_compose_files_are_found_in_order(present@);
    assert(present@[0] || present@[1] || present@[2] || present@[3] || forall|i: int|
        0 <= i < 4 ==> !#[trigger] present@[i]);
}

/// An event is of concern only if the file is one of those that were modified,
/// created or removed.
pub proof fn law_events_of_concern(
    file: WatchedFile,
    kind: ChangeKind,
    paths: Vec<String>,
    concerned: bool,
)
    requires
        call_ensures(WatchedFile::concerns, (&file, kind, &paths), concerned),
    ensures
        kind == ChangeKind::Other ==> !concerned,
        paths@.len() == 0 ==> !concerned,
        concerned ==> exists|k: int|
            0 <= k < paths@.len() && components((#[trigger] paths@[k])@) == components(file.path@),
{
}

/// A file that is read again without a change counts as unchanged, and one that
/// cannot be read as changed.
pub proof fn law_changes_are_seen_once(
    file: &mut WatchedFile,
    contents: Option<String>,
    changed: bool,
)
    requires
        call_ensures(WatchedFile::observe, (file, contents), changed),
    ensures
        contents is None ==> changed && final(file).contents == old(file).contents,
        contents matches Some(c) ==> (changed <==> c@ != old(file).contents@),
        contents matches Some(c) ==> final(file).contents@ == c@,
        final(file).path == old(file).path,
{
}

/// A task is displayed by its service, and by the name of its schedule where it
/// has one.
pub proof fn law_tasks_are_displayed(job: Job, display: String)
    requires
        call_ensures(job_display, (&job,), display),
    ensures
        job.service@.is_prefix_of(display@),
        job.schedule_name is None ==> display@ == job.service@,
        job.schedule_name matches Some(name) ==> (" ("@ + name@ + ")"@).is_suffix_of(display@)
            && display@.len() == job.service@.len() + (" ("@ + name@ + ")"@).len(),
{
    let s = display@;
    assert(s.subrange(0, job.service@.len() as int) =~= job.service@);
    if let Some(name) = job.schedule_name {
        let end = " ("@ + name@ + ")"@;
        assert(s =~= job.service@ + end);
        assert(s.subrange(s.len() - end.len(), s.len() as int) =~= end);
    }
}

/// The monitor runs with its defaults exactly if its setting is `1`, or `true` in
/// letters of any case.
pub proof fn law_default_settings(value: &str, default: bool)
    requires
        call_ensures(is_default_config, (value,), default),
    ensures
        value@ == "1"@ || value@ == "true"@ ==> default,
        default && value@ != "1"@ ==> value@.len() == 4 && forall|i: int|
            0 <= i < 4 ==> lower(#[trigger] value@[i]) == "true"@[i],
        value@.len() == 4 && (forall|i: int| 0 <= i < 4 ==> lower(#[trigger] value@[i]) == "true"@[i])
            ==> default,
{
    reveal_strlit("true");
    reveal_strlit("1");
    let low = value@.map_values(|c: char| lower(c));
    if default && value@ != "1"@ {
        assert(low == "true"@);
        assert forall|i: int| 0 <= i < 4 implies lower(#[trigger] value@[i]) == "true"@[i] by {
            assert(low[i] == "true"@[i]);
        }
    }
    if value@.len() == 4 && forall|i: int| 0 <= i < 4 ==> lower(#[trigger] value@[i]) == "true"@[i] {
        assert(low =~= "true"@);
    }
    if value@ == "true"@ {
        assert(low =~= "true"@);
    }
}

/// A plan that is made watches each service that no label has run, and no other,
/// and has a task in the right time zone for each schedule.
pub proof fn law_plans_follow_the_labels(
    compose: Compose,
    url: Option<String>,
    on_error_url: Option<String>,
    plan: TaskPlan,
    j: int,
)
    requires
        call_ensures(
            plan_tasks,
            (&compose, &url, &on_error_url),
            Ok::<TaskPlan, TaskError>(plan),
        ),
        ordered(compose.services@),
        forall|n: int|
            0 <= n < compose.services@.len() ==> ((#[trigger] compose.services@[n]).1
                matches Some(s) ==> (s.labels matches Some(l) ==> ordered(l@))),
        0 <= j < plan.jobs@.len(),
    ensures
        exists|i: int, k: int|
            #![trigger compose.services@[i], compose.services@[i].1->Some_0.labels->Some_0@[k]]
            {
                let labels = compose.services@[i].1->Some_0.labels->Some_0@;
                let job = plan.jobs@[j];
                &&& 0 <= i < compose.services@.len()
                &&& 0 <= k < labels.len()
                &&& job.service@ == compose.services@[i].0
                &&& job.schedule@ == labels[k].1@
                &&& forall|m: int|
                    0 <= m < labels.len() && (#[trigger] labels[m]).0
                        == "co.architect.composer.tz"@ ==> job.zone@ == labels[m].1@
                &&& (forall|m: int|
                    0 <= m < labels.len() ==> (#[trigger] labels[m]).0
                        != "co.architect.composer.tz"@) ==> job.zone@ == "UTC"@
            },
{
    let entries = compose.services@;
    let hooks = hooks_of(url, on_error_url);
    assert(planned(entries, hooks)->Ok_0 == plan@);
    assert(plan@.jobs[j] == plan.jobs@[j]@);
    let (i, k) = law_each_task_has_a_label(entries, hooks, j);
    let labels = entries[i].1->Some_0.labels->Some_0;
    law_tasks_fire_in_the_zone_of_their_service(entries, hooks, i, labels, j);
    assert(entries[i].1->Some_0.labels->Some_0@[k].1@ == plan.jobs@[j].schedule@);
}

/// What is wrong with the labels names the expression that is no schedule.
pub proof fn law_flaws_are_told(flaw: TaskError, message: String)
    requires
        call_ensures(TaskError::message, (&flaw,), message),
    ensures
        flaw is Timezone ==> message@ == "failed to parse timezone"@,
        flaw matches TaskError::Schedule(e) ==> message@ == "while parsing cron expression: "@
            + e.expression@,
{
}

/// A setting is switched on by `true` or `1` and by nothing else.
pub proof fn law_switches(value: &str, on: bool)
    requires
        call_ensures(is_switched_on, (value,), on),
    ensures
        on <==> value@ == "true"@ || value@ == "1"@,
{
}

/// A report on a run goes to the webhook of the task, and on failure to its webhook
/// for errors as well.
pub proof fn law_runs_are_reported(
    hostname: &str,
    job: Job,
    outcome: Outcome,
    due: Timestamp,
    sent: Vec<Message>,
    i: int,
)
    requires
        call_ensures(job_report, (hostname, &job, &outcome, &due), sent),
    ensures
        outcome is Failed ==> sent@.len() == 0,
        outcome matches Outcome::Finished { success, .. } ==> {
            &&& sent@.len() == (if job.slack_webhook_url is Some {
                1int
            } else {
                0
            }) + (if !success && job.slack_webhook_on_error_url is Some {
                1int
            } else {
                0
            })
            &&& job.slack_webhook_url matches Some(u) ==> sent@[0].url@ == u@
            &&& !success ==> (job.slack_webhook_on_error_url matches Some(u) ==> sent@.last().url@
                == u@)
            &&& 0 <= i < sent@.len() ==> sent@[i].text@ == job_notice(
                hostname@,
                job.service@,
                job.action,
                success,
                due@,
            )
        },
{
    let all = messages_of(sent@);
    assert(all.len() == sent@.len());
    if sent@.len() > 0 {
        assert(all[sent@.len() - 1] == (sent@.last().url@, sent@.last().text@));
        assert(all[0] == (sent@[0].url@, sent@[0].text@));
    }
    if 0 <= i < sent@.len() {
        assert(all[i] == (sent@[i].url@, sent@[i].text@));
    }
}

} // verus!
