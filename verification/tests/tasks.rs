use composer::compose::{ComposeAction, ComposeContext};
use composer::compose_types::{Compose, Service};
use composer::scheduler::{Outcome, Schedule, Zone};
use composer::tasks::{
    compose_file_candidates, get_schedule_action, is_default_config, is_one_shot, is_switched_on,
    job_command, job_display, job_report, log_file_path, make_jobs, plan_tasks,
    resolve_compose_file, schedule_requests, ChangeKind, FileChoice, TaskError, WatchedFile,
};
use composer::text_map::TextMap;
use composer::time::Timestamp;

fn labels(entries: &[(&str, &str)]) -> TextMap<String> {
    let mut map = TextMap::new();
    for (k, v) in entries {
        map.insert(k.to_string(), v.to_string());
    }
    map
}

fn compose(services: Vec<(&str, Option<TextMap<String>>)>) -> Compose {
    let mut map = TextMap::new();
    for (name, labels) in services {
        map.insert(name.to_string(), Some(Service { image: None, labels, profiles: None }));
    }
    Compose { services: map }
}

fn context() -> ComposeContext {
    ComposeContext {
        compose_file: "/srv/compose.yml".to_string(),
        env_file: None,
        project_directory: None,
        hostname: "host".to_string(),
    }
}

#[test]
fn schedule_labels_ask_for_actions() {
    assert_eq!(
        get_schedule_action("co.architect.composer.run"),
        Some((ComposeAction::Run, None))
    );
    assert_eq!(
        get_schedule_action("co.architect.composer.run.morning"),
        Some((ComposeAction::Run, Some("morning")))
    );
    assert_eq!(
        get_schedule_action("co.architect.composer.restart"),
        Some((ComposeAction::Restart, None))
    );
    assert_eq!(
        get_schedule_action("co.architect.composer.restart.a.b"),
        Some((ComposeAction::Restart, Some("a.b")))
    );
    assert_eq!(
        get_schedule_action("co.architect.composer.run."),
        Some((ComposeAction::Run, Some("")))
    );
    assert_eq!(get_schedule_action("co.architect.composer.running"), None);
    assert_eq!(get_schedule_action("co.architect.composer"), None);
    assert_eq!(get_schedule_action(""), None);
}

#[test]
fn settings_are_switched_on() {
    assert!(is_switched_on("true"));
    assert!(is_switched_on("1"));
    assert!(!is_switched_on("TRUE"));
    assert!(!is_switched_on("yes"));
    assert!(is_default_config("TrUe"));
    assert!(is_default_config("1"));
    assert!(!is_default_config("true.yml"));
    assert!(!is_default_config("ＴＲＵＥ"));
}

#[test]
fn labels_make_tasks() {
    let url = Some("https://all".to_string());
    let on_error = Some("https://errors".to_string());
    let plan = plan_tasks(
        &compose(vec![
            (
                "backup",
                Some(labels(&[
                    ("co.architect.composer.run.night", "0 0 2 * * *"),
                    ("co.architect.composer.restart", "0 0 3 * * *"),
                    ("co.architect.composer.tz", "America/Chicago"),
                    ("co.architect.composer.notify.slack", "true"),
                    ("co.architect.composer.notify.slack.on-error", "no"),
                ])),
            ),
            ("db", Some(labels(&[("co.architect.composer.restart", "0 0 4 * * *")]))),
            ("manual", Some(labels(&[("co.architect.composer.run", "manual")]))),
            ("web", None),
        ]),
        &url,
        &on_error,
    )
    .unwrap();
    assert_eq!(plan.monitored, vec!["db", "web"]);
    assert_eq!(plan.jobs.len(), 3);
    let job = &plan.jobs[0];
    assert_eq!(job.service, "backup");
    assert_eq!(job.action, ComposeAction::Restart);
    assert_eq!(job.schedule_name, None);
    assert_eq!(job.schedule.to_string(), "0 0 3 * * *");
    assert_eq!(job.zone.name(), "America/Chicago");
    assert_eq!(job.slack_webhook_url, url);
    assert_eq!(job.slack_webhook_on_error_url, None);
    let job = &plan.jobs[1];
    assert_eq!(job.action, ComposeAction::Run);
    assert_eq!(job.schedule_name.as_deref(), Some("night"));
    assert_eq!(job_display(job), "backup (night)");
    let job = &plan.jobs[2];
    assert_eq!(job_display(job), "db");
    assert_eq!(job.zone.name(), "UTC");
    assert_eq!(job.slack_webhook_url, None);
}

#[test]
fn flawed_labels_make_no_plan() {
    let err = plan_tasks(
        &compose(vec![
            ("a", None),
            ("b", Some(labels(&[("co.architect.composer.tz", "Nowhere")]))),
        ]),
        &None,
        &None,
    )
    .unwrap_err();
    assert_eq!(err.message(), "failed to parse timezone");
    assert!(matches!(err, TaskError::Timezone(name) if name == "Nowhere"));
    // five fields are not enough here: seconds come first
    let err = plan_tasks(
        &compose(vec![
            ("a", Some(labels(&[("co.architect.composer.run", "0 2 * * *")]))),
            ("b", Some(labels(&[("co.architect.composer.tz", "Nowhere")]))),
        ]),
        &None,
        &None,
    )
    .unwrap_err();
    assert_eq!(err.message(), "while parsing cron expression: 0 2 * * *");
}

#[test]
fn requests_are_read_from_labels() {
    let labels = labels(&[
        ("co.architect.composer.run", "manual"),
        ("co.architect.composer.run.b", "x"),
        ("co.architect.composer.restart.a", "y"),
        ("other", "z"),
    ]);
    let requests = schedule_requests(&labels);
    assert_eq!(requests.len(), 2);
    assert_eq!(requests[0].action, ComposeAction::Restart);
    assert_eq!(requests[0].schedule_name.as_deref(), Some("a"));
    assert_eq!(requests[0].expression, "y");
    assert_eq!(requests[1].expression, "x");
    assert!(is_one_shot(&labels));
    assert!(!is_one_shot(&TextMap::new()));
    // the first expression that is no schedule is the flaw
    let err = make_jobs(
        "svc",
        &labels,
        &None,
        &None,
        &Zone::utc(),
        requests,
        vec![Err("why".to_string()), Err("also".to_string())],
    )
    .unwrap_err();
    match err {
        TaskError::Schedule(e) => {
            assert_eq!(e.expression, "y");
            assert_eq!(e.reason, "why");
        }
        TaskError::Timezone(name) => panic!("{name}"),
    }
}

#[test]
fn one_shot_by_hand_is_neither_run_nor_watched() {
    let plan = plan_tasks(
        &compose(vec![("m", Some(labels(&[("co.architect.composer.run.x", "manual")])))]),
        &None,
        &None,
    )
    .unwrap();
    assert!(plan.jobs.is_empty());
    assert!(plan.monitored.is_empty());
}

#[test]
fn tasks_act_on_their_service() {
    let url = Some("https://all".to_string());
    let on_error = Some("https://errors".to_string());
    let plan = plan_tasks(
        &compose(vec![(
            "svc",
            Some(labels(&[
                ("co.architect.composer.run", "0 0 2 * * *"),
                ("co.architect.composer.restart", "0 0 3 * * *"),
                ("co.architect.composer.notify.slack", "1"),
                ("co.architect.composer.notify.slack.on-error", "1"),
            ])),
        )]),
        &url,
        &on_error,
    )
    .unwrap();
    let (restart, run) = (&plan.jobs[0], &plan.jobs[1]);
    assert_eq!(
        job_command(&context(), run).args,
        vec!["compose", "-f", "/srv/compose.yml", "run", "--rm", "svc"]
    );
    assert_eq!(
        job_command(&context(), restart).args,
        vec!["compose", "-f", "/srv/compose.yml", "restart", "svc"]
    );
    let due = Timestamp::new(1_700_000_000, 0).unwrap();
    let finished = |success: bool| Outcome::Finished {
        success,
        stdout: "o".to_string(),
        stderr: "e".to_string(),
    };
    let ok = job_report("host", run, &finished(true), &due);
    assert_eq!(ok.len(), 1);
    assert_eq!(ok[0].url, "https://all");
    assert_eq!(
        ok[0].text,
        "> ✅ *host.svc* run\n> <!date^1700000000^Next run at {date_num} {time_secs}|Next run at 2023-11-14 22:13:20 UTC>"
    );
    let bad = job_report("host", restart, &finished(false), &due);
    assert_eq!(bad.len(), 2);
    assert_eq!(bad[1].url, "https://errors");
    assert!(bad[1].text.starts_with("> ❌ *host.svc* restarted\n"));
    assert!(job_report("host", run, &Outcome::Failed("x".to_string()), &due).is_empty());
    assert_eq!(
        log_file_path("/logs", &due, "svc", "stdout"),
        "/logs/2023-11-14T22:13:20Z_svc.stdout.log"
    );
}

#[test]
fn schedules_are_those_of_the_requests() {
    let labels = labels(&[("co.architect.composer.run", "0 0 2 * * *")]);
    let jobs = make_jobs(
        "svc",
        &labels,
        &None,
        &None,
        &Zone::utc(),
        schedule_requests(&labels),
        vec![Schedule::parse("0 0 2 * * *")],
    )
    .unwrap();
    assert_eq!(jobs.len(), 1);
    assert_eq!(jobs[0].service, "svc");
}

#[test]
fn compose_files_are_found() {
    assert_eq!(
        compose_file_candidates(),
        vec!["compose.yml", "compose.yaml", "docker-compose.yml", "docker-compose.yaml"]
    );
    let none = vec![false, false, false, false];
    assert_eq!(
        resolve_compose_file(Some("x.yml".to_string()), &none),
        FileChoice::Use("x.yml".to_string())
    );
    assert_eq!(
        resolve_compose_file(None, &none),
        FileChoice::Missing(
            "No compose.yml or docker-compose.yml found in the current directory.".to_string()
        )
    );
    assert_eq!(
        resolve_compose_file(None, &vec![false, false, true, false]),
        FileChoice::Use("docker-compose.yml".to_string())
    );
    assert_eq!(
        resolve_compose_file(None, &vec![true, false, false, true]),
        FileChoice::Ask(vec!["compose.yml".to_string(), "docker-compose.yaml".to_string()])
    );
}

#[test]
fn compose_file_changes_are_noticed() {
    let mut file = WatchedFile { path: "/a/compose.yml".to_string(), contents: "x".to_string() };
    let paths = vec!["/a/other".to_string(), "/a/compose.yml".to_string()];
    assert!(file.concerns(ChangeKind::Modified, &paths));
    assert!(file.concerns(ChangeKind::Removed, &paths));
    assert!(file.concerns(ChangeKind::Created, &paths));
    assert!(!file.concerns(ChangeKind::Other, &paths));
    assert!(!file.concerns(ChangeKind::Modified, &vec!["/a/other".to_string()]));
    for path in ["//a//compose.yml", "/a/./compose.yml", "/./a/compose.yml/", "/a/compose.yml/."] {
        assert!(file.concerns(ChangeKind::Modified, &vec![path.to_string()]), "{path}");
    }
    for path in ["a/compose.yml", "./a/compose.yml", "/b/../a/compose.yml", "/a", ""] {
        assert!(!file.concerns(ChangeKind::Modified, &vec![path.to_string()]), "{path}");
    }
    assert!(!file.concerns(ChangeKind::Modified, &vec![]));
    assert!(!file.observe(Some("x".to_string())));
    assert!(file.observe(Some("y".to_string())));
    assert!(!file.observe(Some("y".to_string())));
    // a deleted file cannot be read, and counts as changed each time
    assert!(file.observe(None));
    assert!(file.observe(None));
    assert!(!file.observe(Some("y".to_string())));
}
