use chrono::{DateTime, Duration, FixedOffset, Utc};
use composer::compose::ComposeContext;
use composer::compose_types::{Compose, Service};
use composer::container_monitor::ServiceState;
use composer::last_run::{LastRun, RunHistory};
use composer::show_status::{short_table, ShortTable};
use composer::status::{
    choose_version, container_ids, detect_version, docker_start, format_status_table, format_time,
    format_time_in, gather_status_data, inspect_command, not_since_cell, parse_docker_time,
    parse_inspect, parse_label_value, ps_command, short_duration, short_uptime, started_cell,
    started_cell_in, version_cell, ContainerStatus, PsRow, ServiceInfo, StatusColor, StatusTable,
    UNKNOWN,
};
use composer::text_map::TextMap;
use composer::time::Timestamp;

fn at(t: DateTime<Utc>) -> Timestamp {
    Timestamp::new(t.timestamp(), t.timestamp_subsec_nanos()).unwrap()
}

fn epoch() -> Timestamp {
    at(DateTime::UNIX_EPOCH)
}

#[test]
fn short_uptime_common_forms() {
    assert_eq!(short_uptime("Up 3 hours"), Some("3h".to_string()));
    assert_eq!(short_uptime("Up 5 minutes"), Some("5m".to_string()));
    assert_eq!(short_uptime("Up 1 second"), Some("1s".to_string()));
    assert_eq!(short_uptime("Up 12 days"), Some("12d".to_string()));
    assert_eq!(short_uptime("Up 2 weeks"), Some("2w".to_string()));
    assert_eq!(short_uptime("Up 4 months"), Some("4mo".to_string()));
    assert_eq!(short_uptime("Up 1 year"), Some("1y".to_string()));
}

#[test]
fn short_uptime_approximate_forms() {
    assert_eq!(short_uptime("Up About a minute"), Some("1m".to_string()));
    assert_eq!(short_uptime("Up About an hour"), Some("1h".to_string()));
    assert_eq!(short_uptime("Up Less than a second"), Some("<1s".to_string()));
}

#[test]
fn short_uptime_strips_health_annotation() {
    assert_eq!(short_uptime("Up 3 hours (healthy)"), Some("3h".to_string()));
    assert_eq!(short_uptime("Up 2 minutes (unhealthy)"), Some("2m".to_string()));
}

#[test]
fn short_uptime_rejects_non_running() {
    assert_eq!(short_uptime("Exited (0) 5 minutes ago"), None);
    assert_eq!(short_uptime("Restarting (1) 3 seconds ago"), None);
    assert_eq!(short_uptime(""), None);
}

#[test]
fn short_uptime_rejects_other_words() {
    assert_eq!(short_uptime("Up 3 fortnights"), None);
    assert_eq!(short_uptime("Up three hours"), None);
    assert_eq!(short_uptime("Up 3"), None);
    assert_eq!(short_uptime("Up 18446744073709551615 days"), Some("18446744073709551615d".to_string()));
    assert_eq!(short_uptime("Up 18446744073709551616 days"), None);
    assert_eq!(short_uptime("Up +07 hours"), Some("7h".to_string()));
}

fn container(label: Option<&str>, id: Option<&str>) -> ContainerStatus {
    ContainerStatus {
        image_version_label: label.map(str::to_string),
        image_id: id.map(str::to_string),
        ..Default::default()
    }
}

#[test]
fn detect_version_prefers_label_then_tag_then_id() {
    let c = container(Some("0.159.0"), Some("sha256:102dbfdde2da60d2b8ec"));
    assert_eq!(
        detect_version(Some("app:v1.2.3"), Some(&c)),
        Some("0.159.0".to_string())
    );
    assert_eq!(
        detect_version(Some("app:latest"), Some(&c)),
        Some("0.159.0".to_string())
    );
    let c = container(None, Some("sha256:102dbfdde2da60d2b8ec"));
    assert_eq!(
        detect_version(Some("app:v1.2.3"), Some(&c)),
        Some("v1.2.3".to_string())
    );
    assert_eq!(
        detect_version(Some("app:latest"), Some(&c)),
        Some("latest (102dbfdde2da)".to_string())
    );
    assert_eq!(detect_version(Some("app:latest"), None), Some("latest".to_string()));
    assert_eq!(detect_version(None, None), None);
}

#[test]
fn detect_version_falls_back_to_literal_tag() {
    let c = container(None, Some("sha256:102dbfdde2da60d2b8ec"));
    // non-semver tags are shown as-is, with the image id when running
    assert_eq!(detect_version(Some("app:main"), None), Some("main".to_string()));
    assert_eq!(
        detect_version(Some("app:sha-abc1234"), Some(&c)),
        Some("sha-abc1234 (102dbfdde2da)".to_string())
    );
    assert_eq!(
        detect_version(Some("ironsh/iron-proxy:latest"), Some(&c)),
        Some("latest (102dbfdde2da)".to_string())
    );
    // a semver-shaped tag is still reduced to the version alone
    assert_eq!(
        detect_version(Some("nginx:1.25.3-alpine"), Some(&c)),
        Some("1.25.3".to_string())
    );
    // no tag at all: docker implies latest, but only the id is certain
    assert_eq!(
        detect_version(Some("postgres"), Some(&c)),
        Some("102dbfdde2da".to_string())
    );
    assert_eq!(detect_version(Some("postgres"), None), None);
    assert_eq!(
        detect_version(Some("app@sha256:abcdef"), Some(&c)),
        Some("102dbfdde2da".to_string())
    );
}

#[test]
fn versions_are_chosen_in_order() {
    let v = || Some("1.2".to_string());
    assert_eq!(choose_version(Some("l"), v(), Some("t"), Some("i")).as_deref(), Some("l"));
    assert_eq!(choose_version(None, v(), Some("t"), Some("i")).as_deref(), Some("1.2"));
    assert_eq!(choose_version(None, None, Some("t"), Some("i")).as_deref(), Some("t (i)"));
    assert_eq!(choose_version(None, None, None, Some("i")).as_deref(), Some("i"));
    assert_eq!(choose_version(None, None, None, None), None);
}

#[test]
fn parse_label_value_missing_forms() {
    assert_eq!(parse_label_value("0.159.0"), Some("0.159.0".to_string()));
    assert_eq!(parse_label_value(" v1.2.3 "), Some("v1.2.3".to_string()));
    assert_eq!(parse_label_value(""), None);
    assert_eq!(parse_label_value("  "), None);
    assert_eq!(parse_label_value("<no value>"), None);
}

fn service(service_type: &str, image: Option<&str>, history: RunHistory) -> ServiceInfo {
    ServiceInfo {
        profile: String::new(),
        name: "svc".to_string(),
        service_type: service_type.to_string(),
        image: image.map(str::to_string),
        history,
    }
}

fn run_at(secs_ago: i64, now: DateTime<Utc>) -> LastRun {
    LastRun {
        action: "run".to_string(),
        started_at: at(now - Duration::seconds(secs_ago)),
        finished_at: None,
        success: None,
    }
}

#[test]
fn version_cell_sentinels() {
    // no container: derive from the compose file, else nothing to inspect
    assert_eq!(
        version_cell(&service("job", Some("app:1.2.3"), RunHistory::NotSince(epoch())), None),
        "1.2.3"
    );
    assert_eq!(
        version_cell(&service("job", Some("app:latest"), RunHistory::NotSince(epoch())), None),
        "latest"
    );
    assert_eq!(
        version_cell(&service("job", Some("app"), RunHistory::NotSince(epoch())), None),
        "-"
    );
    assert_eq!(
        version_cell(&service("service", None, RunHistory::Unknown), None),
        "-"
    );
    // a container with nothing determinable is the one truly unknown case
    let bare = ContainerStatus { image: "app".to_string(), ..Default::default() };
    assert_eq!(
        version_cell(&service("service", None, RunHistory::Unknown), Some(&bare)),
        "unknown"
    );
}

#[test]
fn not_since_cell_says_how_far_back_the_record_goes() {
    let since = parse_docker_time("2026-08-21T20:58:12Z").unwrap();
    assert_eq!(not_since_cell(since, 0), "not since 2026-08-21 20:58 +00:00");
    let cell = started_cell(
        &service("job", None, RunHistory::NotSince(since)),
        None,
        at(Utc::now()),
    );
    assert!(cell.starts_with("not since 2026-08-2"), "{cell}");
    // still not applicable to a plain service
    assert_eq!(
        started_cell(
            &service("service", None, RunHistory::NotSince(since)),
            None,
            at(Utc::now())
        ),
        "-"
    );
}

#[test]
fn started_cell_sentinels() {
    let now = Utc::now();
    // jobs: composer's record decides
    assert_eq!(
        started_cell(&service("job", None, RunHistory::Unknown), None, at(now)),
        "unknown"
    );
    let cell =
        started_cell(&service("job", None, RunHistory::NotSince(epoch())), None, at(now));
    assert!(cell.starts_with("not since "), "{cell}");
    let cell = started_cell(
        &service("job", None, RunHistory::Last(run_at(23 * 60 + 5, now))),
        None,
        at(now),
    );
    assert!(cell.ends_with(" (23m ago)"), "{cell}");
    // services: compose starts them, so no record means nothing to say
    assert_eq!(
        started_cell(&service("service", None, RunHistory::NotSince(epoch())), None, at(now)),
        "-"
    );
    assert_eq!(
        started_cell(&service("service", None, RunHistory::Unknown), None, at(now)),
        "-"
    );
    // a container's own start time always wins; a container without one is unknown
    let started = ContainerStatus { started_at: Some(at(now)), ..Default::default() };
    let cell = started_cell(
        &service("job", None, RunHistory::NotSince(epoch())),
        Some(&started),
        at(now),
    );
    assert!(!cell.contains("ago") && !cell.starts_with("not since"), "{cell}");
    let unstarted = ContainerStatus::default();
    assert_eq!(
        started_cell(
            &service("service", None, RunHistory::Unknown),
            Some(&unstarted),
            at(now)
        ),
        "unknown"
    );
}

#[test]
fn started_cell_of_a_job_that_was_never_run() {
    assert_eq!(
        started_cell(&service("job", None, RunHistory::Never), None, epoch()),
        "never"
    );
    assert_eq!(
        started_cell(&service("service", None, RunHistory::Never), None, epoch()),
        "-"
    );
    let run = RunHistory::Last(run_at(60, DateTime::UNIX_EPOCH));
    assert_eq!(
        started_cell_in(&service("service", None, run), None, epoch(), 3600),
        "1970-01-01 00:59 +01:00 (1m ago)"
    );
}

#[test]
fn short_duration_units() {
    let short = |d: Duration| short_duration(d.num_seconds());
    assert_eq!(short(Duration::seconds(45)), "45s");
    assert_eq!(short(Duration::seconds(23 * 60 + 14)), "23m");
    assert_eq!(short(Duration::hours(5) + Duration::minutes(59)), "5h");
    assert_eq!(short(Duration::days(12)), "12d");
    assert_eq!(short(Duration::seconds(-5)), "0s");
}

#[test]
fn short_duration_changes_units_at_their_size() {
    assert_eq!(short_duration(59), "59s");
    assert_eq!(short_duration(60), "1m");
    assert_eq!(short_duration(3599), "59m");
    assert_eq!(short_duration(3600), "1h");
    assert_eq!(short_duration(86399), "23h");
    assert_eq!(short_duration(86400), "1d");
}

#[test]
fn format_time_shows_numeric_offset() {
    let dt = parse_docker_time("2026-08-21T20:58:12Z");
    let chicago = FixedOffset::west_opt(5 * 3600).unwrap().local_minus_utc();
    assert_eq!(format_time_in(dt, chicago), "2026-08-21 15:58 -05:00");
    let kolkata = FixedOffset::east_opt(5 * 3600 + 1800).unwrap().local_minus_utc();
    assert_eq!(format_time_in(dt, kolkata), "2026-08-22 02:28 +05:30");
    assert_eq!(format_time_in(dt, 0), "2026-08-21 20:58 +00:00");
    assert_eq!(format_time_in(None, 0), UNKNOWN);
}

#[test]
fn format_time_is_that_of_some_offset() {
    let dt = parse_docker_time("2026-08-21T20:58:12Z");
    let offset = dt.unwrap().local_offset();
    assert_eq!(format_time(dt), format_time_in(dt, offset));
    assert_eq!(format_time(None), "unknown");
}

#[test]
fn parse_docker_time_rfc3339_nanos() {
    let dt = parse_docker_time("2026-08-22T12:34:56.123456789Z").unwrap();
    let dt = DateTime::<Utc>::from_timestamp(dt.seconds(), dt.nanos()).unwrap();
    assert_eq!(dt.to_rfc3339(), "2026-08-22T12:34:56.123456789+00:00");
}

#[test]
fn parse_docker_time_zero_is_none() {
    assert_eq!(parse_docker_time("0001-01-01T00:00:00Z"), None);
    assert_eq!(parse_docker_time(""), None);
    assert_eq!(parse_docker_time("not a time"), None);
}

#[test]
fn start_of_1970_stands_for_never() {
    assert_eq!(docker_start(epoch()), None);
    let second = Timestamp::new(1, 0).unwrap();
    assert_eq!(docker_start(second), Some(second));
    assert_eq!(parse_docker_time(" 1970-01-01T01:00:01+01:00\n"), Some(second));
}

fn row(id: &str, service: &str, state: &str, status: &str, image: &str) -> PsRow {
    PsRow {
        id: id.to_string(),
        service: service.to_string(),
        state: state.to_string(),
        status: status.to_string(),
        image: image.to_string(),
    }
}

fn compose() -> Compose {
    let mut services = TextMap::new();
    let mut labels = TextMap::new();
    labels.insert("co.architect.composer.run".to_string(), "0 0 2 * * *".to_string());
    services.insert(
        "backup".to_string(),
        Some(Service { image: Some("tool:1.0".to_string()), labels: Some(labels), profiles: None }),
    );
    services.insert(
        "zoo".to_string(),
        Some(Service { image: None, labels: None, profiles: Some(vec![]) }),
    );
    services.insert(
        "app".to_string(),
        Some(Service {
            image: None,
            labels: None,
            profiles: Some(vec!["web".to_string(), "other".to_string()]),
        }),
    );
    services.insert("empty".to_string(), None);
    Compose { services }
}

#[test]
fn status_data_is_gathered() {
    let rows = vec![
        row("aa11", "zoo", "exited", "Exited (0) 5 minutes ago", "zoo:main"),
        row("bb22", "app", "running", "Up 3 hours (healthy)", "app:main"),
        row("", "ghost", "running", "Up 1 second", "x"),
    ];
    let ids = container_ids(&rows);
    let cmd = inspect_command(&ids).unwrap();
    assert_eq!(cmd.program, "docker");
    assert_eq!(
        cmd.args,
        vec![
            "inspect",
            "--type",
            "container",
            "--format",
            "{{.Id}}\t{{.State.StartedAt}}\t{{.Image}}\t{{index .Config.Labels \"org.opencontainers.image.version\"}}",
            "aa11",
            "bb22",
        ]
    );
    let details = parse_inspect(
        "bb22ffff\t2026-08-21T20:58:12Z\tsha256:102dbfdde2da60d2b8ec\t<no value>\nbroken\ncc\t\timg",
    );
    assert_eq!(details.len(), 2);
    let (infos, map) = gather_status_data(&compose(), None, rows, details);
    let shown: Vec<(&str, &str, &str)> = infos
        .iter()
        .map(|i| (i.profile.as_str(), i.name.as_str(), i.service_type.as_str()))
        .collect();
    assert_eq!(
        shown,
        vec![("", "backup", "job"), ("", "zoo", "service"), ("web", "app", "service")]
    );
    assert!(infos.iter().all(|i| i.history == RunHistory::Unknown));
    let app = map.get("app").unwrap();
    assert_eq!(app.started_at, parse_docker_time("2026-08-21T20:58:12Z"));
    assert_eq!(app.image_id.as_deref(), Some("sha256:102dbfdde2da60d2b8ec"));
    assert_eq!(app.image_version_label, None);
    assert_eq!(app.state, "running");
    assert_eq!(map.get("zoo").unwrap().image_id, None);
    assert_eq!(map.get("ghost").unwrap().image, "x");

    match format_status_table(&infos, &map, epoch()) {
        StatusTable::Table { titles, rows } => {
            assert_eq!(titles, vec!["Profile", "Name", "Type", "Status", "Version", "Started"]);
            assert_eq!(rows.len(), 3);
            assert_eq!(rows[0].status, "JOB");
            assert_eq!(rows[0].color, None);
            assert_eq!(rows[0].version, "1.0");
            assert_eq!(rows[0].started, "unknown");
            assert_eq!(rows[1].status, "DOWN");
            assert_eq!(rows[1].color, Some(StatusColor::Red));
            assert_eq!(rows[1].version, "main");
            assert_eq!(rows[2].status, "UP (3h)");
            assert_eq!(rows[2].color, Some(StatusColor::Green));
            assert_eq!(rows[2].version, "main (102dbfdde2da)");
            assert!(rows[2].started.starts_with("2026-08-2"));
        }
        StatusTable::Text(text) => panic!("{text}"),
    }
}

#[test]
fn jobs_that_run_are_marked() {
    let infos = vec![service("job", None, RunHistory::Never)];
    let mut map = TextMap::new();
    map.insert(
        "svc".to_string(),
        ContainerStatus { state: "running".to_string(), ..Default::default() },
    );
    match format_status_table(&infos, &map, epoch()) {
        StatusTable::Table { rows, .. } => {
            assert_eq!(rows[0].status, "JOB_RUNNING");
            assert_eq!(rows[0].color, Some(StatusColor::Green));
        }
        StatusTable::Text(text) => panic!("{text}"),
    }
}

#[test]
fn without_services_there_is_no_table() {
    match format_status_table(&vec![], &TextMap::new(), epoch()) {
        StatusTable::Text(text) => assert_eq!(text, "No services found in compose file.\n"),
        StatusTable::Table { .. } => panic!("a table"),
    }
    assert!(inspect_command(&container_ids(&vec![])).is_none());
}

#[test]
fn ps_lists_all_containers() {
    let context = ComposeContext {
        compose_file: "c.yml".to_string(),
        env_file: None,
        project_directory: None,
        hostname: "h".to_string(),
    };
    assert_eq!(
        ps_command(&context).args,
        vec!["compose", "-f", "c.yml", "ps", "--all", "--format", "json"]
    );
}

#[test]
fn short_table_tells_what_runs() {
    let state = |service: &str, state: &str| ServiceState {
        service: service.to_string(),
        state: state.to_string(),
    };
    let states = vec![state("app", "running"), state("backup", "exited"), state("zoo", "paused")];
    match short_table(&compose(), &states) {
        ShortTable::Table { titles, rows } => {
            assert_eq!(titles, vec!["Profile", "Name", "Type", "Status"]);
            let shown: Vec<(&str, &str, &str)> = rows
                .iter()
                .map(|r| (r.name.as_str(), r.service_type.as_str(), r.status.as_str()))
                .collect();
            assert_eq!(
                shown,
                vec![
                    ("app", "service", "UP"),
                    ("backup", "job", "FINISHED"),
                    ("zoo", "service", "DOWN")
                ]
            );
            assert_eq!(rows[0].color, Some(StatusColor::Green));
            assert_eq!(rows[1].color, None);
            assert_eq!(rows[2].color, Some(StatusColor::Red));
        }
        ShortTable::Text(text) => panic!("{text}"),
    }
    match short_table(&compose(), &vec![state("backup", "running")]) {
        ShortTable::Table { rows, .. } => {
            assert_eq!(rows[1].status, "RUNNING");
            assert_eq!(rows[1].color, Some(StatusColor::Green));
        }
        ShortTable::Text(text) => panic!("{text}"),
    }
    match short_table(&Compose { services: TextMap::new() }, &states) {
        ShortTable::Text(text) => assert_eq!(text, "No services found in compose file."),
        ShortTable::Table { .. } => panic!("a table"),
    }
}
