use chrono::{DateTime, TimeZone, Utc};
use composer::compose::{ComposeAction, ComposeContext};
use composer::last_run::{
    canonical_path, history, load, project_key, record_finished, record_started, records_path,
    register_project, state_dir, temp_file_name, LastRun, Records, RunHistory, StateEnv,
};
use composer::paths::{file_name, join_path, same_path};
use composer::text_map::TextMap;
use composer::time::Timestamp;
use std::path::Path;

fn at(t: DateTime<Utc>) -> Timestamp {
    Timestamp::new(t.timestamp(), t.timestamp_subsec_nanos()).unwrap()
}

fn run() -> LastRun {
    LastRun {
        action: "run".to_string(),
        started_at: at(Utc.with_ymd_and_hms(2026, 8, 26, 10, 15, 0).unwrap()),
        finished_at: Some(at(Utc.with_ymd_and_hms(2026, 8, 26, 10, 16, 0).unwrap())),
        success: Some(true),
    }
}

#[test]
fn history_distinguishes_unknown_never_and_last() {
    assert_eq!(history(None, "backup"), RunHistory::Unknown);
    let mut project = TextMap::new();
    assert_eq!(history(Some(&project), "backup"), RunHistory::Never);
    project.insert("backup".to_string(), run());
    assert_eq!(history(Some(&project), "backup"), RunHistory::Last(run()));
    assert_eq!(history(Some(&project), "other"), RunHistory::Never);
}

fn context(compose_file: &str, project_directory: Option<&str>) -> ComposeContext {
    ComposeContext {
        compose_file: compose_file.to_string(),
        env_file: None,
        project_directory: project_directory.map(str::to_string),
        hostname: "test".to_string(),
    }
}

/// The key where nothing can be canonicalized.
fn key(context: &ComposeContext) -> String {
    project_key(context, None)
}

#[test]
fn project_key_uses_host_project_directory() {
    // no project directory: the compose file's own path
    assert_eq!(
        key(&context("/nonexistent/app/compose.yml", None)),
        "/nonexistent/app/compose.yml"
    );
    assert_eq!(
        key(&context("/nonexistent/app/compose.yml", Some(""))),
        "/nonexistent/app/compose.yml"
    );
    // in a container the file is at a mount path, but the project
    // directory names where it lives on the host...
    let in_container = context("/compose.yml", Some("/nonexistent/app"));
    assert_eq!(key(&in_container), "/nonexistent/app/compose.yml");
    // ...which is the key `composer status` on the host arrives at
    let on_host = context("/nonexistent/app/compose.yml", None);
    assert_eq!(key(&in_container), key(&on_host));
    // a trailing slash on the directory doesn't change the key
    assert_eq!(
        key(&context("/compose.yml", Some("/nonexistent/app/"))),
        "/nonexistent/app/compose.yml"
    );
}

#[test]
fn project_key_uses_canonical_paths() {
    let in_container = context("/compose.yml", Some("./app"));
    assert_eq!(canonical_path(&in_container), "./app");
    assert_eq!(project_key(&in_container, Some("/srv/app")), "/srv/app/compose.yml");
    let on_host = context("app/compose.yml", None);
    assert_eq!(canonical_path(&on_host), "app/compose.yml");
    assert_eq!(project_key(&on_host, Some("/srv/app/compose.yml")), "/srv/app/compose.yml");
    // without a file name the directory does not help
    let odd = context("/", Some("/srv"));
    assert_eq!(canonical_path(&odd), "/");
    assert_eq!(project_key(&odd, None), "/");
}

fn env(state: Option<&str>, xdg: Option<&str>, home: Option<&str>, macos: bool) -> StateEnv {
    StateEnv {
        state_dir: state.map(str::to_string),
        xdg_state_home: xdg.map(str::to_string),
        home: home.map(str::to_string),
        macos,
    }
}

#[test]
fn state_dir_prefers_env_override() {
    let dir = state_dir(&env(Some("/var/lib/x"), Some("/xdg"), Some("/home/u"), false));
    assert_eq!(dir.as_deref(), Some("/var/lib/x"));
    let dir = state_dir(&env(None, None, Some("/home/u"), false)).expect("HOME is set in tests");
    assert!(dir.ends_with("composer"), "{dir}");
}

#[test]
fn state_dir_follows_the_platform() {
    assert_eq!(
        state_dir(&env(Some(""), Some("/xdg"), Some("/home/u"), false)).as_deref(),
        Some("/xdg/composer")
    );
    assert_eq!(
        state_dir(&env(None, Some(""), Some("/home/u"), false)).as_deref(),
        Some("/home/u/.local/state/composer")
    );
    assert_eq!(
        state_dir(&env(None, Some("/xdg"), Some("/Users/u"), true)).as_deref(),
        Some("/Users/u/Library/Application Support/composer")
    );
    assert_eq!(state_dir(&env(None, Some("/xdg"), None, true)), None);
    assert_eq!(state_dir(&env(None, None, Some(""), false)), None);
    assert_eq!(
        records_path(&env(Some("/s"), None, None, false)).as_deref(),
        Some("/s/last-runs.json")
    );
    assert_eq!(temp_file_name(1234), ".last-runs.json.1234.tmp");
}

#[test]
fn runs_are_recorded_and_read_back() {
    let started = at(Utc.with_ymd_and_hms(2026, 8, 26, 10, 15, 0).unwrap());
    let finished = at(Utc.with_ymd_and_hms(2026, 8, 26, 10, 16, 0).unwrap());
    let mut records = Records { projects: TextMap::new() };
    assert!(load(&records, "/p").is_none());
    register_project(&mut records, "/p");
    assert_eq!(history(load(&records, "/p"), "backup"), RunHistory::Never);
    record_started(&mut records, "/p", "backup", ComposeAction::Run, started);
    assert_eq!(
        history(load(&records, "/p"), "backup"),
        RunHistory::Last(LastRun {
            action: "run".to_string(),
            started_at: started,
            finished_at: None,
            success: None,
        })
    );
    record_finished(&mut records, "/p", "backup", finished, true);
    assert_eq!(history(load(&records, "/p"), "backup"), RunHistory::Last(run()));
    // other services and projects are as they were
    assert_eq!(history(load(&records, "/p"), "other"), RunHistory::Never);
    assert_eq!(history(load(&records, "/q"), "backup"), RunHistory::Unknown);
    // registering again loses nothing
    register_project(&mut records, "/p");
    assert_eq!(history(load(&records, "/p"), "backup"), RunHistory::Last(run()));
    // the end of a run that was not recorded is not recorded either
    record_finished(&mut records, "/q", "backup", finished, false);
    assert_eq!(history(load(&records, "/q"), "backup"), RunHistory::Never);
}

#[test]
fn paths_are_joined_and_taken_apart() {
    assert_eq!(join_path("/a", "b"), "/a/b");
    assert_eq!(join_path("/a/", "b"), "/a/b");
    assert_eq!(join_path("", "b"), "b");
    assert_eq!(join_path("/a", "/b"), "/b");
    assert_eq!(file_name("/a/b.yml"), Some("b.yml"));
    assert_eq!(file_name("/a/b/"), Some("b"));
    assert_eq!(file_name("a/."), Some("a"));
    assert_eq!(file_name("a/.."), None);
    assert_eq!(file_name("/"), None);
    assert_eq!(file_name("."), None);
}

#[test]
fn paths_are_compared_by_components() {
    assert!(same_path("a//b/./c/", "a/b/c"));
    assert!(same_path("", ""));
    assert!(!same_path("", "."));
    assert!(!same_path("./a", "a"));
    assert!(!same_path("a/../b", "b"));
    // as the standard library does, on all short paths
    let mut all = vec![String::new()];
    let mut from = 0;
    for _ in 0..5 {
        let to = all.len();
        for i in from..to {
            for c in ["/", ".", "a"] {
                all.push(format!("{}{c}", all[i]));
            }
        }
        from = to;
    }
    for a in &all {
        for b in all.iter().filter(|b| b.len() <= 4 && b.len() <= a.len()) {
            assert_eq!(same_path(a, b), Path::new(a) == Path::new(b), "{a:?} {b:?}");
        }
    }
}
