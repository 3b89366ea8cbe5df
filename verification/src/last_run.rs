//! Record of when each service was last run or restarted.
//!
//! Scheduled runs use `docker compose run --rm`, so once a job finishes no
//! container remains for `status` to inspect.  The scheduler therefore keeps
//! its own record, keyed by the compose file's path on the host (see
//! [`project_key`]) and service name.  Both the scheduler (which writes it)
//! and `status` (which reads it) arrive at the same key, so the one can tell
//! "never ran" from "no idea".

use vstd::prelude::*;
use vstd::string::*;
use crate::compose::{action_name, ComposeAction, ComposeContext};
use crate::paths::{
    file_name, file_name_of, join_path, law_file_name_is_the_last_component, path_join, plain_name,
};
use crate::text::{decimal, str_opt, text_opt, to_decimal_u64};
use crate::text_map::{has_key, lookup, map_of, TextMap};
use crate::time::Timestamp;

verus! {

/// Environment variable overriding the directory the record is kept in.
pub const STATE_DIR_ENV: &'static str = "COMPOSER_STATE_DIR";

/// The name of the file that holds the record.
pub const FILE_NAME: &'static str = "last-runs.json";

/// One run or restart of a service.
#[derive(Debug, PartialEq)]
pub struct LastRun {
    /// What was done: `run` or `restart`
    pub action: String,
    pub started_at: Timestamp,
    pub finished_at: Option<Timestamp>,
    /// None while the command is still running
    pub success: Option<bool>,
}

impl LastRun {
    /// The same run again.
    pub fn copy(&self) -> (r: LastRun)
        ensures
            r == *self,
    {
        LastRun {
            action: self.action.clone(),
            started_at: self.started_at,
            finished_at: self.finished_at,
            success: self.success,
        }
    }
}

/// What is known about a service's run history.
#[derive(Debug, PartialEq)]
pub enum RunHistory {
    /// No record for this compose project: no scheduler has registered it on
    /// this host, so nothing can be said either way.
    Unknown,
    /// The project is registered but this service was never run.
    Never,
    /// The service was not run since the record begins, at the given time.
    NotSince(Timestamp),
    /// The last run.
    Last(LastRun),
}

/// The record: the last run of each service of each compose project, the
/// project by its key.
pub struct Records {
    pub projects: TextMap<TextMap<LastRun>>,
}

/// Whether a project is registered.
pub open spec fn registered(records: Records, project: Seq<char>) -> bool {
    has_key(records.projects@, project)
}

/// The last run of each service of a project.
pub open spec fn runs_of(records: Records, project: Seq<char>) -> Map<Seq<char>, LastRun> {
    match lookup(records.projects@, project) {
        Some(runs) => map_of(runs@),
        None => Map::empty(),
    }
}

/// Whether two records differ at most in the one project.
pub open spec fn same_elsewhere(a: Records, b: Records, project: Seq<char>) -> bool {
    map_of(a.projects@).remove(project) == map_of(b.projects@).remove(project)
}

/// `after` is `before` with the project registered.
pub open spec fn registration(before: Records, after: Records, project: Seq<char>) -> bool {
    &&& registered(after, project)
    &&& runs_of(after, project) == runs_of(before, project)
    &&& same_elsewhere(before, after, project)
}

/// `after` is `before` with a run of the service that has just begun.
pub open spec fn start(
    before: Records,
    after: Records,
    project: Seq<char>,
    service: Seq<char>,
    action: ComposeAction,
    at: Timestamp,
) -> bool {
    let runs = runs_of(after, project);
    &&& registered(after, project)
    &&& runs.dom() == runs_of(before, project).dom().insert(service)
    &&& runs.remove(service) == runs_of(before, project).remove(service)
    &&& runs[service].action@ == action_name(action)
    &&& runs[service].started_at == at
    &&& runs[service].finished_at is None
    &&& runs[service].success is None
    &&& same_elsewhere(before, after, project)
}

/// `after` is `before` with the end of the service's run, where it has one.
pub open spec fn finish(
    before: Records,
    after: Records,
    project: Seq<char>,
    service: Seq<char>,
    at: Timestamp,
    success: bool,
) -> bool {
    &&& registered(after, project)
    &&& runs_of(after, project) == (if runs_of(before, project).dom().contains(service) {
        let run = runs_of(before, project)[service];
        runs_of(before, project).insert(
            service,
            (LastRun { finished_at: Some(at), success: Some(success), ..run }),
        )
    } else {
        runs_of(before, project)
    })
    &&& same_elsewhere(before, after, project)
}

/// The history of a service in the runs of its project, if that is registered.
pub open spec fn history_of(
    runs: Option<Map<Seq<char>, LastRun>>,
    service: Seq<char>,
) -> RunHistory {
    match runs {
        None => RunHistory::Unknown,
        Some(runs) => if runs.dom().contains(service) {
            RunHistory::Last(runs[service])
        } else {
            RunHistory::Never
        },
    }
}

/// The history of a service in the record.
pub open spec fn recorded_history(
    records: Records,
    project: Seq<char>,
    service: Seq<char>,
) -> RunHistory {
    history_of(
        if registered(records, project) {
            Some(runs_of(records, project))
        } else {
            None
        },
        service,
    )
}

/// Takes a project's runs out of the record: none where it is not registered.
fn take_runs(records: &mut Records, project: &str) -> (runs: TextMap<LastRun>)
    ensures
        map_of(runs@) == runs_of(*old(records), project@),
        map_of(final(records).projects@) == map_of(old(records).projects@).remove(project@),
{
    match records.projects.remove(project) {
        Some(runs) => runs,
        None => {
            let runs = TextMap::new();
            assert(map_of(runs@) =~= Map::empty());
            runs
        },
    }
}

/// Puts a project's runs into the record.
fn put_runs(records: &mut Records, project: &str, runs: TextMap<LastRun>)
    ensures
        registered(*final(records), project@),
        runs_of(*final(records), project@) == map_of(runs@),
        map_of(final(records).projects@) == map_of(old(records).projects@).insert(project@, runs),
{
    records.projects.insert(project.to_owned(), runs);
    proof {
        assert(map_of(records.projects@).dom().contains(project@));
    }
}

/// Registers a compose project so its services report `never` rather than
/// `unknown` until they first run.  Called when the scheduler starts.
pub fn register_project(records: &mut Records, project: &str)
    ensures
        registration(*old(records), *final(records), project@),
{
    let ghost before = *records;
    let runs = take_runs(records, project);
    put_runs(records, project, runs);
    assert(map_of(records.projects@).remove(project@) =~= map_of(before.projects@).remove(
        project@,
    ));
}

/// Records that a run of the service has begun.
pub fn record_started(
    records: &mut Records,
    project: &str,
    service: &str,
    action: ComposeAction,
    at: Timestamp,
)
    ensures
        start(*old(records), *final(records), project@, service@, action, at),
{
    let ghost before = *records;
    let mut runs = take_runs(records, project);
    let ghost was = map_of(runs@);
    let run = LastRun {
        action: action.name().to_owned(),
        started_at: at,
        finished_at: None,
        success: None,
    };
    runs.insert(service.to_owned(), run);
    put_runs(records, project, runs);
    proof {
        assert(map_of(records.projects@).remove(project@) =~= map_of(before.projects@).remove(
            project@,
        ));
        let now = runs_of(*records, project@);
        assert(now.dom() =~= was.dom().insert(service@));
        assert(now.remove(service@) =~= was.remove(service@));
    }
}

/// Records that the run of the service has ended, where one was recorded.
pub fn record_finished(
    records: &mut Records,
    project: &str,
    service: &str,
    at: Timestamp,
    success: bool,
)
    ensures
        finish(*old(records), *final(records), project@, service@, at, success),
{
    let ghost before = *records;
    let mut runs = take_runs(records, project);
    let ghost was = map_of(runs@);
    match runs.remove(service) {
        Some(run) => {
            let ended = LastRun {
                action: run.action,
                started_at: run.started_at,
                finished_at: Some(at),
                success: Some(success),
            };
            runs.insert(service.to_owned(), ended);
            proof {
                assert(was.dom().contains(service@));
                assert(map_of(runs@) =~= was.insert(service@, ended));
            }
        },
        None => {
            proof {
                assert(!was.dom().contains(service@));
                assert(map_of(runs@) =~= was);
            }
        },
    }
    put_runs(records, project, runs);
    assert(map_of(records.projects@).remove(project@) =~= map_of(before.projects@).remove(
        project@,
    ));
}

/// Run history for every service in this compose project, or None if the
/// project has never been registered on this host.
pub fn load<'a>(records: &'a Records, project: &str) -> (r: Option<&'a TextMap<LastRun>>)
    ensures
        r is Some <==> registered(*records, project@),
        r matches Some(runs) ==> map_of(runs@) == runs_of(*records, project@),
{
    records.projects.get(project)
}

/// Looks up one service's history in the result of [`load`].
pub fn history(records: Option<&TextMap<LastRun>>, service: &str) -> (r: RunHistory)
    ensures
        r == history_of(
            match records {
                Some(runs) => Some(map_of(runs@)),
                None => None,
            },
            service@,
        ),
{
    match records {
        None => RunHistory::Unknown,
        Some(runs) => match runs.get(service) {
            Some(run) => {
                assert(map_of(runs@).dom().contains(service@));
                RunHistory::Last(run.copy())
            },
            None => {
                assert(!map_of(runs@).dom().contains(service@));
                RunHistory::Never
            },
        },
    }
}

/// A service that was just started reads as its last run, not yet ended.
pub proof fn law_started_reads_back(
    before: Records,
    after: Records,
    project: Seq<char>,
    service: Seq<char>,
    action: ComposeAction,
    at: Timestamp,
)
    requires
        start(before, after, project, service, action, at),
    ensures
        recorded_history(after, project, service) matches RunHistory::Last(run) && run.action@
            == action_name(action) && run.started_at == at && run.finished_at is None && run.success
            is None,
{
}

/// A service that was started and then finished reads as that run, with its
/// end and outcome.
pub proof fn law_finished_reads_back(
    before: Records,
    running: Records,
    after: Records,
    project: Seq<char>,
    service: Seq<char>,
    action: ComposeAction,
    started_at: Timestamp,
    finished_at: Timestamp,
    success: bool,
)
    requires
        start(before, running, project, service, action, started_at),
        finish(running, after, project, service, finished_at, success),
    ensures
        recorded_history(after, project, service) matches RunHistory::Last(run) && run.action@
            == action_name(action) && run.started_at == started_at && run.finished_at == Some(
            finished_at,
        ) && run.success == Some(success),
{
}

/// In a project that was registered, a service that no run is recorded of
/// reads as never run, and not as unknown.
pub proof fn law_registered_reads_never(
    before: Records,
    after: Records,
    project: Seq<char>,
    service: Seq<char>,
)
    requires
        registration(before, after, project),
    ensures
        !(recorded_history(after, project, service) is Unknown),
        !runs_of(before, project).dom().contains(service) ==> recorded_history(
            after,
            project,
            service,
        ) is Never,
{
}

/// What is recorded of one service changes the history of no other service of
/// a registered project.
pub proof fn law_other_services_keep_their_history(
    before: Records,
    after: Records,
    project: Seq<char>,
    service: Seq<char>,
    other: Seq<char>,
)
    requires
        registered(before, project),
        service != other,
        (exists|action: ComposeAction, at: Timestamp|
            start(before, after, project, service, action, at)) || (exists|
            at: Timestamp,
            success: bool,
        |
            finish(before, after, project, service, at, success)),
    ensures
        recorded_history(after, project, other) == recorded_history(before, project, other),
{
    let a = runs_of(before, project).remove(service);
    let b = runs_of(after, project).remove(service);
    assert(a =~= b);
    assert(a.dom().contains(other) == runs_of(before, project).dom().contains(other));
    assert(b.dom().contains(other) == runs_of(after, project).dom().contains(other));
    assert(a.dom().contains(other) ==> a[other] == b[other]);
}

/// What is recorded of one project changes the history in no other project.
pub proof fn law_other_projects_keep_their_history(
    before: Records,
    after: Records,
    project: Seq<char>,
    other: Seq<char>,
    service: Seq<char>,
)
    requires
        same_elsewhere(before, after, project),
        project != other,
    ensures
        recorded_history(after, other, service) == recorded_history(before, other, service),
{
    let a = map_of(before.projects@).remove(project);
    let b = map_of(after.projects@).remove(project);
    assert(a.dom().contains(other) == has_key(before.projects@, other));
    assert(b.dom().contains(other) == has_key(after.projects@, other));
    assert(a.dom().contains(other) ==> a[other] == b[other]);
}

/// The end of a run keeps what was recorded of its start.  Where no run is
/// recorded, none comes up.
pub proof fn law_ends_keep_the_start(
    before: Records,
    after: Records,
    project: Seq<char>,
    service: Seq<char>,
    at: Timestamp,
    success: bool,
)
    requires
        finish(before, after, project, service, at, success),
    ensures
        recorded_history(before, project, service) matches RunHistory::Last(was) ==> (
        recorded_history(after, project, service) matches RunHistory::Last(run) && run.action
            == was.action && run.started_at == was.started_at && run.finished_at == Some(at)
            && run.success == Some(success)),
        !(recorded_history(before, project, service) is Last) ==> recorded_history(
            after,
            project,
            service,
        ) is Never,
{
}

/// Registering a project anew changes no history in it.
pub proof fn law_registering_keeps_the_history(
    before: Records,
    after: Records,
    project: Seq<char>,
    service: Seq<char>,
)
    requires
        registration(before, after, project),
    ensures
        registered(before, project) ==> recorded_history(after, project, service)
            == recorded_history(before, project, service),
        !registered(before, project) ==> recorded_history(before, project, service) is Unknown
            && recorded_history(after, project, service) is Never,
{
}

/// A run that begins takes the place of the one before it, whatever became of
/// that.
pub proof fn law_the_last_run_counts(
    before: Records,
    between: Records,
    after: Records,
    project: Seq<char>,
    service: Seq<char>,
    first: ComposeAction,
    first_at: Timestamp,
    second: ComposeAction,
    second_at: Timestamp,
)
    requires
        start(before, between, project, service, first, first_at),
        start(between, after, project, service, second, second_at),
    ensures
        recorded_history(after, project, service) matches RunHistory::Last(run) && run.started_at
            == second_at && run.action@ == (if second == ComposeAction::Run {
            "run"@
        } else {
            "restart"@
        }) && run.finished_at is None && run.success is None,
{
}

// ---------------------------------------------------------------------------
// Where the record is, and under which key
// ---------------------------------------------------------------------------

/// What of the environment decides where state is kept.
#[derive(Debug)]
pub struct StateEnv {
    /// The value of `COMPOSER_STATE_DIR`
    pub state_dir: Option<String>,
    /// The value of `XDG_STATE_HOME`
    pub xdg_state_home: Option<String>,
    /// The value of `HOME`
    pub home: Option<String>,
    /// Whether the platform is macOS
    pub macos: bool,
}

/// A variable's value, where it is set and not empty.
pub open spec fn set_value(value: Option<String>) -> Option<Seq<char>> {
    match value {
        Some(v) => if v@.len() == 0 {
            None
        } else {
            Some(v@)
        },
        None => None,
    }
}

/// The directory that holds the state.
pub open spec fn state_dir_of(env: StateEnv) -> Option<Seq<char>> {
    match (set_value(env.state_dir), set_value(env.xdg_state_home), set_value(env.home)) {
        (Some(dir), _, _) => Some(dir),
        (None, Some(xdg), _) if !env.macos => Some(path_join(xdg, "composer"@)),
        (None, _, Some(home)) => Some(
            path_join(
                home,
                if env.macos {
                    "Library/Application Support/composer"@
                } else {
                    ".local/state/composer"@
                },
            ),
        ),
        _ => None,
    }
}

/// The value of a variable, where it is set and not empty.
fn nonempty(value: &Option<String>) -> (r: Option<&str>)
    ensures
        str_opt(r) == set_value(*value),
{
    match value {
        Some(v) => if v.as_str().is_empty() {
            None
        } else {
            Some(v.as_str())
        },
        None => None,
    }
}

/// Directory holding the state.  `COMPOSER_STATE_DIR` wins; otherwise the
/// platform convention (`~/Library/Application Support` on macOS,
/// `$XDG_STATE_HOME` or `~/.local/state` elsewhere).
pub fn state_dir(env: &StateEnv) -> (r: Option<String>)
    ensures
        text_opt(r) == state_dir_of(*env),
{
    if let Some(dir) = nonempty(&env.state_dir) {
        return Some(dir.to_owned());
    }
    if env.macos {
        return match nonempty(&env.home) {
            Some(home) => Some(join_path(home, "Library/Application Support/composer")),
            None => None,
        };
    }
    if let Some(dir) = nonempty(&env.xdg_state_home) {
        return Some(join_path(dir, "composer"));
    }
    match nonempty(&env.home) {
        Some(home) => Some(join_path(home, ".local/state/composer")),
        None => None,
    }
}

/// The path of the file that holds the record.
pub fn records_path(env: &StateEnv) -> (r: Option<String>)
    ensures
        text_opt(r) == (match state_dir_of(*env) {
            Some(dir) => Some(path_join(dir, FILE_NAME@)),
            None => None,
        }),
{
    match state_dir(env) {
        Some(dir) => Some(join_path(dir.as_str(), FILE_NAME)),
        None => None,
    }
}

/// The name of the file that a new record is written to before it takes the
/// place of the old one.
pub fn temp_file_name(process_id: u32) -> (r: String)
    ensures
        r@ == "."@ + FILE_NAME@ + "."@ + decimal(process_id as int) + ".tmp"@,
{
    let mut r: String = ".".to_owned();
    r.append(FILE_NAME);
    r.append(".");
    r.append(to_decimal_u64(process_id as u64).as_str());
    r.append(".tmp");
    r
}

/// The project directory and the name of the compose file, where both are
/// given.
pub open spec fn project_parts(context: ComposeContext) -> Option<(Seq<char>, Seq<char>)> {
    match (set_value(context.project_directory), file_name_of(context.compose_file@)) {
        (Some(dir), Some(name)) => Some((dir, name)),
        _ => None,
    }
}

/// The path that has to be canonicalized to find the key of a project.
pub open spec fn key_path(context: ComposeContext) -> Seq<char> {
    match project_parts(context) {
        Some((dir, _)) => dir,
        None => context.compose_file@,
    }
}

/// The key of a project, from the canonical form of its key path: the path
/// itself where it has none.
pub open spec fn key_of(context: ComposeContext, canonical: Option<Seq<char>>) -> Seq<char> {
    let base = match canonical {
        Some(c) => c,
        None => key_path(context),
    };
    match project_parts(context) {
        Some((_, name)) => path_join(base, name),
        None => base,
    }
}

/// The path that has to be canonicalized before [`project_key`] is asked.
pub fn canonical_path(context: &ComposeContext) -> (r: String)
    ensures
        r@ == key_path(*context),
{
    match (nonempty(&context.project_directory), file_name(context.compose_file.as_str())) {
        (Some(dir), Some(_)) => dir.to_owned(),
        _ => context.compose_file.clone(),
    }
}

/// The key a compose project is recorded under: the path of its compose
/// file *on the host*.
///
/// Normally that is the canonical compose file path, so the scheduler (which
/// canonicalizes) and `status` (which may not) agree.  When a project
/// directory is set, the key is that directory plus the compose file's name
/// instead.  A scheduler running in a container sees the compose file at a
/// mount path like `/compose.yml`, but is told the host's project directory,
/// so this gives it the same key as a `status` run on the host against the
/// real file.
///
/// `canonical` is the canonical form of [`canonical_path`], where it has one.
pub fn project_key(context: &ComposeContext, canonical: Option<&str>) -> (r: String)
    ensures
        r@ == key_of(*context, str_opt(canonical)),
{
    let base: String = match canonical {
        Some(c) => c.to_owned(),
        None => canonical_path(context),
    };
    match (nonempty(&context.project_directory), file_name(context.compose_file.as_str())) {
        (Some(_), Some(name)) => join_path(base.as_str(), name),
        _ => base,
    }
}

/// A scheduler in a container, which is told the project directory on the
/// host, and a `status` on the host, which is given the compose file in that
/// directory, arrive at the same key.  (The canonical path of the file is
/// that of the directory with the name below it.)
pub proof fn law_container_and_host_agree(
    in_container: ComposeContext,
    on_host: ComposeContext,
    dir: Seq<char>,
    name: Seq<char>,
    canonical_dir: Option<Seq<char>>,
)
    requires
        project_parts(in_container) == Some((dir, name)),
        project_parts(on_host) is None,
        on_host.compose_file@ == path_join(dir, name),
    ensures
        key_of(in_container, canonical_dir) == key_of(
            on_host,
            match canonical_dir {
                Some(c) => Some(path_join(c, name)),
                None => None,
            },
        ),
{
}

/// The state is kept where `COMPOSER_STATE_DIR` tells, else where the platform
/// keeps it: on macOS below the home directory, elsewhere below
/// `XDG_STATE_HOME` or else below the home directory.  An empty variable counts
/// as none.
pub proof fn law_state_directories(env: StateEnv)
    ensures
        ({
            let told = env.state_dir is Some && env.state_dir->Some_0@.len() > 0;
            let xdg = env.xdg_state_home is Some && env.xdg_state_home->Some_0@.len() > 0;
            let home = env.home is Some && env.home->Some_0@.len() > 0;
            let dir = state_dir_of(env);
            &&& told ==> dir == Some(env.state_dir->Some_0@)
            &&& !told && env.macos && home ==> dir == Some(
                path_join(env.home->Some_0@, "Library/Application Support/composer"@),
            )
            &&& !told && env.macos && !home ==> dir is None
            &&& !told && !env.macos && xdg ==> dir == Some(
                path_join(env.xdg_state_home->Some_0@, "composer"@),
            )
            &&& !told && !env.macos && !xdg && home ==> dir == Some(
                path_join(env.home->Some_0@, ".local/state/composer"@),
            )
            &&& !told && !env.macos && !xdg && !home ==> dir is None
        }),
{
}

/// The key of a project is the canonical path of its compose file.  Where a
/// project directory is given, it is the name of the compose file below the
/// canonical path of that directory.  What has no canonical path stands for
/// itself.
pub proof fn law_keys_are_paths_of_compose_files(
    context: ComposeContext,
    dir: Seq<char>,
    name: Seq<char>,
    canonical: Seq<char>,
)
    requires
        plain_name(name),
        context.compose_file@ == path_join(dir, name),
    ensures
        ({
            let given = context.project_directory is Some
                && context.project_directory->Some_0@.len() > 0;
            &&& given ==> key_path(context) == context.project_directory->Some_0@
            &&& given ==> key_of(context, Some(canonical)) == path_join(canonical, name)
            &&& given ==> key_of(context, None) == path_join(
                context.project_directory->Some_0@,
                name,
            )
            &&& !given ==> key_path(context) == context.compose_file@
            &&& !given ==> key_of(context, Some(canonical)) == canonical
            &&& !given ==> key_of(context, None) == context.compose_file@
        }),
{
    law_file_name_is_the_last_component(dir, name);
}

/// What was recorded last of a service is what is read of it, and what was not
/// recorded is not read.
pub proof fn law_record_is_read(
    records: Records,
    project: &str,
    service: &str,
    runs: Option<&TextMap<LastRun>>,
    read: RunHistory,
)
    requires
        call_ensures(load, (&records, project), runs),
        call_ensures(history, (runs, service), read),
    ensures
        read is Unknown <==> !registered(records, project@),
        read matches RunHistory::Last(run) ==> runs_of(records, project@).dom().contains(service@)
            && run == runs_of(records, project@)[service@],
        read is Never <==> registered(records, project@) && !runs_of(
            records,
            project@,
        ).dom().contains(service@),
{
}

/// A start and an end that are recorded are read back, with the outcome.
pub proof fn law_runs_are_recorded(
    records: &mut Records,
    project: &str,
    service: &str,
    action: ComposeAction,
    at: Timestamp,
)
    requires
        call_ensures(record_started, (records, project, service, action, at), ()),
    ensures
        recorded_history(*final(records), project@, service@) matches RunHistory::Last(run)
            && run.started_at == at && run.finished_at is None && run.success is None && run.action@
            == (if action == ComposeAction::Run {
            "run"@
        } else {
            "restart"@
        }),
{
}

/// The end of a run is recorded with its outcome, and keeps the start.
pub proof fn law_ends_are_recorded(
    records: &mut Records,
    project: &str,
    service: &str,
    at: Timestamp,
    success: bool,
)
    requires
        call_ensures(record_finished, (records, project, service, at, success), ()),
    ensures
        recorded_history(*old(records), project@, service@) matches RunHistory::Last(was) ==> (
        recorded_history(*final(records), project@, service@) matches RunHistory::Last(run)
            && run.action == was.action && run.started_at == was.started_at && run.finished_at
            == Some(at) && run.success == Some(success)),
        !(recorded_history(*old(records), project@, service@) is Last) ==> recorded_history(
            *final(records),
            project@,
            service@,
        ) is Never,
{
    law_ends_keep_the_start(*old(records), *final(records), project@, service@, at, success);
}

/// The record is a file of that name in the directory for state, and a new one is
/// written beside it under a name that tells the process.
pub proof fn law_files_of_the_record(
    env: StateEnv,
    path: Option<String>,
    process_id: u32,
    temp: String,
)
    requires
        call_ensures(records_path, (&env,), path),
        call_ensures(temp_file_name, (process_id,), temp),
    ensures
        path is Some <==> state_dir_of(env) is Some,
        path matches Some(p) ==> p@ == path_join(state_dir_of(env)->Some_0, "last-runs.json"@),
        ("."@ + "last-runs.json"@ + "."@).is_prefix_of(temp@),
        ".tmp"@.is_suffix_of(temp@),
        temp@.len() == ("."@ + "last-runs.json"@ + "."@).len() + decimal(process_id as int).len()
            + ".tmp"@.len(),
{
    let head = "."@ + "last-runs.json"@ + "."@;
    let t = temp@;
    assert(t.subrange(0, head.len() as int) =~= head);
    assert(t.subrange(t.len() - ".tmp"@.len(), t.len() as int) =~= ".tmp"@);
}

/// A compose file that has no name of its own is recorded under its canonical
/// path, and so is one for which no project directory is given.
pub proof fn law_keys_without_a_name(context: ComposeContext, canonical: Option<Seq<char>>)
    requires
        file_name_of(context.compose_file@) is None || context.project_directory is None,
    ensures
        key_path(context) == context.compose_file@,
        canonical matches Some(c) ==> key_of(context, canonical) == c,
        canonical is None ==> key_of(context, canonical) == context.compose_file@,
{
}

} // verus!
