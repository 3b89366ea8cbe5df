//! `composer start|stop|restart`: control the composer daemon that was installed
//! under systemd or launchd.

use vstd::prelude::*;
use vstd::string::*;
use crate::compose::CommandLine;
use crate::install_commands::{launchd_plist_path, LAUNCHD_LABEL, PLIST_PATH, SYSTEMD_UNIT_PATH};
use crate::paths::path_join;
use crate::text::{
    decimal, holds, join, joined, law_numerals_differ, lemma_pieces_apart, lemma_pieces_of_joined,
    pieces, starts_with, str_opt, texts, to_decimal_u64,
};

verus! {

/// What is done to the daemon.
#[derive(Debug, Clone, Copy, PartialEq, Eq, Structural)]
pub enum ServiceAction {
    Start,
    Stop,
    Restart,
}

/// The verb for an action.
pub open spec fn verb(action: ServiceAction) -> Seq<char> {
    match action {
        ServiceAction::Start => "start"@,
        ServiceAction::Stop => "stop"@,
        ServiceAction::Restart => "restart"@,
    }
}

impl ServiceAction {
    /// The verb for the action.
    pub fn name(&self) -> (r: &'static str)
        ensures
            r@ == verb(*self),
    {
        match self {
            ServiceAction::Start => "start",
            ServiceAction::Stop => "stop",
            ServiceAction::Restart => "restart",
        }
    }
}

/// Which service manager composer is installed under: known by the presence of
/// the unit or the plist.
#[derive(Debug)]
pub enum ServiceManager {
    Systemd,
    Launchd { plist_path: String },
}

/// What is told where the daemon is not installed.
pub open spec fn not_installed(home: Seq<char>, macos: bool) -> Seq<char> {
    "composer is not installed as a service (no "@ + SYSTEMD_UNIT_PATH@ + " or "@ + path_join(
        home,
        PLIST_PATH@,
    ) + "); run `"@ + (if macos {
        "composer install launchd"@
    } else {
        "composer install systemd"@
    }) + "` first"@
}

/// Finds the service manager that composer is installed under.  The one that is
/// native to the platform is preferred if, improbably, both are present.
pub fn detect_service_manager(home: &str, unit_exists: bool, plist_exists: bool, macos: bool) -> (r:
    Result<ServiceManager, String>)
    ensures
        match r {
            Ok(ServiceManager::Systemd) => unit_exists && !(plist_exists && macos),
            Ok(ServiceManager::Launchd { plist_path }) => plist_exists && (macos || !unit_exists)
                && plist_path@ == path_join(home@, PLIST_PATH@),
            Err(e) => !unit_exists && !plist_exists && e@ == not_installed(home@, macos),
        },
{
    let launchd: String = launchd_plist_path(home);
    if unit_exists && plist_exists && macos {
        return Ok(ServiceManager::Launchd { plist_path: launchd });
    }
    if unit_exists {
        return Ok(ServiceManager::Systemd);
    }
    if plist_exists {
        return Ok(ServiceManager::Launchd { plist_path: launchd });
    }
    let mut e: String = "composer is not installed as a service (no ".to_owned();
    e.append(SYSTEMD_UNIT_PATH);
    e.append(" or ");
    e.append(launchd.as_str());
    e.append("); run `");
    e.append(
        if macos {
            "composer install launchd"
        } else {
            "composer install systemd"
        },
    );
    e.append("` first");
    Err(e)
}

/// What controlling the daemon takes: a command to run, or a notice that there
/// is nothing to do.
#[derive(Debug)]
pub enum Control {
    Run(CommandLine),
    Nothing(String),
}

/// The launchd domain of a user.
pub open spec fn domain(uid: u32) -> Seq<char> {
    "gui/"@ + decimal(uid as int)
}

/// The daemon in the launchd domain of a user.
pub open spec fn target(uid: u32) -> Seq<char> {
    domain(uid) + "/"@ + LAUNCHD_LABEL@
}

/// The arguments with which `launchctl` is run, if it has to be.
pub open spec fn launchctl_args(
    action: ServiceAction,
    plist_path: Seq<char>,
    uid: u32,
    loaded: bool,
) -> Option<Seq<Seq<char>>> {
    match (action, loaded) {
        // `kickstart -k` restarts a loaded service; a service that was never
        // bootstrapped (or was booted out) has to be bootstrapped instead,
        // which starts it because the plist sets RunAtLoad.
        (ServiceAction::Restart, true) => Some(seq!["kickstart"@, "-k"@, target(uid)]),
        (ServiceAction::Start, true) => Some(seq!["kickstart"@, target(uid)]),
        (ServiceAction::Restart, false) | (ServiceAction::Start, false) => Some(
            seq!["bootstrap"@, domain(uid), plist_path],
        ),
        // The plist sets KeepAlive, so merely killing the process would
        // have launchd bring it straight back; unloading it is the only
        // way to actually stop it.  Starting it bootstraps it again.
        (ServiceAction::Stop, true) => Some(seq!["bootout"@, target(uid)]),
        (ServiceAction::Stop, false) => None,
    }
}

/// What controlling a systemd service takes: the rights of root.
fn systemd_control(action: ServiceAction, root: bool) -> (r: CommandLine)
    ensures
        r.program@ == (if root {
            "systemctl"@
        } else {
            "sudo"@
        }),
        texts(r.args@) == (if root {
            seq![verb(action), "composer"@]
        } else {
            seq!["systemctl"@, verb(action), "composer"@]
        }),
{
    let cmd = if root {
        CommandLine::new("systemctl")
    } else {
        CommandLine::new("sudo").arg("systemctl")
    };
    let cmd = cmd.arg(action.name()).arg("composer");
    assert(texts(cmd.args@) =~= if root {
        seq![verb(action), "composer"@]
    } else {
        seq!["systemctl"@, verb(action), "composer"@]
    });
    cmd
}

/// What controlling a launchd service takes.
fn launchd_control(action: ServiceAction, plist_path: &str, uid: u32, loaded: bool) -> (r: Control)
    ensures
        match launchctl_args(action, plist_path@, uid, loaded) {
            Some(args) => r matches Control::Run(cmd) && cmd.program@ == "launchctl"@ && texts(
                cmd.args@,
            ) == args,
            None => r matches Control::Nothing(notice) && notice@ == "launchd: "@ + LAUNCHD_LABEL@
                + " is not loaded; nothing to stop"@,
        },
{
    let mut domain: String = "gui/".to_owned();
    domain.append(to_decimal_u64(uid as u64).as_str());
    let mut target: String = domain.clone();
    target.append("/");
    target.append(LAUNCHD_LABEL);
    let cmd = CommandLine::new("launchctl");
    let cmd = match (action, loaded) {
        (ServiceAction::Restart, true) => cmd.arg("kickstart").arg("-k").arg(target.as_str()),
        (ServiceAction::Start, true) => cmd.arg("kickstart").arg(target.as_str()),
        (ServiceAction::Stop, true) => cmd.arg("bootout").arg(target.as_str()),
        (ServiceAction::Stop, false) => {
            let mut notice: String = "launchd: ".to_owned();
            notice.append(LAUNCHD_LABEL);
            notice.append(" is not loaded; nothing to stop");
            return Control::Nothing(notice);
        },
        (_, false) => cmd.arg("bootstrap").arg(domain.as_str()).arg(plist_path),
    };
    assert(texts(cmd.args@) =~= launchctl_args(action, plist_path@, uid, loaded)->Some_0);
    Control::Run(cmd)
}

/// What it takes to act on the daemon.  `root` tells whether the program has
/// the rights of root, `uid` is the user's id, and `loaded` tells whether
/// launchd has the service loaded.
pub fn control(
    action: ServiceAction,
    manager: &ServiceManager,
    root: bool,
    uid: u32,
    loaded: bool,
) -> (r: Control)
    ensures
        match *manager {
            ServiceManager::Systemd => r matches Control::Run(cmd) && cmd.program@ == (if root {
                "systemctl"@
            } else {
                "sudo"@
            }) && texts(cmd.args@) == (if root {
                seq![verb(action), "composer"@]
            } else {
                seq!["systemctl"@, verb(action), "composer"@]
            }),
            ServiceManager::Launchd { plist_path } => match launchctl_args(
                action,
                plist_path@,
                uid,
                loaded,
            ) {
                Some(args) => r matches Control::Run(cmd) && cmd.program@ == "launchctl"@ && texts(
                    cmd.args@,
                ) == args,
                None => r matches Control::Nothing(notice) && notice@ == "launchd: "@
                    + LAUNCHD_LABEL@ + " is not loaded; nothing to stop"@,
            },
        },
{
    match manager {
        ServiceManager::Systemd => Control::Run(systemd_control(action, root)),
        ServiceManager::Launchd { plist_path } => launchd_control(
            action,
            plist_path.as_str(),
            uid,
            loaded,
        ),
    }
}

/// Only a stop of what is not loaded takes no command.
pub proof fn law_only_an_idle_stop_does_nothing(
    action: ServiceAction,
    plist_path: Seq<char>,
    uid: u32,
    loaded: bool,
)
    ensures
        launchctl_args(action, plist_path, uid, loaded) is None <==> action == ServiceAction::Stop
            && !loaded,
{
}

/// What is loaded is restarted by force and started without, and what is not is
/// loaded from its plist; a stop unloads it.  Each command names the user's own
/// domain.
pub proof fn law_launchd_commands(plist_path: Seq<char>, uid: u32)
    ensures
        ({
            let own = "gui/"@ + decimal(uid as int);
            let daemon = own + "/"@ + "com.architect.composer"@;
            &&& launchctl_args(ServiceAction::Restart, plist_path, uid, true) == Some(
                seq!["kickstart"@, "-k"@, daemon],
            )
            &&& launchctl_args(ServiceAction::Start, plist_path, uid, true) == Some(
                seq!["kickstart"@, daemon],
            )
            &&& launchctl_args(ServiceAction::Stop, plist_path, uid, true) == Some(
                seq!["bootout"@, daemon],
            )
            &&& launchctl_args(ServiceAction::Restart, plist_path, uid, false) == Some(
                seq!["bootstrap"@, own, plist_path],
            )
            &&& launchctl_args(ServiceAction::Start, plist_path, uid, false) == Some(
                seq!["bootstrap"@, own, plist_path],
            )
            &&& launchctl_args(ServiceAction::Stop, plist_path, uid, false) is None
        }),
{
}

/// Users have domains of their own: a command for one is none for another.
pub proof fn law_domains_differ(a: u32, b: u32)
    ensures
        domain(a) == domain(b) ==> a == b,
{
    if domain(a) == domain(b) {
        let n = "gui/"@.len() as int;
        assert(domain(a).skip(n) =~= decimal(a as int));
        assert(domain(b).skip(n) =~= decimal(b as int));
        law_numerals_differ(a as int, b as int);
    }
}

/// The verbs are those of systemd, and differ.
pub proof fn law_verbs(action: ServiceAction, other: ServiceAction)
    ensures
        action == ServiceAction::Start ==> verb(action) == "start"@,
        action == ServiceAction::Stop ==> verb(action) == "stop"@,
        action == ServiceAction::Restart ==> verb(action) == "restart"@,
        verb(action) == verb(other) ==> action == other,
{
    reveal_strlit("start");
    reveal_strlit("stop");
    reveal_strlit("restart");
    assert("start"@.len() == 5 && "stop"@.len() == 4 && "restart"@.len() == 7);
}

/// Where nothing is installed, both places that were looked at are told, and the
/// command that installs it on the platform.
pub proof fn law_missing_installation_is_told(home: Seq<char>, macos: bool)
    ensures
        holds(not_installed(home, macos), "/etc/systemd/system/composer.service"@),
        holds(
            not_installed(home, macos),
            path_join(home, "Library/LaunchAgents/com.architect.composer.plist"@),
        ),
        macos ==> holds(not_installed(home, macos), "composer install launchd"@),
        !macos ==> holds(not_installed(home, macos), "composer install systemd"@),
{
    let a = "composer is not installed as a service (no "@;
    let unit = "/etc/systemd/system/composer.service"@;
    let plist = path_join(home, PLIST_PATH@);
    let command = if macos {
        "composer install launchd"@
    } else {
        "composer install systemd"@
    };
    let s = not_installed(home, macos);
    let i = a.len() as int;
    let j = i + unit.len() + " or "@.len();
    let k = j + plist.len() + "); run `"@.len();
    assert(s.subrange(i, i + unit.len()) =~= unit);
    assert(s.subrange(j, j + plist.len()) =~= plist);
    assert(s.subrange(k, k + command.len()) =~= command);
}

/// How often the state of the launchd service is asked for again.
pub const MAX_POLLS: u32 = 20;

/// Whether to ask for the state of the launchd service again.  After a
/// (re)start, launchd respawns the process asynchronously, so it is given a
/// moment to come back up before the state is told.
pub fn should_poll(action: ServiceAction, state: Option<&str>, polls: u32) -> (r: bool)
    ensures
        r == (action != ServiceAction::Stop && polls < MAX_POLLS && !(str_opt(
            state,
        ) matches Some(s) && "running"@.is_prefix_of(s))),
{
    if action == ServiceAction::Stop || polls >= MAX_POLLS {
        return false;
    }
    match state {
        Some(s) => !starts_with(s, "running"),
        None => true,
    }
}

/// What is told of the daemon's state in the end.
pub fn state_notice(manager: &ServiceManager, state: &str) -> (r: String)
    ensures
        r@ == (match *manager {
            ServiceManager::Systemd => "systemd: composer.service is "@ + state@,
            ServiceManager::Launchd { .. } => "launchd: "@ + LAUNCHD_LABEL@ + " is "@ + state@,
        }),
{
    let mut r: String = match manager {
        ServiceManager::Systemd => "systemd: composer.service is ".to_owned(),
        ServiceManager::Launchd { .. } => {
            let mut r: String = "launchd: ".to_owned();
            r.append(LAUNCHD_LABEL);
            r.append(" is ");
            r
        },
    };
    r.append(state);
    r
}

/// A command as it is typed.
pub open spec fn typed(cmd: CommandLine) -> Seq<char> {
    cmd.program@ + " "@ + joined(texts(cmd.args@), " "@)
}

/// A command as it is typed.
fn typed_text(cmd: &CommandLine) -> (r: String)
    ensures
        r@ == typed(*cmd),
{
    let mut r: String = cmd.program.clone();
    r.append(" ");
    r.append(join(&cmd.args, " ").as_str());
    r
}

/// A command as it is echoed before it is run.
pub fn echo(cmd: &CommandLine) -> (r: String)
    ensures
        r@ == "$ "@ + typed(*cmd),
{
    let mut r: String = "$ ".to_owned();
    r.append(typed_text(cmd).as_str());
    r
}

/// What is told of a command that did not succeed.
pub fn failure(cmd: &CommandLine, status: &str) -> (r: String)
    ensures
        r@ == "`"@ + typed(*cmd) + "` failed with "@ + status@,
{
    let mut r: String = "`".to_owned();
    r.append(typed_text(cmd).as_str());
    r.append("` failed with ");
    r.append(status);
    r
}

/// A command is typed as its program and its arguments, in order, with a space
/// between each two: they are read back from what is typed.
pub proof fn law_typed_commands_read_back(cmd: CommandLine)
    requires
        !cmd.program@.contains(' '),
        cmd.args@.len() > 0,
        forall|i: int| 0 <= i < cmd.args@.len() ==> !(#[trigger] cmd.args@[i])@.contains(' '),
    ensures
        pieces(typed(cmd), ' ') == seq![cmd.program@] + texts(cmd.args@),
{
    reveal_strlit(" ");
    let args = texts(cmd.args@);
    assert(" "@ =~= seq![' ']);
    assert forall|i: int| 0 <= i < args.len() implies !(#[trigger] args[i]).contains(' ') by {
        assert(args[i] == cmd.args@[i]@);
    }
    lemma_pieces_of_joined(args, ' ');
    lemma_pieces_apart(cmd.program@, ' ', joined(args, seq![' ']));
}

/// The state is asked for again after a start or a restart only, no more than
/// twenty times, and not once the daemon runs.
pub proof fn law_polling_ends(action: ServiceAction, state: Option<&str>, polls: u32, again: bool)
    requires
        call_ensures(should_poll, (action, state, polls), again),
    ensures
        action == ServiceAction::Stop ==> !again,
        polls >= 20 ==> !again,
        state matches Some(s) ==> ("running"@.is_prefix_of(s@) ==> !again),
        action != ServiceAction::Stop && polls < 20 && state is None ==> again,
        action != ServiceAction::Stop && polls < 20 ==> (state matches Some(s) ==> (
        !"running"@.is_prefix_of(s@) ==> again)),
{
}

/// Where only one of the two is installed, it is controlled; where both are, the
/// one that is native to the platform is.
pub proof fn law_native_manager_is_preferred(
    home: &str,
    unit: bool,
    plist: bool,
    macos: bool,
    manager: Result<ServiceManager, String>,
)
    requires
        call_ensures(detect_service_manager, (home, unit, plist, macos), manager),
    ensures
        manager is Err <==> !unit && !plist,
        unit && !plist ==> manager == Ok::<ServiceManager, String>(ServiceManager::Systemd),
        !unit && plist ==> manager is Ok && manager->Ok_0 is Launchd,
        unit && plist && macos ==> manager is Ok && manager->Ok_0 is Launchd,
        unit && plist && !macos ==> manager == Ok::<ServiceManager, String>(
            ServiceManager::Systemd,
        ),
{
}

/// Systemd is told the verb of the action, and the rights of root are asked for
/// exactly where they are missing.
pub proof fn law_systemd_needs_root(
    action: ServiceAction,
    root: bool,
    uid: u32,
    loaded: bool,
    taken: Control,
)
    requires
        call_ensures(control, (action, &ServiceManager::Systemd, root, uid, loaded), taken),
    ensures
        taken is Run,
        ({
            let cmd = taken->Run_0;
            let args = texts(cmd.args@);
            &&& root ==> cmd.program@ == "systemctl"@ && args.len() == 2
            &&& !root ==> cmd.program@ == "sudo"@ && args.len() == 3 && args[0] == "systemctl"@
            &&& args[args.len() - 1] == "composer"@
            &&& action == ServiceAction::Start ==> args[args.len() - 2] == "start"@
            &&& action == ServiceAction::Stop ==> args[args.len() - 2] == "stop"@
            &&& action == ServiceAction::Restart ==> args[args.len() - 2] == "restart"@
        }),
{
}

/// Launchd is run as the user, and only a stop of what is not loaded needs no
/// command.
pub proof fn law_launchd_is_controlled(
    action: ServiceAction,
    plist_path: String,
    root: bool,
    uid: u32,
    loaded: bool,
    taken: Control,
)
    requires
        call_ensures(
            control,
            (action, &ServiceManager::Launchd { plist_path }, root, uid, loaded),
            taken,
        ),
    ensures
        taken is Nothing <==> action == ServiceAction::Stop && !loaded,
        taken matches Control::Run(cmd) ==> cmd.program@ == "launchctl"@ && Some(texts(cmd.args@))
            == launchctl_args(action, plist_path@, uid, loaded),
        taken matches Control::Run(cmd) ==> (!loaded ==> texts(cmd.args@).last() == plist_path@),
        taken matches Control::Run(cmd) ==> (loaded ==> texts(cmd.args@).last() == "gui/"@ + decimal(
            uid as int,
        ) + "/"@ + "com.architect.composer"@),
{
}

/// The state that was found is told in the end, and so are a command before it is
/// run and one that has failed.
pub proof fn law_states_and_commands_are_told(
    manager: ServiceManager,
    state: &str,
    notice: String,
    cmd: CommandLine,
    echoed: String,
    failed: String,
)
    requires
        call_ensures(state_notice, (&manager, state), notice),
        call_ensures(echo, (&cmd,), echoed),
        call_ensures(failure, (&cmd, state), failed),
    ensures
        state@.is_suffix_of(notice@),
        manager is Systemd ==> "systemd: composer.service is "@.is_prefix_of(notice@),
        manager is Launchd ==> ("launchd: "@ + "com.architect.composer"@ + " is "@).is_prefix_of(
            notice@,
        ),
        echoed@ == "$ "@ + typed(cmd),
        holds(failed@, typed(cmd)),
        state@.is_suffix_of(failed@),
{
    let n = notice@;
    let f = failed@;
    assert(n.subrange(n.len() - state@.len(), n.len() as int) =~= state@);
    assert(f.subrange(f.len() - state@.len(), f.len() as int) =~= state@);
    let k = "`"@.len() as int;
    assert(f.subrange(k, k + typed(cmd).len()) =~= typed(cmd));
    let head = if manager is Systemd {
        "systemd: composer.service is "@
    } else {
        "launchd: "@ + "com.architect.composer"@ + " is "@
    };
    assert(n.subrange(0, head.len() as int) =~= head);
}

} // verus!
