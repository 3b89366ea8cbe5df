use composer::install_commands::{
    download_command, extract_plist_string, install_status, install_summary, installed_files,
    launchd_plist, launchd_plist_path, launchd_state, manager_status, read_plist, read_unit,
    release_artifact, systemd_state, systemd_unit, uninstall_report, xml_escape,
};
use composer::service_commands::{
    control, detect_service_manager, echo, failure, should_poll, state_notice, Control,
    ServiceAction, ServiceManager,
};

fn env(entries: &[&str]) -> Vec<String> {
    entries.iter().map(|e| e.to_string()).collect()
}

const UNIT: &str = "\
[Unit]
Description=Composer – Docker Compose scheduler
After=docker.service
Requires=docker.service

[Service]
Type=simple
User=ec2-user
WorkingDirectory=/home/ec2-user
ExecStart=/usr/local/bin/composer -f compose.yml
Restart=on-failure
RestartSec=5s
Environment=RUST_LOG=composer=info
Environment=WATCH_COMPOSE_FILE=true

[Install]
WantedBy=multi-user.target
";

#[test]
fn unit_is_written_and_read_back() {
    let unit = systemd_unit(
        "ec2-user",
        "/home/ec2-user",
        "/usr/local/bin/composer",
        "compose.yml",
        &env(&["WATCH_COMPOSE_FILE=true"]),
    );
    assert_eq!(unit, UNIT);
    assert_eq!(
        read_unit(&unit),
        vec![
            "    user: ec2-user",
            "    working dir: /home/ec2-user",
            "    exec: /usr/local/bin/composer -f compose.yml",
            "    env: WATCH_COMPOSE_FILE=true",
        ]
    );
}

const PLIST: &str = r#"<?xml version="1.0" encoding="UTF-8"?>
<!DOCTYPE plist PUBLIC "-//Apple//DTD PLIST 1.0//EN" "http://www.apple.com/DTDs/PropertyList-1.0.dtd">
<plist version="1.0">
<dict>
    <key>Label</key>
    <string>com.architect.composer</string>
    <key>ProgramArguments</key>
    <array>
        <string>/bin/composer</string>
        <string>-f</string>
        <string>compose.yml</string>
    </array>
    <key>WorkingDirectory</key>
    <string>/Users/u/my project</string>
    <key>EnvironmentVariables</key>
    <dict>
        <key>A</key>
        <string>x=&lt;&quot;&amp;&apos;&gt;</string>
    </dict>
    <key>RunAtLoad</key>
    <true/>
    <key>KeepAlive</key>
    <true/>
    <key>StandardOutPath</key>
    <string>/tmp/composer.log</string>
    <key>StandardErrorPath</key>
    <string>/tmp/composer.err</string>
</dict>
</plist>
"#;

#[test]
fn plist_is_written_and_read_back() {
    let plist = launchd_plist(
        "/Users/u/my project",
        "/bin/composer",
        "compose.yml",
        &env(&["A=x=<\"&'>", "NOVALUE"]),
    );
    assert_eq!(plist, PLIST);
    assert_eq!(read_plist(&plist), vec!["    working dir: /Users/u/my project"]);
    let plain = launchd_plist("w", "b", "c", &vec![]);
    assert!(!plain.contains("EnvironmentVariables"));
    assert!(plain.contains("    <string>w</string>\n    <key>RunAtLoad</key>\n"));
}

#[test]
fn xml_is_escaped() {
    assert_eq!(xml_escape("a<b>&\"c'"), "a&lt;b&gt;&amp;&quot;c&apos;");
    assert_eq!(xml_escape("&amp;"), "&amp;amp;");
    assert_eq!(xml_escape(""), "");
}

#[test]
fn plist_strings_are_extracted() {
    assert_eq!(extract_plist_string("    <string>/a b</string>"), Some("/a b"));
    assert_eq!(extract_plist_string("<string></string>"), Some(""));
    assert_eq!(extract_plist_string("<string>x"), None);
    assert_eq!(extract_plist_string("<key>x</key>"), None);
}

#[test]
fn service_states_are_read() {
    assert_eq!(launchd_state(false, "PID\tStatus\tLabel"), "not loaded");
    assert_eq!(launchd_state(true, "PID\tStatus\tLabel\n-\t0\tx\n"), "not running");
    assert_eq!(launchd_state(true, "PID\tStatus\tLabel\n42\t0\tx"), "running (pid 42)");
    assert_eq!(launchd_state(true, ""), "loaded");
    assert_eq!(launchd_state(true, "\t0\tx"), "loaded");
    assert_eq!(systemd_state("active\n", Some("enabled\n")), "active, enabled");
    assert_eq!(systemd_state(" inactive", None), "inactive, unknown");
}

#[test]
fn installation_is_shown() {
    let mut lines = install_status("0.10.8", "/bin/composer", Some("/h/b"), None);
    lines.extend(manager_status(
        "systemd",
        Some("/etc/systemd/system/composer.service"),
        env(&["    user: u"]),
        Some("active, enabled"),
    ));
    assert_eq!(
        lines,
        vec![
            "composer v0.10.8",
            "  binary: /bin/composer",
            "  bash aliases: /h/b",
            "  zsh aliases: not installed",
            "  systemd: /etc/systemd/system/composer.service",
            "    user: u",
            "    state: active, enabled",
        ]
    );
    assert_eq!(
        manager_status("launchd", None, vec![], Some("loaded")),
        vec!["  launchd: not installed"]
    );
    assert_eq!(
        install_summary("systemd", Some("u"), "/w", "c.yml", &env(&["A=b"])),
        vec![
            "Installing systemd service:",
            "  user: u",
            "  working dir: /w",
            "  compose file: c.yml",
            "  env: A=b",
        ]
    );
    assert_eq!(install_summary("launchd", None, "/w", "c.yml", &vec![]).len(), 3);
}

#[test]
fn releases_are_downloaded() {
    let artifact = release_artifact("linux", "x86_64").unwrap();
    assert_eq!(artifact, "composer-linux-amd64");
    assert_eq!(release_artifact("macos", "aarch64").unwrap(), "composer-macos-arm64");
    assert_eq!(
        release_artifact("linux", "riscv64").unwrap_err(),
        "unsupported architecture: riscv64"
    );
    let cmd = download_command(&artifact, "/bin/composer");
    assert_eq!(cmd.program, "curl");
    assert_eq!(
        cmd.args,
        vec![
            "-fsSL",
            "https://github.com/architect-xyz/composer/releases/latest/download/composer-linux-amd64",
            "-o",
            "/bin/composer",
        ]
    );
}

#[test]
fn everything_can_be_uninstalled() {
    let files = installed_files("/h");
    let paths: Vec<&str> = files.iter().map(|f| f.path.as_str()).collect();
    assert_eq!(
        paths,
        vec![
            "/etc/systemd/system/composer.service",
            "/h/Library/LaunchAgents/com.architect.composer.plist",
            "/h/.bashrc.d/composer.bash",
            "/h/.zshrc.d/composer.zsh",
        ]
    );
    assert_eq!(files[0].before.len(), 2);
    assert_eq!(files[0].after[0].args, vec!["daemon-reload"]);
    assert_eq!(files[1].before[0].args, vec!["unload", files[1].path.as_str()]);
    let removed: Vec<_> = files.into_iter().skip(3).collect();
    assert_eq!(
        uninstall_report(&removed, "/bin/composer"),
        vec![
            "Removed zsh aliases: /h/.zshrc.d/composer.zsh",
            "",
            "To complete uninstall, remove the binary:",
            "  sudo rm /bin/composer",
        ]
    );
    assert_eq!(uninstall_report(&vec![], "/b"), vec!["Nothing to uninstall."]);
}

#[test]
fn service_manager_is_detected() {
    let detect = |unit: bool, plist: bool, macos: bool| {
        detect_service_manager("/h", unit, plist, macos)
    };
    assert!(matches!(detect(true, false, false), Ok(ServiceManager::Systemd)));
    assert!(matches!(detect(true, false, true), Ok(ServiceManager::Systemd)));
    assert!(matches!(detect(true, true, false), Ok(ServiceManager::Systemd)));
    assert!(matches!(
        detect(true, true, true),
        Ok(ServiceManager::Launchd { plist_path }) if plist_path == launchd_plist_path("/h")
    ));
    assert!(matches!(detect(false, true, false), Ok(ServiceManager::Launchd { .. })));
    assert_eq!(
        detect(false, false, false).unwrap_err(),
        "composer is not installed as a service (no /etc/systemd/system/composer.service or /h/Library/LaunchAgents/com.architect.composer.plist); run `composer install systemd` first"
    );
    assert!(detect(false, false, true).unwrap_err().ends_with("`composer install launchd` first"));
}

#[test]
fn daemon_is_controlled() {
    let args = |c: Control| match c {
        Control::Run(cmd) => format!("{} {}", cmd.program, cmd.args.join(" ")),
        Control::Nothing(notice) => notice,
    };
    let systemd = ServiceManager::Systemd;
    assert_eq!(
        args(control(ServiceAction::Restart, &systemd, true, 0, false)),
        "systemctl restart composer"
    );
    assert_eq!(
        args(control(ServiceAction::Stop, &systemd, false, 501, false)),
        "sudo systemctl stop composer"
    );
    let launchd = ServiceManager::Launchd { plist_path: "/p".to_string() };
    let launchctl =
        |action: ServiceAction, loaded: bool| args(control(action, &launchd, false, 501, loaded));
    assert_eq!(
        launchctl(ServiceAction::Restart, true),
        "launchctl kickstart -k gui/501/com.architect.composer"
    );
    assert_eq!(
        launchctl(ServiceAction::Start, true),
        "launchctl kickstart gui/501/com.architect.composer"
    );
    assert_eq!(launchctl(ServiceAction::Start, false), "launchctl bootstrap gui/501 /p");
    assert_eq!(launchctl(ServiceAction::Restart, false), "launchctl bootstrap gui/501 /p");
    assert_eq!(
        launchctl(ServiceAction::Stop, true),
        "launchctl bootout gui/501/com.architect.composer"
    );
    assert_eq!(
        launchctl(ServiceAction::Stop, false),
        "launchd: com.architect.composer is not loaded; nothing to stop"
    );
    match control(ServiceAction::Start, &systemd, true, 0, false) {
        Control::Run(cmd) => {
            assert_eq!(echo(&cmd), "$ systemctl start composer");
            assert_eq!(
                failure(&cmd, "exit status: 1"),
                "`systemctl start composer` failed with exit status: 1"
            );
        }
        Control::Nothing(notice) => panic!("{notice}"),
    }
    assert_eq!(state_notice(&systemd, "active, enabled"), "systemd: composer.service is active, enabled");
    assert_eq!(state_notice(&launchd, "loaded"), "launchd: com.architect.composer is loaded");
}

#[test]
fn polling_ends() {
    assert!(should_poll(ServiceAction::Start, None, 0));
    assert!(should_poll(ServiceAction::Restart, Some("not running"), 19));
    assert!(!should_poll(ServiceAction::Restart, Some("not running"), 20));
    assert!(!should_poll(ServiceAction::Start, Some("running (pid 1)"), 0));
    assert!(!should_poll(ServiceAction::Stop, None, 0));
}
