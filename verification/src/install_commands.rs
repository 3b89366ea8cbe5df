//! Installing composer: shell aliases, and the daemon under systemd or launchd.

use vstd::prelude::*;
use vstd::string::*;
use crate::compose::CommandLine;
use crate::paths::{join_path, path_join};
use crate::text::{
    before, before_first, chars_of, halves, is_line, law_stripping_undoes_adding, lemma_halves,
    lemma_lines_of_terminated, lemma_trimmed_is, lemma_trimmed_padding, lines, lines_of, same,
    split_once, str_opt, strip_prefix, strip_suffix, stripped_prefix, stripped_suffix, terminated,
    text_opt, texts, trim, trimmed, whitespace, write_lines,
};

verus! {

/// Where the systemd unit is installed.
pub const SYSTEMD_UNIT_PATH: &'static str = "/etc/systemd/system/composer.service";

/// The name of the launchd service.
pub const LAUNCHD_LABEL: &'static str = "com.architect.composer";

/// Where the launchd plist is installed, below the home directory.
pub const PLIST_PATH: &'static str = "Library/LaunchAgents/com.architect.composer.plist";

/// Where the aliases for bash are installed, below the home directory.
pub const BASH_ALIASES_PATH: &'static str = ".bashrc.d/composer.bash";

/// Where the aliases for zsh are installed, below the home directory.
pub const ZSH_ALIASES_PATH: &'static str = ".zshrc.d/composer.zsh";

/// The environment that the daemon always gets.
pub const DEFAULT_ENVIRONMENT: &'static str = "RUST_LOG=composer=info";

/// What can be installed.
#[derive(Debug)]
pub enum InstallCommands {
    /// Install shell aliases to ~/.bashrc.d/composer.bash
    Bash,
    /// Install shell aliases to ~/.zshrc.d/composer.zsh
    Zsh,
    /// Install and enable a systemd service unit
    Systemd {
        /// User to run as
        user: String,
        /// Working directory (default: current directory)
        working_dir: Option<String>,
        /// Compose file path relative to working dir
        compose_file: String,
        /// Extra environment variables (KEY=VALUE)
        env: Vec<String>,
    },
    /// Show installation status
    Status,
    /// Install a macOS launchd plist for running composer as a daemon
    Launchd {
        /// Working directory (default: current directory)
        working_dir: Option<String>,
        /// Compose file path relative to working dir
        compose_file: String,
        /// Extra environment variables (KEY=VALUE)
        env: Vec<String>,
    },
}

/// Where the launchd plist is installed.
pub fn launchd_plist_path(home: &str) -> (r: String)
    ensures
        r@ == path_join(home@, PLIST_PATH@),
{
    join_path(home, PLIST_PATH)
}

// ---------------------------------------------------------------------------
// The systemd unit
// ---------------------------------------------------------------------------

/// The lines of the unit before those of the environment.
pub open spec fn unit_head(
    user: Seq<char>,
    working_dir: Seq<char>,
    composer_bin: Seq<char>,
    compose_file: Seq<char>,
) -> Seq<Seq<char>> {
    seq![
        "[Unit]"@,
        "Description=Composer – Docker Compose scheduler"@,
        "After=docker.service"@,
        "Requires=docker.service"@,
        ""@,
        "[Service]"@,
        "Type=simple"@,
        "User="@ + user,
        "WorkingDirectory="@ + working_dir,
        "ExecStart="@ + (composer_bin + " -f "@ + compose_file),
        "Restart=on-failure"@,
        "RestartSec=5s"@,
        "Environment="@ + DEFAULT_ENVIRONMENT@,
    ]
}

/// The lines of the unit after those of the environment.
pub open spec fn unit_tail() -> Seq<Seq<char>> {
    seq![""@, "[Install]"@, "WantedBy=multi-user.target"@]
}

/// The lines of the unit.
pub open spec fn unit_lines(
    user: Seq<char>,
    working_dir: Seq<char>,
    composer_bin: Seq<char>,
    compose_file: Seq<char>,
    extra_env: Seq<Seq<char>>,
) -> Seq<Seq<char>> {
    unit_head(user, working_dir, composer_bin, compose_file) + extra_env.map_values(
        |kv: Seq<char>| "Environment="@ + kv,
    ) + unit_tail()
}

/// Two texts, one behind the other.
fn concat(a: &str, b: &str) -> (r: String)
    ensures
        r@ == a@ + b@,
{
    let mut r: String = a.to_owned();
    r.append(b);
    r
}

/// A text between two others.
fn enclosed(a: &str, b: &str, c: &str) -> (r: String)
    ensures
        r@ == a@ + b@ + c@,
{
    let mut r: String = a.to_owned();
    r.append(b);
    r.append(c);
    r
}

/// The text of the systemd unit that runs the daemon.
pub fn systemd_unit(
    user: &str,
    working_dir: &str,
    composer_bin: &str,
    compose_file: &str,
    extra_env: &Vec<String>,
) -> (r: String)
    ensures
        r@ == terminated(
            unit_lines(user@, working_dir@, composer_bin@, compose_file@, texts(extra_env@)),
        ),
{
    let exec = enclosed(composer_bin, " -f ", compose_file);
    let mut lines: Vec<String> = vec![
        "[Unit]".to_owned(),
        "Description=Composer – Docker Compose scheduler".to_owned(),
        "After=docker.service".to_owned(),
        "Requires=docker.service".to_owned(),
        "".to_owned(),
        "[Service]".to_owned(),
        "Type=simple".to_owned(),
        concat("User=", user),
        concat("WorkingDirectory=", working_dir),
        concat("ExecStart=", exec.as_str()),
        "Restart=on-failure".to_owned(),
        "RestartSec=5s".to_owned(),
        concat("Environment=", DEFAULT_ENVIRONMENT),
    ];
    let ghost head = unit_head(user@, working_dir@, composer_bin@, compose_file@);
    let ghost env = texts(extra_env@).map_values(|kv: Seq<char>| "Environment="@ + kv);
    assert(texts(lines@) =~= head + env.take(0));
    let mut i: usize = 0;
    while i < extra_env.len()
        invariant
            i <= extra_env@.len(),
            env == texts(extra_env@).map_values(|kv: Seq<char>| "Environment="@ + kv),
            texts(lines@) == head + env.take(i as int),
        decreases extra_env.len() - i,
    {
        let ghost was = texts(lines@);
        let line: String = concat("Environment=", extra_env[i].as_str());
        lines.push(line);
        proof {
            assert(line@ == env[i as int]);
            assert(texts(lines@) =~= was.push(line@));
            assert(was.push(line@) =~= head + env.take(i + 1));
        }
        i = i + 1;
    }
    assert(env.take(i as int) =~= env);
    lines.push("".to_owned());
    lines.push("[Install]".to_owned());
    lines.push("WantedBy=multi-user.target".to_owned());
    assert(texts(lines@) =~= head + env + unit_tail());
    write_lines(&lines)
}

/// What a line of a unit tells of the installation, if anything.
pub open spec fn unit_field(line: Seq<char>) -> Option<Seq<char>> {
    let line = trimmed(line);
    match (
        stripped_prefix(line, "User="@),
        stripped_prefix(line, "WorkingDirectory="@),
        stripped_prefix(line, "ExecStart="@),
        stripped_prefix(line, "Environment="@),
    ) {
        (Some(v), _, _, _) => Some("    user: "@ + v),
        (None, Some(v), _, _) => Some("    working dir: "@ + v),
        (None, None, Some(v), _) => Some("    exec: "@ + v),
        (None, None, None, Some(v)) => if v == DEFAULT_ENVIRONMENT@ {
            None
        } else {
            Some("    env: "@ + v)
        },
        _ => None,
    }
}

/// What the lines of a unit tell of the installation.
pub open spec fn unit_fields(lines: Seq<Seq<char>>) -> Seq<Seq<char>>
    decreases lines.len(),
{
    if lines.len() == 0 {
        Seq::empty()
    } else {
        match unit_field(lines.last()) {
            Some(field) => unit_fields(lines.drop_last()).push(field),
            None => unit_fields(lines.drop_last()),
        }
    }
}

/// What a line of a unit tells of the installation, if anything.
fn read_unit_line(line: &str) -> (r: Option<String>)
    ensures
        text_opt(r) == unit_field(line@),
{
    let line: &str = trim(line);
    if let Some(v) = strip_prefix(line, "User=") {
        return Some(concat("    user: ", v));
    }
    if let Some(v) = strip_prefix(line, "WorkingDirectory=") {
        return Some(concat("    working dir: ", v));
    }
    if let Some(v) = strip_prefix(line, "ExecStart=") {
        return Some(concat("    exec: ", v));
    }
    if let Some(v) = strip_prefix(line, "Environment=") {
        if !same(v, DEFAULT_ENVIRONMENT) {
            return Some(concat("    env: ", v));
        }
    }
    None
}

/// Key fields of the unit file, each as a line to show.
pub fn read_unit(contents: &str) -> (r: Vec<String>)
    ensures
        texts(r@) == unit_fields(lines_of(contents@)),
{
    let lines = lines(contents);
    let ghost all = lines@.map_values(|l: &str| l@);
    let mut r: Vec<String> = Vec::new();
    let mut i: usize = 0;
    assert(texts(r@) =~= Seq::empty());
    while i < lines.len()
        invariant
            i <= lines@.len(),
            all == lines@.map_values(|l: &str| l@),
            texts(r@) == unit_fields(all.take(i as int)),
        decreases lines.len() - i,
    {
        let ghost was = r@;
        assert(all.take(i + 1).drop_last() =~= all.take(i as int));
        assert(all.take(i + 1).last() == lines@[i as int]@);
        if let Some(field) = read_unit_line(lines[i]) {
            r.push(field);
            assert(texts(r@) =~= texts(was).push(field@));
        }
        i = i + 1;
    }
    assert(all.take(all.len() as int) =~= all);
    r
}

// ---------------------------------------------------------------------------
// The launchd plist
// ---------------------------------------------------------------------------

/// A character as it stands in XML.
pub open spec fn escaped_char(c: char) -> Seq<char> {
    if c == '&' {
        "&amp;"@
    } else if c == '<' {
        "&lt;"@
    } else if c == '>' {
        "&gt;"@
    } else if c == '"' {
        "&quot;"@
    } else if c == '\'' {
        "&apos;"@
    } else {
        seq![c]
    }
}

/// A text as it stands in XML.
pub open spec fn escaped(s: Seq<char>) -> Seq<char>
    decreases s.len(),
{
    if s.len() == 0 {
        Seq::empty()
    } else {
        escaped_char(s[0]) + escaped(s.drop_first())
    }
}

/// The text as it stands in XML: the characters of markup are replaced.
pub fn xml_escape(s: &str) -> (r: String)
    ensures
        r@ == escaped(s@),
{
    let v = chars_of(s);
    let mut r = String::new();
    let mut i: usize = 0;
    assert(s@.skip(0) =~= s@);
    assert(r@ + escaped(s@) =~= escaped(s@));
    while i < v.len()
        invariant
            v@ == s@,
            i <= v.len(),
            escaped(s@) == r@ + escaped(s@.skip(i as int)),
        decreases v.len() - i,
    {
        let ghost was = r@;
        let c: char = v[i];
        if c == '&' {
            r.append("&amp;");
        } else if c == '<' {
            r.append("&lt;");
        } else if c == '>' {
            r.append("&gt;");
        } else if c == '"' {
            r.append("&quot;");
        } else if c == '\'' {
            r.append("&apos;");
        } else {
            r.push(c);
        }
        proof {
            let rest = s@.skip(i as int);
            assert(rest.drop_first() =~= s@.skip(i + 1));
            assert(r@ =~= was + escaped_char(c));
            assert(was + (escaped_char(c) + escaped(s@.skip(i + 1))) =~= r@ + escaped(
                s@.skip(i + 1),
            ));
        }
        i = i + 1;
    }
    assert(s@.skip(i as int) =~= Seq::empty());
    assert(r@ + Seq::<char>::empty() =~= r@);
    r
}

/// The lines of an environment variable, where it has a value.
pub open spec fn env_entry(kv: Seq<char>) -> Seq<Seq<char>> {
    match halves(kv, '=') {
        Some((key, value)) => seq![
            "        <key>"@ + escaped(key) + "</key>"@,
            "        <string>"@ + escaped(value) + "</string>"@,
        ],
        None => Seq::empty(),
    }
}

/// The lines of environment variables.
pub open spec fn env_entries(extra_env: Seq<Seq<char>>) -> Seq<Seq<char>>
    decreases extra_env.len(),
{
    if extra_env.len() == 0 {
        Seq::empty()
    } else {
        env_entries(extra_env.drop_last()) + env_entry(extra_env.last())
    }
}

/// The lines of the environment: none where no variable is given.
pub open spec fn env_dict(extra_env: Seq<Seq<char>>) -> Seq<Seq<char>> {
    if extra_env.len() == 0 {
        Seq::empty()
    } else {
        seq!["    <key>EnvironmentVariables</key>"@, "    <dict>"@] + env_entries(extra_env)
            + seq!["    </dict>"@]
    }
}

/// The lines of the plist before those of the environment.
pub open spec fn plist_head(
    working_dir: Seq<char>,
    composer_bin: Seq<char>,
    compose_file: Seq<char>,
) -> Seq<Seq<char>> {
    seq![
        "<?xml version=\"1.0\" encoding=\"UTF-8\"?>"@,
        "<!DOCTYPE plist PUBLIC \"-//Apple//DTD PLIST 1.0//EN\" \"http://www.apple.com/DTDs/PropertyList-1.0.dtd\">"@,
        "<plist version=\"1.0\">"@,
        "<dict>"@,
        "    <key>Label</key>"@,
        "    <string>com.architect.composer</string>"@,
        "    <key>ProgramArguments</key>"@,
        "    <array>"@,
        "        <string>"@ + composer_bin + "</string>"@,
        "        <string>-f</string>"@,
        "        <string>"@ + compose_file + "</string>"@,
        "    </array>"@,
        "    <key>WorkingDirectory</key>"@,
        "    <string>"@ + working_dir + "</string>"@,
    ]
}

/// The lines of the plist after those of the environment.
pub open spec fn plist_tail() -> Seq<Seq<char>> {
    seq![
        "    <key>RunAtLoad</key>"@,
        "    <true/>"@,
        "    <key>KeepAlive</key>"@,
        "    <true/>"@,
        "    <key>StandardOutPath</key>"@,
        "    <string>/tmp/composer.log</string>"@,
        "    <key>StandardErrorPath</key>"@,
        "    <string>/tmp/composer.err</string>"@,
        "</dict>"@,
        "</plist>"@,
    ]
}

/// The lines of the plist.
pub open spec fn plist_lines(
    working_dir: Seq<char>,
    composer_bin: Seq<char>,
    compose_file: Seq<char>,
    extra_env: Seq<Seq<char>>,
) -> Seq<Seq<char>> {
    plist_head(working_dir, composer_bin, compose_file) + env_dict(extra_env) + plist_tail()
}

/// Adds the lines of the environment.
fn push_env_dict(lines: &mut Vec<String>, extra_env: &Vec<String>)
    ensures
        texts(final(lines)@) == texts(old(lines)@) + env_dict(texts(extra_env@)),
{
    let ghost was = texts(lines@);
    let ghost env = texts(extra_env@);
    if extra_env.len() == 0 {
        assert(was + env_dict(env) =~= was);
        return;
    }
    lines.push("    <key>EnvironmentVariables</key>".to_owned());
    lines.push("    <dict>".to_owned());
    let ghost opened = texts(lines@);
    assert(opened =~= was + seq!["    <key>EnvironmentVariables</key>"@, "    <dict>"@]);
    let mut i: usize = 0;
    assert(opened + env_entries(env.take(0)) =~= opened);
    while i < extra_env.len()
        invariant
            i <= extra_env@.len(),
            env == texts(extra_env@),
            texts(lines@) == opened + env_entries(env.take(i as int)),
        decreases extra_env.len() - i,
    {
        let ghost sofar = texts(lines@);
        assert(env.take(i + 1).drop_last() =~= env.take(i as int));
        assert(env.take(i + 1).last() == extra_env@[i as int]@);
        if let Some((key, value)) = split_once(extra_env[i].as_str(), '=') {
            lines.push(enclosed("        <key>", xml_escape(key).as_str(), "</key>"));
            lines.push(enclosed("        <string>", xml_escape(value).as_str(), "</string>"));
        }
        proof {
            assert(texts(lines@) =~= sofar + env_entry(extra_env@[i as int]@));
            assert(opened + (env_entries(env.take(i as int)) + env_entry(extra_env@[i as int]@))
                =~= opened + env_entries(env.take(i as int)) + env_entry(extra_env@[i as int]@));
        }
        i = i + 1;
    }
    assert(env.take(i as int) =~= env);
    let ghost entries = texts(lines@);
    lines.push("    </dict>".to_owned());
    assert(texts(lines@) =~= entries.push("    </dict>"@));
    assert(texts(lines@) =~= was + env_dict(env));
}

/// The text of the launchd plist that runs the daemon.
pub fn launchd_plist(
    working_dir: &str,
    composer_bin: &str,
    compose_file: &str,
    extra_env: &Vec<String>,
) -> (r: String)
    ensures
        r@ == terminated(
            plist_lines(working_dir@, composer_bin@, compose_file@, texts(extra_env@)),
        ),
{
    let mut lines: Vec<String> = vec![
        "<?xml version=\"1.0\" encoding=\"UTF-8\"?>".to_owned(),
        "<!DOCTYPE plist PUBLIC \"-//Apple//DTD PLIST 1.0//EN\" \"http://www.apple.com/DTDs/PropertyList-1.0.dtd\">".to_owned(),
        "<plist version=\"1.0\">".to_owned(),
        "<dict>".to_owned(),
        "    <key>Label</key>".to_owned(),
        "    <string>com.architect.composer</string>".to_owned(),
        "    <key>ProgramArguments</key>".to_owned(),
        "    <array>".to_owned(),
        enclosed("        <string>", composer_bin, "</string>"),
        "        <string>-f</string>".to_owned(),
        enclosed("        <string>", compose_file, "</string>"),
        "    </array>".to_owned(),
        "    <key>WorkingDirectory</key>".to_owned(),
        enclosed("    <string>", working_dir, "</string>"),
    ];
    assert(texts(lines@) =~= plist_head(working_dir@, composer_bin@, compose_file@));
    push_env_dict(&mut lines, extra_env);
    let ghost sofar = texts(lines@);
    lines.push("    <key>RunAtLoad</key>".to_owned());
    lines.push("    <true/>".to_owned());
    lines.push("    <key>KeepAlive</key>".to_owned());
    lines.push("    <true/>".to_owned());
    lines.push("    <key>StandardOutPath</key>".to_owned());
    lines.push("    <string>/tmp/composer.log</string>".to_owned());
    lines.push("    <key>StandardErrorPath</key>".to_owned());
    lines.push("    <string>/tmp/composer.err</string>".to_owned());
    lines.push("</dict>".to_owned());
    lines.push("</plist>".to_owned());
    assert(texts(lines@) =~= sofar + plist_tail());
    write_lines(&lines)
}

/// The text between the `string` tags of a line.
pub open spec fn plist_string(line: Seq<char>) -> Option<Seq<char>> {
    match stripped_prefix(trimmed(line), "<string>"@) {
        Some(rest) => stripped_suffix(rest, "</string>"@),
        None => None,
    }
}

/// The text between the `string` tags of a line, where it has them.
pub fn extract_plist_string<'a>(line: &'a str) -> (r: Option<&'a str>)
    ensures
        str_opt(r) == plist_string(line@),
{
    let trimmed: &'a str = trim(line);
    match strip_prefix(trimmed, "<string>") {
        Some(rest) => strip_suffix(rest, "</string>"),
        None => None,
    }
}

/// What line `i` of a plist tells of the installation, if anything: the line
/// after the key of the working directory tells its value.
pub open spec fn plist_field(lines: Seq<Seq<char>>, i: int) -> Option<Seq<char>> {
    if trimmed(lines[i]) == "<key>WorkingDirectory</key>"@ && i + 1 < lines.len() {
        match plist_string(lines[i + 1]) {
            Some(v) => Some("    working dir: "@ + v),
            None => None,
        }
    } else {
        None
    }
}

/// What the first `n` lines of a plist tell of the installation.
pub open spec fn plist_fields(lines: Seq<Seq<char>>, n: int) -> Seq<Seq<char>>
    decreases n,
{
    if n <= 0 {
        Seq::empty()
    } else {
        match plist_field(lines, n - 1) {
            Some(field) => plist_fields(lines, n - 1).push(field),
            None => plist_fields(lines, n - 1),
        }
    }
}

/// Key fields of the plist, each as a line to show.
pub fn read_plist(contents: &str) -> (r: Vec<String>)
    ensures
        texts(r@) == plist_fields(lines_of(contents@), lines_of(contents@).len() as int),
{
    let lines = lines(contents);
    let ghost all = lines@.map_values(|l: &str| l@);
    let mut r: Vec<String> = Vec::new();
    let mut i: usize = 0;
    assert(texts(r@) =~= Seq::empty());
    while i < lines.len()
        invariant
            i <= lines@.len(),
            all == lines@.map_values(|l: &str| l@),
            texts(r@) == plist_fields(all, i as int),
        decreases lines.len() - i,
    {
        let ghost was = r@;
        assert(all[i as int] == lines@[i as int]@);
        if same(trim(lines[i]), "<key>WorkingDirectory</key>") && i + 1 < lines.len() {
            assert(all[i + 1] == lines@[i + 1]@);
            if let Some(v) = extract_plist_string(lines[i + 1]) {
                let field: String = concat("    working dir: ", v);
                r.push(field);
                assert(texts(r@) =~= texts(was).push(field@));
            }
        }
        i = i + 1;
    }
    r
}

// ---------------------------------------------------------------------------
// State and status
// ---------------------------------------------------------------------------

/// The state of the launchd service, from what `launchctl list` has printed.
pub open spec fn launchd_state_of(success: bool, out: Seq<char>) -> Seq<char> {
    let line = if lines_of(out).len() == 0 {
        Seq::empty()
    } else {
        lines_of(out).last()
    };
    let pid = before_first(line, '\t');
    if !success {
        "not loaded"@
    } else if pid == "-"@ {
        "not running"@
    } else if pid.len() > 0 {
        "running (pid "@ + pid + ")"@
    } else {
        "loaded"@
    }
}

/// The state of the launchd service, from whether `launchctl list` has
/// succeeded and what it has printed (PID, status and label, with tabs between
/// them).
pub fn launchd_state(success: bool, out: &str) -> (r: String)
    ensures
        r@ == launchd_state_of(success, out@),
{
    if !success {
        return "not loaded".to_owned();
    }
    let lines = lines(out);
    assert(lines@.map_values(|l: &str| l@).len() == lines@.len());
    if lines.len() == 0 {
        proof {
            reveal_strlit("-");
            assert(before_first(Seq::<char>::empty(), '\t').len() == 0);
        }
        return "loaded".to_owned();
    }
    let last: &str = lines[lines.len() - 1];
    assert(lines@.map_values(|l: &str| l@).last() == last@);
    let pid: &str = before(last, '\t');
    if same(pid, "-") {
        "not running".to_owned()
    } else if !pid.is_empty() {
        enclosed("running (pid ", pid, ")")
    } else {
        "loaded".to_owned()
    }
}

/// The state of the systemd service.
pub open spec fn systemd_state_of(active: Seq<char>, enabled: Option<Seq<char>>) -> Seq<char> {
    trimmed(active) + ", "@ + (match enabled {
        Some(e) => trimmed(e),
        None => "unknown"@,
    })
}

/// The state of the systemd service, from what `systemctl is-active` and, if it
/// could be run, `systemctl is-enabled` have printed.
pub fn systemd_state(active: &str, enabled: Option<&str>) -> (r: String)
    ensures
        r@ == systemd_state_of(active@, str_opt(enabled)),
{
    let enabled: &str = match enabled {
        Some(e) => trim(e),
        None => "unknown",
    };
    enclosed(trim(active), ", ", enabled)
}

/// The path of something that is installed, or that it is not.
pub open spec fn path_or_missing(path: Option<Seq<char>>) -> Seq<char> {
    match path {
        Some(path) => path,
        None => "not installed"@,
    }
}

/// The path of something that is installed, or that it is not.
fn path_or_not_installed<'a>(path: Option<&'a str>) -> (r: &'a str)
    ensures
        r@ == path_or_missing(str_opt(path)),
{
    match path {
        Some(path) => path,
        None => "not installed",
    }
}

/// The first lines of the installation status: the program and the aliases.
pub fn install_status(
    version: &str,
    exe: &str,
    bash_aliases: Option<&str>,
    zsh_aliases: Option<&str>,
) -> (r: Vec<String>)
    ensures
        texts(r@) == seq![
            "composer v"@ + version@,
            "  binary: "@ + exe@,
            "  bash aliases: "@ + path_or_missing(str_opt(bash_aliases)),
            "  zsh aliases: "@ + path_or_missing(str_opt(zsh_aliases)),
        ],
{
    let r: Vec<String> = vec![
        concat("composer v", version),
        concat("  binary: ", exe),
        concat("  bash aliases: ", path_or_not_installed(bash_aliases)),
        concat("  zsh aliases: ", path_or_not_installed(zsh_aliases)),
    ];
    assert(texts(r@) =~= seq![
        "composer v"@ + version@,
        "  binary: "@ + exe@,
        "  bash aliases: "@ + path_or_missing(str_opt(bash_aliases)),
        "  zsh aliases: "@ + path_or_missing(str_opt(zsh_aliases)),
    ]);
    r
}

/// The lines of the installation status on a service manager.
pub open spec fn manager_lines(
    name: Seq<char>,
    path: Option<Seq<char>>,
    fields: Seq<Seq<char>>,
    state: Option<Seq<char>>,
) -> Seq<Seq<char>> {
    match path {
        None => seq!["  "@ + name + ": not installed"@],
        Some(path) => seq!["  "@ + name + ": "@ + path] + fields + (match state {
            Some(state) => seq!["    state: "@ + state],
            None => Seq::empty(),
        }),
    }
}

/// The lines of the installation status on a service manager: where the
/// daemon is installed, if it is, the key fields of that file, and the state of
/// the service, if it could be found out.
pub fn manager_status(
    name: &str,
    path: Option<&str>,
    fields: Vec<String>,
    state: Option<&str>,
) -> (r: Vec<String>)
    ensures
        texts(r@) == manager_lines(name@, str_opt(path), texts(fields@), str_opt(state)),
{
    let path: &str = match path {
        Some(path) => path,
        None => {
            let r: Vec<String> = vec![enclosed("  ", name, ": not installed")];
            assert(texts(r@) =~= seq!["  "@ + name@ + ": not installed"@]);
            return r;
        },
    };
    let title: String = concat(enclosed("  ", name, ": ").as_str(), path);
    let mut r: Vec<String> = vec![title];
    let ghost listed = texts(fields@);
    let mut fields = fields;
    let ghost added = fields@;
    r.append(&mut fields);
    if let Some(state) = state {
        r.push(concat("    state: ", state));
    }
    assert(texts(r@) =~= manager_lines(name@, Some(path@), listed, str_opt(state)));
    r
}

/// What is shown before an installation is confirmed.
pub fn install_summary(
    manager: &str,
    user: Option<&str>,
    working_dir: &str,
    compose_file: &str,
    extra_env: &Vec<String>,
) -> (r: Vec<String>)
    ensures
        texts(r@) == seq!["Installing "@ + manager@ + " service:"@] + (match str_opt(user) {
            Some(user) => seq!["  user: "@ + user],
            None => Seq::empty(),
        }) + seq!["  working dir: "@ + working_dir@, "  compose file: "@ + compose_file@] + texts(
            extra_env@,
        ).map_values(|kv: Seq<char>| "  env: "@ + kv),
{
    let mut r: Vec<String> = vec![enclosed("Installing ", manager, " service:")];
    if let Some(user) = user {
        r.push(concat("  user: ", user));
    }
    r.push(concat("  working dir: ", working_dir));
    r.push(concat("  compose file: ", compose_file));
    let ghost head = texts(r@);
    let ghost env = texts(extra_env@).map_values(|kv: Seq<char>| "  env: "@ + kv);
    assert(head + env.take(0) =~= head);
    let mut i: usize = 0;
    while i < extra_env.len()
        invariant
            i <= extra_env@.len(),
            env == texts(extra_env@).map_values(|kv: Seq<char>| "  env: "@ + kv),
            texts(r@) == head + env.take(i as int),
        decreases extra_env.len() - i,
    {
        let ghost was = texts(r@);
        let line: String = concat("  env: ", extra_env[i].as_str());
        r.push(line);
        proof {
            assert(line@ == env[i as int]);
            assert(texts(r@) =~= was.push(line@));
            assert(was.push(line@) =~= head + env.take(i + 1));
        }
        i = i + 1;
    }
    assert(env.take(i as int) =~= env);
    assert(texts(r@) =~= seq!["Installing "@ + manager@ + " service:"@] + (match str_opt(user) {
        Some(user) => seq!["  user: "@ + user],
        None => Seq::empty(),
    }) + seq!["  working dir: "@ + working_dir@, "  compose file: "@ + compose_file@] + env);
    r
}

// ---------------------------------------------------------------------------
// Updating and uninstalling
// ---------------------------------------------------------------------------

/// The name by which releases call an architecture.
pub open spec fn release_arch(arch: Seq<char>) -> Option<Seq<char>> {
    if arch == "x86_64"@ {
        Some("amd64"@)
    } else if arch == "aarch64"@ {
        Some("arm64"@)
    } else {
        None
    }
}

/// The release file for a platform.
pub fn release_artifact(os: &str, arch: &str) -> (r: Result<String, String>)
    ensures
        match release_arch(arch@) {
            Some(name) => r matches Ok(artifact) && artifact@ == "composer-"@ + os@ + "-"@ + name,
            None => r matches Err(e) && e@ == "unsupported architecture: "@ + arch@,
        },
{
    let name: &str = if same(arch, "x86_64") {
        "amd64"
    } else if same(arch, "aarch64") {
        "arm64"
    } else {
        return Err(concat("unsupported architecture: ", arch));
    };
    let mut r: String = enclosed("composer-", os, "-");
    r.append(name);
    Ok(r)
}

/// The command that downloads a release file over the program.
pub fn download_command(artifact: &str, exe: &str) -> (r: CommandLine)
    ensures
        r.program@ == "curl"@,
        texts(r.args@) == seq![
            "-fsSL"@,
            "https://github.com/architect-xyz/composer/releases/latest/download/"@ + artifact@,
            "-o"@,
            exe@,
        ],
{
    let url = concat(
        "https://github.com/architect-xyz/composer/releases/latest/download/",
        artifact,
    );
    let cmd = CommandLine::new("curl").arg("-fsSL").arg(url.as_str()).arg("-o").arg(exe);
    assert(texts(cmd.args@) =~= seq!["-fsSL"@, url@, "-o"@, exe@]);
    cmd
}

/// Something that can be uninstalled: a file, with the commands to run before
/// it is removed and once it has been.
#[derive(Debug)]
pub struct InstalledFile {
    pub name: String,
    pub path: String,
    pub before: Vec<CommandLine>,
    pub after: Vec<CommandLine>,
}

/// The model of a command.
pub open spec fn command_of(cmd: CommandLine) -> (Seq<char>, Seq<Seq<char>>) {
    (cmd.program@, texts(cmd.args@))
}

/// The model of something that can be uninstalled: its name, its path and the
/// commands before and after.
pub open spec fn file_of(f: InstalledFile) -> (
    Seq<char>,
    Seq<char>,
    Seq<(Seq<char>, Seq<Seq<char>>)>,
    Seq<(Seq<char>, Seq<Seq<char>>)>,
) {
    (
        f.name@,
        f.path@,
        f.before@.map_values(|c: CommandLine| command_of(c)),
        f.after@.map_values(|c: CommandLine| command_of(c)),
    )
}

/// What can be uninstalled, in order: the daemon is stopped and taken out of
/// its service manager, and the aliases are removed.
pub fn installed_files(home: &str) -> (r: Vec<InstalledFile>)
    ensures
        r@.len() == 4,
        file_of(r@[0]) == (
            "systemd unit"@,
            SYSTEMD_UNIT_PATH@,
            seq![
                ("systemctl"@, seq!["stop"@, "composer"@]),
                ("systemctl"@, seq!["disable"@, "composer"@]),
            ],
            seq![("systemctl"@, seq!["daemon-reload"@])],
        ),
        file_of(r@[1]) == (
            "launchd plist"@,
            path_join(home@, PLIST_PATH@),
            seq![("launchctl"@, seq!["unload"@, path_join(home@, PLIST_PATH@)])],
            Seq::<(Seq<char>, Seq<Seq<char>>)>::empty(),
        ),
        file_of(r@[2]) == (
            "bash aliases"@,
            path_join(home@, BASH_ALIASES_PATH@),
            Seq::<(Seq<char>, Seq<Seq<char>>)>::empty(),
            Seq::<(Seq<char>, Seq<Seq<char>>)>::empty(),
        ),
        file_of(r@[3]) == (
            "zsh aliases"@,
            path_join(home@, ZSH_ALIASES_PATH@),
            Seq::<(Seq<char>, Seq<Seq<char>>)>::empty(),
            Seq::<(Seq<char>, Seq<Seq<char>>)>::empty(),
        ),
{
    let plist = launchd_plist_path(home);
    let stop = CommandLine::new("systemctl").arg("stop").arg("composer");
    let disable = CommandLine::new("systemctl").arg("disable").arg("composer");
    let reload = CommandLine::new("systemctl").arg("daemon-reload");
    let unload = CommandLine::new("launchctl").arg("unload").arg(plist.as_str());
    proof {
        assert(texts(stop.args@) =~= seq!["stop"@, "composer"@]);
        assert(texts(disable.args@) =~= seq!["disable"@, "composer"@]);
        assert(texts(reload.args@) =~= seq!["daemon-reload"@]);
        assert(texts(unload.args@) =~= seq!["unload"@, plist@]);
    }
    let unit = InstalledFile {
        name: "systemd unit".to_owned(),
        path: SYSTEMD_UNIT_PATH.to_owned(),
        before: vec![stop, disable],
        after: vec![reload],
    };
    let agent = InstalledFile {
        name: "launchd plist".to_owned(),
        path: plist,
        before: vec![unload],
        after: Vec::new(),
    };
    let bash = InstalledFile {
        name: "bash aliases".to_owned(),
        path: join_path(home, BASH_ALIASES_PATH),
        before: Vec::new(),
        after: Vec::new(),
    };
    let zsh = InstalledFile {
        name: "zsh aliases".to_owned(),
        path: join_path(home, ZSH_ALIASES_PATH),
        before: Vec::new(),
        after: Vec::new(),
    };
    vec![unit, agent, bash, zsh]
}

/// What is printed once everything that was found has been removed.
pub open spec fn uninstall_lines(removed: Seq<(Seq<char>, Seq<char>)>, exe: Seq<char>) -> Seq<
    Seq<char>,
> {
    if removed.len() == 0 {
        seq!["Nothing to uninstall."@]
    } else {
        removed.map_values(|f: (Seq<char>, Seq<char>)| "Removed "@ + f.0 + ": "@ + f.1) + seq![
            ""@,
            "To complete uninstall, remove the binary:"@,
            "  sudo rm "@ + exe,
        ]
    }
}

/// What is printed once everything that was found has been removed.  The
/// program itself is not removed, since it is running.
pub fn uninstall_report(removed: &Vec<InstalledFile>, exe: &str) -> (r: Vec<String>)
    ensures
        texts(r@) == uninstall_lines(
            removed@.map_values(|f: InstalledFile| (f.name@, f.path@)),
            exe@,
        ),
{
    let ghost files = removed@.map_values(|f: InstalledFile| (f.name@, f.path@));
    if removed.len() == 0 {
        let r: Vec<String> = vec!["Nothing to uninstall.".to_owned()];
        assert(texts(r@) =~= uninstall_lines(files, exe@));
        return r;
    }
    let ghost lines = files.map_values(
        |f: (Seq<char>, Seq<char>)| "Removed "@ + f.0 + ": "@ + f.1,
    );
    let mut r: Vec<String> = Vec::new();
    let mut i: usize = 0;
    assert(texts(r@) =~= lines.take(0));
    while i < removed.len()
        invariant
            i <= removed@.len(),
            files == removed@.map_values(|f: InstalledFile| (f.name@, f.path@)),
            lines == files.map_values(
                |f: (Seq<char>, Seq<char>)| "Removed "@ + f.0 + ": "@ + f.1,
            ),
            texts(r@) == lines.take(i as int),
        decreases removed.len() - i,
    {
        let ghost was = texts(r@);
        let mut line: String = enclosed("Removed ", removed[i].name.as_str(), ": ");
        line.append(removed[i].path.as_str());
        r.push(line);
        proof {
            assert(line@ == lines[i as int]);
            assert(texts(r@) =~= was.push(line@));
            assert(was.push(line@) =~= lines.take(i + 1));
        }
        i = i + 1;
    }
    assert(lines.take(i as int) =~= lines);
    r.push("".to_owned());
    r.push("To complete uninstall, remove the binary:".to_owned());
    r.push(concat("  sudo rm ", exe));
    assert(texts(r@) =~= uninstall_lines(files, exe@));
    r
}

// ---------------------------------------------------------------------------
// Laws
// ---------------------------------------------------------------------------

/// What is escaped holds no character of markup but the ampersands of its
/// entities.
pub proof fn law_escaped_text_holds_no_markup(s: Seq<char>, i: int)
    requires
        0 <= i < escaped(s).len(),
    ensures
        escaped(s)[i] != '<',
        escaped(s)[i] != '>',
        escaped(s)[i] != '"',
        escaped(s)[i] != '\'',
    decreases s.len(),
{
    reveal_entities();
    let first = escaped_char(s[0]);
    if i < first.len() {
        assert(escaped(s)[i] == first[i]);
    } else {
        law_escaped_text_holds_no_markup(s.drop_first(), i - first.len());
        assert(escaped(s)[i] == escaped(s.drop_first())[i - first.len()]);
    }
}

/// Different texts stay different when they are escaped: nothing is lost.
pub proof fn law_escaping_loses_nothing(a: Seq<char>, b: Seq<char>)
    requires
        escaped(a) == escaped(b),
    ensures
        a == b,
    decreases a.len(),
{
    reveal_entities();
    if a.len() == 0 {
        if b.len() > 0 {
            assert(escaped(b).len() >= escaped_char(b[0]).len());
        }
        assert(a =~= b);
    } else if b.len() == 0 {
        assert(escaped(a).len() >= escaped_char(a[0]).len());
    } else {
        let x = escaped_char(a[0]);
        let y = escaped_char(b[0]);
        let e = escaped(a);
        assert forall|i: int| 0 <= i < x.len() implies e[i] == x[i] by {}
        assert forall|i: int| 0 <= i < y.len() implies e[i] == y[i] by {
            assert(escaped(b)[i] == y[i]);
        }
        assert(x[0] == y[0]);
        if a[0] != b[0] {
            assert(x.len() >= 4 && y.len() >= 4);
            assert(x[1] == e[1] && y[1] == e[1]);
            assert(x[2] == e[2] && y[2] == e[2]);
        }
        assert(a[0] == b[0]);
        assert(escaped(a.drop_first()) =~= e.skip(x.len() as int));
        assert(escaped(b.drop_first()) =~= e.skip(x.len() as int));
        law_escaping_loses_nothing(a.drop_first(), b.drop_first());
        assert(a =~= seq![a[0]] + a.drop_first());
        assert(b =~= seq![b[0]] + b.drop_first());
    }
}

/// What the entities hold.
proof fn reveal_entities()
    ensures
        "&amp;"@ == seq!['&', 'a', 'm', 'p', ';'],
        "&lt;"@ == seq!['&', 'l', 't', ';'],
        "&gt;"@ == seq!['&', 'g', 't', ';'],
        "&quot;"@ == seq!['&', 'q', 'u', 'o', 't', ';'],
        "&apos;"@ == seq!['&', 'a', 'p', 'o', 's', ';'],
{
    reveal_strlit("&amp;");
    reveal_strlit("&lt;");
    reveal_strlit("&gt;");
    reveal_strlit("&quot;");
    reveal_strlit("&apos;");
    assert("&amp;"@ =~= seq!['&', 'a', 'm', 'p', ';']);
    assert("&lt;"@ =~= seq!['&', 'l', 't', ';']);
    assert("&gt;"@ =~= seq!['&', 'g', 't', ';']);
    assert("&quot;"@ =~= seq!['&', 'q', 'u', 'o', 't', ';']);
    assert("&apos;"@ =~= seq!['&', 'a', 'p', 'o', 's', ';']);
}

/// Whether a value can be written to a line and read back: it stays on the line
/// and has no white space at its end.
pub open spec fn plain_value(v: Seq<char>) -> bool {
    !v.contains('\n') && (v.len() > 0 ==> !whitespace(v.last()))
}

/// What lines tell is what their parts tell.
proof fn lemma_unit_fields_add(a: Seq<Seq<char>>, b: Seq<Seq<char>>)
    ensures
        unit_fields(a + b) == unit_fields(a) + unit_fields(b),
    decreases b.len(),
{
    if b.len() == 0 {
        assert(a + b =~= a);
        assert(unit_fields(a) + unit_fields(b) =~= unit_fields(a));
    } else {
        lemma_unit_fields_add(a, b.drop_last());
        assert((a + b).drop_last() =~= a + b.drop_last());
        assert((a + b).last() == b.last());
        assert(unit_fields(a + b) =~= unit_fields(a) + unit_fields(b));
    }
}

/// Lines that tell nothing.
proof fn lemma_silent_lines(lines: Seq<Seq<char>>)
    requires
        forall|i: int| 0 <= i < lines.len() ==> unit_field(#[trigger] lines[i]) is None,
    ensures
        unit_fields(lines) == Seq::<Seq<char>>::empty(),
    decreases lines.len(),
{
    if lines.len() > 0 {
        assert(unit_field(lines[lines.len() - 1]) is None);
        lemma_silent_lines(lines.drop_last());
    }
}

/// A line that tells something.
proof fn lemma_telling_line(line: Seq<char>)
    ensures
        unit_fields(seq![line]) == (match unit_field(line) {
            Some(field) => seq![field],
            None => Seq::empty(),
        }),
{
    assert(seq![line].drop_last() =~= Seq::<Seq<char>>::empty());
    assert(unit_fields(seq![line].drop_last()) =~= Seq::<Seq<char>>::empty());
}

/// A line without the beginning of a field tells nothing.
proof fn lemma_silent_line(line: Seq<char>)
    requires
        line.len() > 0 ==> !whitespace(line[0]) && !whitespace(line.last()),
        line.len() > 0 ==> line[0] != 'U' && line[0] != 'E' && (line[0] == 'W' ==> line.len() > 1
            && line[1] != 'o'),
    ensures
        unit_field(line) is None,
{
    lemma_trimmed_is(line);
    reveal_strlit("User=");
    reveal_strlit("WorkingDirectory=");
    reveal_strlit("ExecStart=");
    reveal_strlit("Environment=");
    if "User="@.is_prefix_of(line) {
        assert(line.subrange(0, "User="@.len() as int)[0] == 'U');
    }
    if "WorkingDirectory="@.is_prefix_of(line) {
        assert(line.subrange(0, "WorkingDirectory="@.len() as int)[0] == 'W');
        assert(line.subrange(0, "WorkingDirectory="@.len() as int)[1] == 'o');
    }
    if "ExecStart="@.is_prefix_of(line) {
        assert(line.subrange(0, "ExecStart="@.len() as int)[0] == 'E');
    }
    if "Environment="@.is_prefix_of(line) {
        assert(line.subrange(0, "Environment="@.len() as int)[0] == 'E');
    }
}

/// A line that holds a field with a plain value is a line, tells the value, and
/// nothing else.
proof fn lemma_field_lines(v: Seq<char>)
    requires
        plain_value(v),
    ensures
        is_line("User="@ + v),
        unit_field("User="@ + v) == Some("    user: "@ + v),
        is_line("WorkingDirectory="@ + v),
        unit_field("WorkingDirectory="@ + v) == Some("    working dir: "@ + v),
        is_line("ExecStart="@ + v),
        unit_field("ExecStart="@ + v) == Some("    exec: "@ + v),
        is_line("Environment="@ + v),
        unit_field("Environment="@ + v) == (if v == DEFAULT_ENVIRONMENT@ {
            None
        } else {
            Some("    env: "@ + v)
        }),
{
    reveal_strlit("User=");
    reveal_strlit("WorkingDirectory=");
    reveal_strlit("ExecStart=");
    reveal_strlit("Environment=");
    let prefixes = seq!["User="@, "WorkingDirectory="@, "ExecStart="@, "Environment="@];
    assert forall|k: int| 0 <= k < 4 implies is_line(#[trigger] prefixes[k] + v) && trimmed(
        prefixes[k] + v,
    ) == prefixes[k] + v && stripped_prefix(prefixes[k] + v, prefixes[k]) == Some(v) by {
        let p = prefixes[k];
        let line = p + v;
        assert(p == "User="@ || p == "WorkingDirectory="@ || p == "ExecStart="@ || p
            == "Environment="@);
        assert(p.last() == '=');
        assert(!whitespace(p[0]));
        assert(line[0] == p[0]);
        assert(v.len() > 0 ==> line.last() == v.last());
        assert(v.len() == 0 ==> line.last() == p.last());
        lemma_trimmed_is(line);
        assert(line.subrange(0, p.len() as int) =~= p);
        assert(line.skip(p.len() as int) =~= v);
        assert forall|i: int| 0 <= i < line.len() implies line[i] != '\n' by {
            if i >= p.len() {
                assert(v.contains(v[i - p.len()]));
            }
        }
    }
    let user = prefixes[0] + v;
    let dir = prefixes[1] + v;
    let exec = prefixes[2] + v;
    let env = prefixes[3] + v;
    assert(user == "User="@ + v && dir == "WorkingDirectory="@ + v && exec == "ExecStart="@ + v
        && env == "Environment="@ + v);
    assert(dir[0] == 'W' && exec[0] == 'E' && exec[1] == 'x' && env[0] == 'E' && env[1] == 'n');
    if "User="@.is_prefix_of(dir) {
        assert(dir.subrange(0, "User="@.len() as int)[0] == 'U');
    }
    if "User="@.is_prefix_of(exec) {
        assert(exec.subrange(0, "User="@.len() as int)[0] == 'U');
    }
    if "User="@.is_prefix_of(env) {
        assert(env.subrange(0, "User="@.len() as int)[0] == 'U');
    }
    if "WorkingDirectory="@.is_prefix_of(exec) {
        assert(exec.subrange(0, "WorkingDirectory="@.len() as int)[0] == 'W');
    }
    if "WorkingDirectory="@.is_prefix_of(env) {
        assert(env.subrange(0, "WorkingDirectory="@.len() as int)[0] == 'W');
    }
    if "ExecStart="@.is_prefix_of(env) {
        assert(env.subrange(0, "ExecStart="@.len() as int)[1] == 'x');
    }
}

/// The lines of the environment tell the variables, but for the default.
proof fn lemma_env_lines(extra_env: Seq<Seq<char>>)
    requires
        forall|i: int| 0 <= i < extra_env.len() ==> plain_value(#[trigger] extra_env[i]),
        !extra_env.contains(DEFAULT_ENVIRONMENT@),
    ensures
        unit_fields(extra_env.map_values(|kv: Seq<char>| "Environment="@ + kv))
            == extra_env.map_values(|kv: Seq<char>| "    env: "@ + kv),
    decreases extra_env.len(),
{
    let lines = extra_env.map_values(|kv: Seq<char>| "Environment="@ + kv);
    let told = extra_env.map_values(|kv: Seq<char>| "    env: "@ + kv);
    if extra_env.len() == 0 {
        assert(unit_fields(lines) =~= told);
    } else {
        let rest = extra_env.drop_last();
        let kv = extra_env.last();
        assert forall|i: int| 0 <= i < rest.len() implies plain_value(#[trigger] rest[i]) by {
            assert(rest[i] == extra_env[i]);
        }
        if rest.contains(DEFAULT_ENVIRONMENT@) {
            let i = choose|i: int| 0 <= i < rest.len() && rest[i] == DEFAULT_ENVIRONMENT@;
            assert(extra_env[i] == DEFAULT_ENVIRONMENT@);
        }
        lemma_env_lines(rest);
        assert(plain_value(extra_env[extra_env.len() - 1]));
        lemma_field_lines(kv);
        assert(extra_env.contains(kv));
        assert(lines.drop_last() =~= rest.map_values(|kv: Seq<char>| "Environment="@ + kv));
        assert(told =~= rest.map_values(|kv: Seq<char>| "    env: "@ + kv).push("    env: "@ + kv));
    }
}

/// What was installed under systemd is what the status of the installation
/// tells of the unit: the user, the working directory, the command and the
/// extra environment.
pub proof fn law_unit_reads_back(
    user: Seq<char>,
    working_dir: Seq<char>,
    composer_bin: Seq<char>,
    compose_file: Seq<char>,
    extra_env: Seq<Seq<char>>,
)
    requires
        plain_value(user),
        plain_value(working_dir),
        !composer_bin.contains('\n'),
        plain_value(compose_file),
        compose_file.len() > 0,
        forall|i: int| 0 <= i < extra_env.len() ==> plain_value(#[trigger] extra_env[i]),
        !extra_env.contains(DEFAULT_ENVIRONMENT@),
    ensures
        unit_fields(
            lines_of(
                terminated(unit_lines(user, working_dir, composer_bin, compose_file, extra_env)),
            ),
        ) == seq![
            "    user: "@ + user,
            "    working dir: "@ + working_dir,
            "    exec: "@ + (composer_bin + " -f "@ + compose_file),
        ] + extra_env.map_values(|kv: Seq<char>| "    env: "@ + kv),
{
    reveal_strlit("[Unit]");
    reveal_strlit("Description=Composer – Docker Compose scheduler");
    reveal_strlit("After=docker.service");
    reveal_strlit("Requires=docker.service");
    reveal_strlit("");
    reveal_strlit("[Service]");
    reveal_strlit("Type=simple");
    reveal_strlit("Restart=on-failure");
    reveal_strlit("RestartSec=5s");
    reveal_strlit("[Install]");
    reveal_strlit("WantedBy=multi-user.target");
    reveal_strlit("RUST_LOG=composer=info");
    reveal_strlit(" -f ");
    let exec = composer_bin + " -f "@ + compose_file;
    let opening = seq![
        "[Unit]"@,
        "Description=Composer – Docker Compose scheduler"@,
        "After=docker.service"@,
        "Requires=docker.service"@,
        ""@,
        "[Service]"@,
        "Type=simple"@,
    ];
    let restart = seq!["Restart=on-failure"@, "RestartSec=5s"@];
    let default_env = "Environment="@ + DEFAULT_ENVIRONMENT@;
    let env = extra_env.map_values(|kv: Seq<char>| "Environment="@ + kv);
    let tail = unit_tail();
    let all = unit_lines(user, working_dir, composer_bin, compose_file, extra_env);

    // each line by itself
    assert(plain_value(exec)) by {
        assert(exec.last() == compose_file.last());
        assert forall|i: int| 0 <= i < exec.len() implies exec[i] != '\n' by {
            let n = composer_bin.len() as int;
            if i < n {
                assert(composer_bin.contains(composer_bin[i]));
            } else if i >= n + 4 {
                assert(compose_file.contains(compose_file[i - n - 4]));
            }
        }
    }
    assert(plain_value(DEFAULT_ENVIRONMENT@));
    lemma_field_lines(user);
    lemma_field_lines(working_dir);
    lemma_field_lines(exec);
    lemma_field_lines(DEFAULT_ENVIRONMENT@);
    assert forall|i: int| 0 <= i < opening.len() implies unit_field(#[trigger] opening[i]) is None
        && is_line(opening[i]) by {
        lemma_silent_line(opening[i]);
    }
    assert forall|i: int| 0 <= i < restart.len() implies unit_field(#[trigger] restart[i]) is None
        && is_line(restart[i]) by {
        lemma_silent_line(restart[i]);
    }
    assert forall|i: int| 0 <= i < tail.len() implies unit_field(#[trigger] tail[i]) is None
        && is_line(tail[i]) by {
        lemma_silent_line(tail[i]);
    }
    assert forall|i: int| 0 <= i < env.len() implies is_line(#[trigger] env[i]) by {
        assert(plain_value(extra_env[i]));
        lemma_field_lines(extra_env[i]);
    }

    // the lines together
    let l1 = opening + seq!["User="@ + user];
    let l2 = l1 + seq!["WorkingDirectory="@ + working_dir];
    let l3 = l2 + seq!["ExecStart="@ + exec];
    let l4 = l3 + restart;
    let l5 = l4 + seq![default_env];
    let l6 = l5 + env;
    assert(all =~= l6 + tail);
    assert forall|i: int| 0 <= i < all.len() implies is_line(#[trigger] all[i]) by {
        if i < 7 {
            assert(all[i] == opening[i]);
        } else if i == 7 {
            assert(all[i] == "User="@ + user);
        } else if i == 8 {
            assert(all[i] == "WorkingDirectory="@ + working_dir);
        } else if i == 9 {
            assert(all[i] == "ExecStart="@ + exec);
        } else if i < 12 {
            assert(all[i] == restart[i - 10]);
        } else if i == 12 {
            assert(all[i] == default_env);
        } else if i < 13 + env.len() {
            assert(all[i] == env[i - 13]);
        } else {
            assert(all[i] == tail[i - 13 - env.len()]);
        }
    }
    lemma_lines_of_terminated(all);
    lemma_silent_lines(opening);
    lemma_silent_lines(restart);
    lemma_silent_lines(tail);
    lemma_env_lines(extra_env);
    lemma_telling_line("User="@ + user);
    lemma_telling_line("WorkingDirectory="@ + working_dir);
    lemma_telling_line("ExecStart="@ + exec);
    lemma_telling_line(default_env);
    lemma_unit_fields_add(opening, seq!["User="@ + user]);
    lemma_unit_fields_add(l1, seq!["WorkingDirectory="@ + working_dir]);
    lemma_unit_fields_add(l2, seq!["ExecStart="@ + exec]);
    lemma_unit_fields_add(l3, restart);
    lemma_unit_fields_add(l4, seq![default_env]);
    lemma_unit_fields_add(l5, env);
    lemma_unit_fields_add(l6, tail);
    assert(unit_fields(all) =~= seq![
        "    user: "@ + user,
        "    working dir: "@ + working_dir,
        "    exec: "@ + exec,
    ] + extra_env.map_values(|kv: Seq<char>| "    env: "@ + kv));
}

/// Escaping brings no line feed in.
proof fn lemma_escaped_stays_on_line(s: Seq<char>)
    requires
        !s.contains('\n'),
    ensures
        !escaped(s).contains('\n'),
    decreases s.len(),
{
    reveal_entities();
    if s.len() > 0 {
        let first = escaped_char(s[0]);
        let rest = s.drop_first();
        assert(s.contains(s[0]));
        assert forall|i: int| 0 <= i < rest.len() implies rest[i] != '\n' by {
            assert(s.contains(s[i + 1]));
        }
        lemma_escaped_stays_on_line(rest);
        assert forall|i: int| 0 <= i < escaped(s).len() implies escaped(s)[i] != '\n' by {
            if i < first.len() {
                assert(escaped(s)[i] == first[i]);
            } else {
                assert(escaped(s)[i] == escaped(rest)[i - first.len()]);
                assert(escaped(rest).contains(escaped(rest)[i - first.len()]));
            }
        }
    }
}

/// A text without characters of markup stands in XML as it is.
proof fn lemma_escaped_plain(s: Seq<char>)
    requires
        forall|i: int| 0 <= i < s.len() ==> escaped_char(#[trigger] s[i]) == seq![s[i]],
    ensures
        escaped(s) == s,
    decreases s.len(),
{
    if s.len() > 0 {
        let rest = s.drop_first();
        assert forall|i: int| 0 <= i < rest.len() implies escaped_char(#[trigger] rest[i])
            == seq![rest[i]] by {
            assert(rest[i] == s[i + 1]);
        }
        lemma_escaped_plain(rest);
        assert(escaped_char(s[0]) == seq![s[0]]);
    }
    assert(escaped(s) =~= s);
}

/// Whether a line of a plist is not the key of the working directory: indented
/// markup that holds something else.
spec fn other_line(indent: Seq<char>, body: Seq<char>) -> bool {
    &&& forall|i: int| 0 <= i < indent.len() ==> #[trigger] indent[i] == ' '
    &&& body.len() > 5
    &&& body[0] == '<'
    &&& body.last() == '>'
    &&& body[1] != 'k' || body[5] != 'W'
    &&& !body.contains('\n')
}

proof fn lemma_other_line(indent: Seq<char>, body: Seq<char>)
    requires
        other_line(indent, body),
    ensures
        trimmed(indent + body) != "<key>WorkingDirectory</key>"@,
        is_line(indent + body),
{
    reveal_strlit("<key>WorkingDirectory</key>");
    lemma_indented(indent, body);
}

/// White space before a text that has none at its ends is trimmed away.
proof fn lemma_indented(indent: Seq<char>, body: Seq<char>)
    requires
        forall|i: int| 0 <= i < indent.len() ==> #[trigger] indent[i] == ' ',
        body.len() > 0,
        body[0] == '<',
        body.last() == '>',
        !body.contains('\n'),
    ensures
        trimmed(indent + body) == body,
        is_line(indent + body),
{
    let line = indent + body;
    lemma_trimmed_padding(indent, body, Seq::empty());
    assert(indent + body + Seq::<char>::empty() =~= line);
    lemma_trimmed_is(body);
    assert(line.last() == '>');
    assert forall|i: int| 0 <= i < line.len() implies line[i] != '\n' by {
        if i >= indent.len() {
            assert(body.contains(body[i - indent.len()]));
        }
    }
}

/// A value between `string` tags is a line of its own, and reads back.
proof fn lemma_string_line(indent: Seq<char>, open: Seq<char>, v: Seq<char>)
    requires
        forall|i: int| 0 <= i < indent.len() ==> #[trigger] indent[i] == ' ',
        open == indent + "<string>"@,
        !v.contains('\n'),
    ensures
        is_line(open + v + "</string>"@),
        trimmed(open + v + "</string>"@) != "<key>WorkingDirectory</key>"@,
        plist_string(open + v + "</string>"@) == Some(v),
{
    reveal_strlit("<string>");
    reveal_strlit("</string>");
    let body = "<string>"@ + v + "</string>"@;
    let line = open + v + "</string>"@;
    assert(line =~= indent + body);
    let n = v.len() as int;
    assert forall|i: int| 0 <= i < body.len() implies body[i] != '\n' by {
        if 8 <= i < 8 + n {
            assert(v.contains(v[i - 8]));
        }
    }
    assert(body[0] == '<' && body[1] == 's' && body.last() == '>');
    lemma_indented(indent, body);
    lemma_other_line(indent, body);
    let rest = v + "</string>"@;
    assert(body.subrange(0, 8) =~= "<string>"@);
    assert(body.skip(8) =~= rest);
    assert(rest.subrange(n, rest.len() as int) =~= "</string>"@);
    assert(rest.take(n) =~= v);
}

/// A name between `key` tags is a line of its own.
proof fn lemma_key_line(key: Seq<char>)
    requires
        !key.contains('\n'),
        key != "WorkingDirectory"@,
    ensures
        is_line("        <key>"@ + escaped(key) + "</key>"@),
        trimmed("        <key>"@ + escaped(key) + "</key>"@) != "<key>WorkingDirectory</key>"@,
{
    reveal_strlit("        <key>");
    reveal_strlit("</key>");
    reveal_strlit("WorkingDirectory");
    reveal_strlit("<key>WorkingDirectory</key>");
    let indent = Seq::new(8, |i: int| ' ');
    let e = escaped(key);
    let open = seq!['<', 'k', 'e', 'y', '>'];
    let body = open + e + "</key>"@;
    assert("        <key>"@ + e + "</key>"@ =~= indent + body);
    lemma_escaped_stays_on_line(key);
    assert forall|i: int| 0 <= i < body.len() implies body[i] != '\n' by {
        if 5 <= i < 5 + e.len() {
            assert(e.contains(e[i - 5]));
        }
    }
    lemma_indented(indent, body);
    let name = "WorkingDirectory"@;
    if body == "<key>WorkingDirectory</key>"@ {
        assert(body.len() == 5 + e.len() + 6);
        assert(e =~= body.subrange(5, e.len() as int + 5));
        assert(e =~= name);
        reveal_entities();
        lemma_escaped_plain(name);
        law_escaping_loses_nothing(key, name);
    }
}

/// The lines of the environment are lines, and none is the key of the working
/// directory.
proof fn lemma_env_entries(extra_env: Seq<Seq<char>>, k: int)
    requires
        forall|i: int| 0 <= i < extra_env.len() ==> plain_variable(#[trigger] extra_env[i]),
        0 <= k < env_entries(extra_env).len(),
    ensures
        is_line(env_entries(extra_env)[k]),
        trimmed(env_entries(extra_env)[k]) != "<key>WorkingDirectory</key>"@,
    decreases extra_env.len(),
{
    let rest = extra_env.drop_last();
    let kv = extra_env.last();
    let before = env_entries(rest);
    if k < before.len() {
        assert forall|i: int| 0 <= i < rest.len() implies plain_variable(#[trigger] rest[i]) by {
            assert(rest[i] == extra_env[i]);
        }
        lemma_env_entries(rest, k);
        assert(env_entries(extra_env)[k] == before[k]);
    } else {
        assert(plain_variable(extra_env[extra_env.len() - 1]));
        let (key, value) = halves(kv, '=')->Some_0;
        crate::text::lemma_first_index(kv, '=');
        assert forall|i: int| 0 <= i < key.len() implies key[i] != '\n' by {
            assert(kv.contains(kv[i]));
        }
        assert forall|i: int| 0 <= i < value.len() implies value[i] != '\n' by {
            assert(kv.contains(kv[key.len() + 1 + i]));
        }
        lemma_key_line(key);
        lemma_escaped_stays_on_line(value);
        reveal_strlit("        <string>");
        reveal_strlit("<string>");
        let indent = Seq::new(8, |i: int| ' ');
        assert("        <string>"@ =~= indent + "<string>"@);
        lemma_string_line(indent, "        <string>"@, escaped(value));
        assert(env_entries(extra_env)[k] == env_entry(kv)[k - before.len()]);
    }
}

/// Whether an environment variable stays on its line and cannot be taken for
/// the working directory.
pub open spec fn plain_variable(kv: Seq<char>) -> bool {
    !kv.contains('\n') && (halves(kv, '=') matches Some((key, _)) ==> key != "WorkingDirectory"@)
}

/// Where one line tells something, that is what the lines tell.
proof fn lemma_one_field(lines: Seq<Seq<char>>, k: int, n: int, field: Seq<char>)
    requires
        0 <= n <= lines.len(),
        0 <= k < lines.len(),
        plist_field(lines, k) == Some(field),
        forall|i: int|
            0 <= i < lines.len() && i != k ==> trimmed(#[trigger] lines[i])
                != "<key>WorkingDirectory</key>"@,
    ensures
        plist_fields(lines, n) == (if k < n {
            seq![field]
        } else {
            Seq::empty()
        }),
    decreases n,
{
    if n > 0 {
        lemma_one_field(lines, k, n - 1, field);
        if n - 1 != k {
            assert(trimmed(lines[n - 1]) != "<key>WorkingDirectory</key>"@);
        } else {
            assert(Seq::<Seq<char>>::empty().push(field) =~= seq![field]);
        }
    }
}

/// The lines of the plist that do not depend on what is installed.
proof fn lemma_fixed_lines()
    ensures
        forall|i: int|
            #![trigger plist_head(Seq::empty(), Seq::empty(), Seq::empty())[i]]
            0 <= i < 12 && i != 8 && i != 10 ==> {
                let line = plist_head(Seq::empty(), Seq::empty(), Seq::empty())[i];
                is_line(line) && trimmed(line) != "<key>WorkingDirectory</key>"@
            },
        forall|i: int|
            0 <= i < plist_tail().len() ==> is_line(#[trigger] plist_tail()[i]) && trimmed(
                plist_tail()[i],
            ) != "<key>WorkingDirectory</key>"@,
        is_line("    <key>WorkingDirectory</key>"@),
        trimmed("    <key>WorkingDirectory</key>"@) == "<key>WorkingDirectory</key>"@,
        is_line("    <key>EnvironmentVariables</key>"@),
        trimmed("    <key>EnvironmentVariables</key>"@) != "<key>WorkingDirectory</key>"@,
        is_line("    <dict>"@),
        trimmed("    <dict>"@) != "<key>WorkingDirectory</key>"@,
        is_line("    </dict>"@),
        trimmed("    </dict>"@) != "<key>WorkingDirectory</key>"@,
{
    reveal_strlit("<?xml version=\"1.0\" encoding=\"UTF-8\"?>");
    reveal_strlit(
        "<!DOCTYPE plist PUBLIC \"-//Apple//DTD PLIST 1.0//EN\" \"http://www.apple.com/DTDs/PropertyList-1.0.dtd\">",
    );
    reveal_strlit("<plist version=\"1.0\">");
    reveal_strlit("<dict>");
    reveal_strlit("    <key>Label</key>");
    reveal_strlit("    <string>com.architect.composer</string>");
    reveal_strlit("    <key>ProgramArguments</key>");
    reveal_strlit("    <array>");
    reveal_strlit("        <string>-f</string>");
    reveal_strlit("    </array>");
    reveal_strlit("    <key>RunAtLoad</key>");
    reveal_strlit("    <true/>");
    reveal_strlit("    <key>KeepAlive</key>");
    reveal_strlit("    <key>StandardOutPath</key>");
    reveal_strlit("    <string>/tmp/composer.log</string>");
    reveal_strlit("    <key>StandardErrorPath</key>");
    reveal_strlit("    <string>/tmp/composer.err</string>");
    reveal_strlit("</dict>");
    reveal_strlit("</plist>");
    reveal_strlit("    <key>WorkingDirectory</key>");
    reveal_strlit("<key>WorkingDirectory</key>");
    reveal_strlit("    <key>EnvironmentVariables</key>");
    reveal_strlit("    <dict>");
    reveal_strlit("    </dict>");
    let none = Seq::<char>::empty();
    let four = Seq::new(4, |i: int| ' ');
    let eight = Seq::new(8, |i: int| ' ');
    let head = plist_head(none, none, none);
    let tail = plist_tail();
    assert forall|i: int|
        #![trigger plist_head(Seq::empty(), Seq::empty(), Seq::empty())[i]]
        0 <= i < 12 && i != 8 && i != 10 implies {
        let line = plist_head(Seq::empty(), Seq::empty(), Seq::empty())[i];
        is_line(line) && trimmed(line) != "<key>WorkingDirectory</key>"@
    } by {
        let line = head[i];
        let indent = if i < 4 {
            none
        } else if i == 9 {
            eight
        } else {
            four
        };
        let body = line.skip(indent.len() as int);
        assert(line =~= indent + body);
        assert(other_line(indent, body));
        lemma_other_line(indent, body);
    }
    assert forall|i: int| 0 <= i < tail.len() implies is_line(#[trigger] tail[i]) && trimmed(
        tail[i],
    ) != "<key>WorkingDirectory</key>"@ by {
        let line = tail[i];
        let indent = if i < 8 {
            four
        } else {
            none
        };
        let body = line.skip(indent.len() as int);
        assert(line =~= indent + body);
        assert(other_line(indent, body));
        lemma_other_line(indent, body);
    }
    assert("    <key>WorkingDirectory</key>"@ =~= four + "<key>WorkingDirectory</key>"@);
    lemma_indented(four, "<key>WorkingDirectory</key>"@);
    let variables = "    <key>EnvironmentVariables</key>"@.skip(4);
    assert("    <key>EnvironmentVariables</key>"@ =~= four + variables);
    lemma_other_line(four, variables);
    let opened = "    <dict>"@.skip(4);
    assert("    <dict>"@ =~= four + opened);
    lemma_other_line(four, opened);
    let closed = "    </dict>"@.skip(4);
    assert("    </dict>"@ =~= four + closed);
    lemma_other_line(four, closed);
}

/// What was installed under launchd is what the status of the installation
/// tells of the plist: the working directory.
pub proof fn law_plist_reads_back(
    working_dir: Seq<char>,
    composer_bin: Seq<char>,
    compose_file: Seq<char>,
    extra_env: Seq<Seq<char>>,
)
    requires
        !working_dir.contains('\n'),
        !composer_bin.contains('\n'),
        !compose_file.contains('\n'),
        forall|i: int| 0 <= i < extra_env.len() ==> plain_variable(#[trigger] extra_env[i]),
    ensures
        ({
            let lines = lines_of(
                terminated(plist_lines(working_dir, composer_bin, compose_file, extra_env)),
            );
            plist_fields(lines, lines.len() as int) == seq!["    working dir: "@ + working_dir]
        }),
{
    let none = Seq::<char>::empty();
    let head = plist_head(working_dir, composer_bin, compose_file);
    let fixed = plist_head(none, none, none);
    let dict = env_dict(extra_env);
    let entries = env_entries(extra_env);
    let tail = plist_tail();
    let all = plist_lines(working_dir, composer_bin, compose_file, extra_env);
    let n = dict.len() as int;
    lemma_fixed_lines();
    reveal_strlit("<string>");
    reveal_strlit("    <string>");
    reveal_strlit("        <string>");
    let four = Seq::new(4, |i: int| ' ');
    let eight = Seq::new(8, |i: int| ' ');
    assert("    <string>"@ =~= four + "<string>"@);
    assert("        <string>"@ =~= eight + "<string>"@);
    lemma_string_line(eight, "        <string>"@, composer_bin);
    lemma_string_line(eight, "        <string>"@, compose_file);
    lemma_string_line(four, "    <string>"@, working_dir);
    assert forall|i: int| 0 <= i < all.len() implies is_line(#[trigger] all[i]) && (i != 12
        ==> trimmed(all[i]) != "<key>WorkingDirectory</key>"@) by {
        if i < 12 {
            if i == 8 {
                assert(all[i] == "        <string>"@ + composer_bin + "</string>"@);
            } else if i == 10 {
                assert(all[i] == "        <string>"@ + compose_file + "</string>"@);
            } else {
                assert(all[i] == fixed[i]);
            }
        } else if i == 12 {
            assert(all[i] == "    <key>WorkingDirectory</key>"@);
        } else if i == 13 {
            assert(all[i] == "    <string>"@ + working_dir + "</string>"@);
        } else if i < 14 + n {
            let k = i - 14;
            assert(all[i] == dict[k]);
            if 2 <= k < n - 1 {
                lemma_env_entries(extra_env, k - 2);
                assert(dict[k] == entries[k - 2]);
            }
        } else {
            assert(all[i] == tail[i - 14 - n]);
        }
    }
    lemma_lines_of_terminated(all);
    assert(all[13] == "    <string>"@ + working_dir + "</string>"@);
    assert(all[12] == "    <key>WorkingDirectory</key>"@);
    lemma_one_field(all, 12, all.len() as int, "    working dir: "@ + working_dir);
}

/// The unit runs the daemon as the user, in the working directory, on the
/// compose file, once docker is up, and again where it fails.  The environment
/// stands between the heading of the service and that of the installation: the
/// default, then each of the extra variables, in order.
pub proof fn law_units_set_up_the_daemon(
    user: Seq<char>,
    working_dir: Seq<char>,
    composer_bin: Seq<char>,
    compose_file: Seq<char>,
    extra_env: Seq<Seq<char>>,
    i: int,
)
    ensures
        ({
            let lines = unit_lines(user, working_dir, composer_bin, compose_file, extra_env);
            let n = lines.len();
            &&& n == 16 + extra_env.len()
            &&& lines[0] == "[Unit]"@
            &&& lines.contains("After=docker.service"@)
            &&& lines.contains("Requires=docker.service"@)
            &&& lines[5] == "[Service]"@
            &&& lines.subrange(5, n - 3).contains("Type=simple"@)
            &&& lines.subrange(5, n - 3).contains("User="@ + user)
            &&& lines.subrange(5, n - 3).contains("WorkingDirectory="@ + working_dir)
            &&& lines.subrange(5, n - 3).contains(
                "ExecStart="@ + (composer_bin + " -f "@ + compose_file),
            )
            &&& lines.subrange(5, n - 3).contains("Restart=on-failure"@)
            &&& lines.subrange(5, n - 3).contains("RestartSec=5s"@)
            &&& lines[12] == "Environment="@ + "RUST_LOG=composer=info"@
            &&& 0 <= i < extra_env.len() ==> lines[13 + i] == "Environment="@ + extra_env[i]
            &&& lines[n - 2] == "[Install]"@
            &&& lines[n - 1] == "WantedBy=multi-user.target"@
        }),
{
    let lines = unit_lines(user, working_dir, composer_bin, compose_file, extra_env);
    let n = lines.len();
    let service = lines.subrange(5, n - 3);
    assert(lines[2] == "After=docker.service"@);
    assert(lines[3] == "Requires=docker.service"@);
    assert(service[1] == "Type=simple"@);
    assert(service[2] == "User="@ + user);
    assert(service[3] == "WorkingDirectory="@ + working_dir);
    assert(service[4] == "ExecStart="@ + (composer_bin + " -f "@ + compose_file));
    assert(service[5] == "Restart=on-failure"@);
    assert(service[6] == "RestartSec=5s"@);
}

/// The environment of a plist adds up.
proof fn lemma_env_entries_add(a: Seq<Seq<char>>, b: Seq<Seq<char>>)
    ensures
        env_entries(a + b) == env_entries(a) + env_entries(b),
    decreases b.len(),
{
    if b.len() == 0 {
        assert(a + b =~= a);
        assert(env_entries(a) + env_entries(b) =~= env_entries(a));
    } else {
        lemma_env_entries_add(a, b.drop_last());
        assert((a + b).drop_last() =~= a + b.drop_last());
        assert((a + b).last() == b.last());
        assert(env_entries(a + b) =~= env_entries(a) + env_entries(b));
    }
}

/// Each variable `KEY=value` has its key and its value in the plist, right
/// behind each other and within the environment, whatever stands beside it; the
/// value may hold equals signs.
pub proof fn law_plists_hold_the_environment(
    working_dir: Seq<char>,
    composer_bin: Seq<char>,
    compose_file: Seq<char>,
    before: Seq<Seq<char>>,
    key: Seq<char>,
    value: Seq<char>,
    after: Seq<Seq<char>>,
) -> (k: int)
    requires
        !key.contains('='),
    ensures
        ({
            let extra_env = before + seq![key + seq!['='] + value] + after;
            let lines = plist_lines(working_dir, composer_bin, compose_file, extra_env);
            &&& 16 <= k < lines.len() - 12
            &&& lines[14] == "    <key>EnvironmentVariables</key>"@
            &&& lines[15] == "    <dict>"@
            &&& lines[k] == "        <key>"@ + escaped(key) + "</key>"@
            &&& lines[k + 1] == "        <string>"@ + escaped(value) + "</string>"@
            &&& lines[lines.len() - 11] == "    </dict>"@
        }),
{
    let kv = key + seq!['='] + value;
    let one = seq![kv];
    let extra_env = before + one + after;
    let lines = plist_lines(working_dir, composer_bin, compose_file, extra_env);
    lemma_halves(key, '=', value);
    lemma_env_entries_add(before + one, after);
    lemma_env_entries_add(before, one);
    assert(one.drop_last() =~= Seq::empty());
    assert(env_entries(one.drop_last()) =~= Seq::empty());
    assert(env_entries(one) =~= env_entry(kv));
    let entries = env_entries(extra_env);
    let m = env_entries(before).len() as int;
    assert(entries[m] == env_entry(kv)[0]);
    assert(entries[m + 1] == env_entry(kv)[1]);
    let dict = env_dict(extra_env);
    assert(dict[2 + m] == entries[m]);
    assert(dict[3 + m] == entries[m + 1]);
    assert(lines[14 + (2 + m)] == dict[2 + m]);
    assert(lines[14 + (3 + m)] == dict[3 + m]);
    assert(lines[14 + dict.len() - 1] == dict[dict.len() - 1]);
    16 + m
}

/// The plist runs the daemon on the compose file, in the working directory, from
/// the start and for good; without extra variables it has no environment.
pub proof fn law_plists_set_up_the_daemon(
    working_dir: Seq<char>,
    composer_bin: Seq<char>,
    compose_file: Seq<char>,
    extra_env: Seq<Seq<char>>,
)
    ensures
        ({
            let lines = plist_lines(working_dir, composer_bin, compose_file, extra_env);
            let n = lines.len();
            &&& lines[4] == "    <key>Label</key>"@
            &&& lines[5] == "    <string>com.architect.composer</string>"@
            &&& lines[6] == "    <key>ProgramArguments</key>"@
            &&& lines[7] == "    <array>"@
            &&& lines[8] == "        <string>"@ + composer_bin + "</string>"@
            &&& lines[9] == "        <string>-f</string>"@
            &&& lines[10] == "        <string>"@ + compose_file + "</string>"@
            &&& lines[11] == "    </array>"@
            &&& lines[12] == "    <key>WorkingDirectory</key>"@
            &&& lines[13] == "    <string>"@ + working_dir + "</string>"@
            &&& lines[n - 10] == "    <key>RunAtLoad</key>"@
            &&& lines[n - 9] == "    <true/>"@
            &&& lines[n - 8] == "    <key>KeepAlive</key>"@
            &&& lines[n - 7] == "    <true/>"@
            &&& lines[n - 6] == "    <key>StandardOutPath</key>"@
            &&& lines[n - 5] == "    <string>/tmp/composer.log</string>"@
            &&& lines[n - 4] == "    <key>StandardErrorPath</key>"@
            &&& lines[n - 3] == "    <string>/tmp/composer.err</string>"@
            &&& lines[n - 2] == "</dict>"@
            &&& lines[n - 1] == "</plist>"@
            &&& extra_env.len() == 0 <==> n == 24
        }),
{
}

/// Texts are escaped piece by piece.
pub proof fn law_escaping_adds_up(a: Seq<char>, b: Seq<char>)
    ensures
        escaped(a + b) == escaped(a) + escaped(b),
    decreases a.len(),
{
    if a.len() == 0 {
        assert(a + b =~= b);
        assert(escaped(a) + escaped(b) =~= escaped(b));
    } else {
        let rest = a.drop_first();
        law_escaping_adds_up(rest, b);
        assert((a + b).drop_first() =~= rest + b);
        assert((a + b)[0] == a[0]);
        assert(escaped(a + b) =~= escaped(a) + escaped(b));
    }
}

/// Each of the five characters of markup has its entity; any other character
/// stands for itself.
pub proof fn law_entities(c: char)
    ensures
        c == '&' ==> escaped(seq![c]) == "&amp;"@,
        c == '<' ==> escaped(seq![c]) == "&lt;"@,
        c == '>' ==> escaped(seq![c]) == "&gt;"@,
        c == '"' ==> escaped(seq![c]) == "&quot;"@,
        c == '\'' ==> escaped(seq![c]) == "&apos;"@,
        c != '&' && c != '<' && c != '>' && c != '"' && c != '\'' ==> escaped(seq![c]) == seq![c],
{
    let one = seq![c];
    assert(one.drop_first() =~= Seq::empty());
    assert(escaped(one.drop_first()) =~= Seq::empty());
    assert(escaped(one) =~= escaped_char(c));
}

/// A value between `string` tags is what the line tells, whatever white space
/// stands around them; a line without the tags tells nothing.
pub proof fn law_tags_enclose_the_value(
    left: Seq<char>,
    v: Seq<char>,
    right: Seq<char>,
    line: Seq<char>,
)
    requires
        forall|i: int| 0 <= i < left.len() ==> whitespace(#[trigger] left[i]),
        forall|i: int| 0 <= i < right.len() ==> whitespace(#[trigger] right[i]),
    ensures
        plist_string(left + ("<string>"@ + v + "</string>"@) + right) == Some(v),
        plist_string(line) matches Some(told) ==> trimmed(line) == "<string>"@ + told + "</string>"@,
        !"<string>"@.is_prefix_of(trimmed(line)) ==> plist_string(line) is None,
        !"</string>"@.is_suffix_of(trimmed(line)) ==> plist_string(line) is None,
{
    reveal_strlit("<string>");
    reveal_strlit("</string>");
    let open = "<string>"@;
    let close = "</string>"@;
    let body = open + v + close;
    assert(body[0] == '<');
    assert(body.last() == '>');
    lemma_trimmed_is(body);
    lemma_trimmed_padding(left, body, right);
    law_stripping_undoes_adding(open, v + close);
    law_stripping_undoes_adding(close, v);
    assert(open + (v + close) =~= body);
    let t = trimmed(line);
    law_stripping_undoes_adding(open, t);
    if let Some(rest) = stripped_prefix(t, open) {
        law_stripping_undoes_adding(close, rest);
        if let Some(told) = stripped_suffix(rest, close) {
            assert(open + (told + close) =~= open + told + close);
            let all = open + told + close;
            assert(all.subrange(all.len() - close.len(), all.len() as int) =~= close);
        }
    }
}

/// The lines of a unit tell its fields, whatever white space stands around them;
/// the default environment is not worth telling.
pub proof fn law_unit_lines_tell_their_fields(left: Seq<char>, v: Seq<char>, right: Seq<char>)
    requires
        plain_value(v),
        forall|i: int| 0 <= i < left.len() ==> whitespace(#[trigger] left[i]),
        forall|i: int| 0 <= i < right.len() ==> whitespace(#[trigger] right[i]),
    ensures
        unit_field(left + ("User="@ + v) + right) == Some("    user: "@ + v),
        unit_field(left + ("WorkingDirectory="@ + v) + right) == Some("    working dir: "@ + v),
        unit_field(left + ("ExecStart="@ + v) + right) == Some("    exec: "@ + v),
        v != "RUST_LOG=composer=info"@ ==> unit_field(left + ("Environment="@ + v) + right) == Some(
            "    env: "@ + v,
        ),
        v == "RUST_LOG=composer=info"@ ==> unit_field(left + ("Environment="@ + v) + right) is None,
{
    lemma_field_lines(v);
    lemma_trimmed_padding(left, "User="@ + v, right);
    lemma_trimmed_padding(left, "WorkingDirectory="@ + v, right);
    lemma_trimmed_padding(left, "ExecStart="@ + v, right);
    lemma_trimmed_padding(left, "Environment="@ + v, right);
    lemma_unit_field_trims("User="@ + v, left + ("User="@ + v) + right);
    lemma_unit_field_trims("WorkingDirectory="@ + v, left + ("WorkingDirectory="@ + v) + right);
    lemma_unit_field_trims("ExecStart="@ + v, left + ("ExecStart="@ + v) + right);
    lemma_unit_field_trims("Environment="@ + v, left + ("Environment="@ + v) + right);
}

/// White space around a line of a unit makes no difference.
proof fn lemma_unit_field_trims(a: Seq<char>, b: Seq<char>)
    requires
        trimmed(a) == trimmed(b),
    ensures
        unit_field(a) == unit_field(b),
{
}

/// What launchd tells of the daemon: nothing where it is not loaded; else its
/// last line begins with the process id, which is a hyphen where it does not
/// run.
pub proof fn law_launchd_states(out: Seq<char>, pid: Seq<char>, rest: Seq<char>)
    requires
        !pid.contains('\t'),
        lines_of(out).len() > 0,
        lines_of(out).last() == pid + seq!['\t'] + rest,
    ensures
        launchd_state_of(false, out) == "not loaded"@,
        pid == "-"@ ==> launchd_state_of(true, out) == "not running"@,
        pid != "-"@ && pid.len() > 0 ==> launchd_state_of(true, out) == "running (pid "@ + pid
            + ")"@,
        pid.len() == 0 ==> launchd_state_of(true, out) == "loaded"@,
{
    reveal_strlit("-");
    lemma_halves(pid, '\t', rest);
    assert("-"@.len() == 1);
}

/// Where launchd has the daemon loaded but tells nothing of it, it is loaded.
pub proof fn law_silent_launchd()
    ensures
        launchd_state_of(true, Seq::empty()) == "loaded"@,
        launchd_state_of(false, Seq::empty()) == "not loaded"@,
{
    reveal_strlit("-");
    let nothing = Seq::<char>::empty();
    lemma_halves(nothing, '\t', nothing);
    assert("-"@.len() == 1);
}

/// The state under systemd is the two words that were printed, without the
/// white space around them; an unknown second one is told as such.
pub proof fn law_systemd_states(
    active: Seq<char>,
    enabled: Seq<char>,
    left: Seq<char>,
    right: Seq<char>,
)
    requires
        active.len() > 0 ==> !whitespace(active[0]) && !whitespace(active.last()),
        enabled.len() > 0 ==> !whitespace(enabled[0]) && !whitespace(enabled.last()),
        forall|i: int| 0 <= i < left.len() ==> whitespace(#[trigger] left[i]),
        forall|i: int| 0 <= i < right.len() ==> whitespace(#[trigger] right[i]),
    ensures
        systemd_state_of(left + active + right, Some(left + enabled + right)) == active + ", "@
            + enabled,
        systemd_state_of(left + active + right, None) == active + ", "@ + "unknown"@,
{
    lemma_trimmed_padding(left, active, right);
    lemma_trimmed_padding(left, enabled, right);
    lemma_trimmed_is(active);
    lemma_trimmed_is(enabled);
}

/// The status on a service manager tells where the daemon is installed, then its
/// fields in order, then its state where that is known; or that it is not
/// installed, and nothing else.
pub proof fn law_status_on_a_service_manager(
    name: Seq<char>,
    path: Seq<char>,
    fields: Seq<Seq<char>>,
    state: Seq<char>,
    i: int,
)
    ensures
        manager_lines(name, None, fields, Some(state)) == seq!["  "@ + name + ": not installed"@],
        manager_lines(name, None, fields, None) == seq!["  "@ + name + ": not installed"@],
        ({
            let known = manager_lines(name, Some(path), fields, Some(state));
            let unknown = manager_lines(name, Some(path), fields, None);
            &&& known.len() == fields.len() + 2
            &&& unknown.len() == fields.len() + 1
            &&& known[0] == "  "@ + name + ": "@ + path
            &&& unknown[0] == "  "@ + name + ": "@ + path
            &&& 0 <= i < fields.len() ==> known[i + 1] == fields[i] && unknown[i + 1] == fields[i]
            &&& known.last() == "    state: "@ + state
        }),
        path_or_missing(Some(path)) == path,
        path_or_missing(None) == "not installed"@,
{
}

/// Releases are made for two architectures, under names of their own.
pub proof fn law_released_architectures(arch: Seq<char>)
    ensures
        release_arch(arch) == Some("amd64"@) <==> arch == "x86_64"@,
        release_arch(arch) == Some("arm64"@) <==> arch == "aarch64"@,
        release_arch(arch) is Some ==> arch == "x86_64"@ || arch == "aarch64"@,
{
    reveal_strlit("amd64");
    reveal_strlit("arm64");
    reveal_strlit("x86_64");
    reveal_strlit("aarch64");
    assert("amd64"@[1] == 'm' && "arm64"@[1] == 'r');
    assert("x86_64"@.len() == 6 && "aarch64"@.len() == 7);
}

/// Each file that was removed is told, in order, and then how to remove the
/// program; where there was none, that is told alone.
pub proof fn law_removed_files_are_told(
    removed: Seq<(Seq<char>, Seq<char>)>,
    exe: Seq<char>,
    i: int,
)
    ensures
        removed.len() == 0 ==> uninstall_lines(removed, exe) == seq!["Nothing to uninstall."@],
        removed.len() > 0 ==> {
            let lines = uninstall_lines(removed, exe);
            &&& lines.len() == removed.len() + 3
            &&& 0 <= i < removed.len() ==> lines[i] == "Removed "@ + removed[i].0 + ": "@
                + removed[i].1
            &&& lines.last() == "  sudo rm "@ + exe
        },
{
}

/// The release file is named after the platform, where there is one for it.
pub proof fn law_release_files(os: &str, arch: &str, artifact: Result<String, String>)
    requires
        call_ensures(release_artifact, (os, arch), artifact),
    ensures
        arch@ == "x86_64"@ ==> artifact is Ok && artifact->Ok_0@ == "composer-"@ + os@ + "-"@
            + "amd64"@,
        arch@ == "aarch64"@ ==> artifact is Ok && artifact->Ok_0@ == "composer-"@ + os@ + "-"@
            + "arm64"@,
        arch@ != "x86_64"@ && arch@ != "aarch64"@ ==> artifact is Err && arch@.is_suffix_of(
            artifact->Err_0@,
        ),
{
    reveal_strlit("x86_64");
    reveal_strlit("aarch64");
    assert("x86_64"@.len() == 6 && "aarch64"@.len() == 7);
    if let Err(e) = artifact {
        let s = e@;
        assert(s.subrange(s.len() - arch@.len(), s.len() as int) =~= arch@);
    }
}

/// The release file is downloaded from the latest release, over the program.
pub proof fn law_downloads(artifact: &str, exe: &str, cmd: CommandLine)
    requires
        call_ensures(download_command, (artifact, exe), cmd),
    ensures
        cmd.program@ == "curl"@,
        texts(cmd.args@).last() == exe@,
        texts(cmd.args@)[2] == "-o"@,
        artifact@.is_suffix_of(texts(cmd.args@)[1]),
        "https://github.com/architect-xyz/composer/releases/latest/download/"@.is_prefix_of(
            texts(cmd.args@)[1],
        ),
{
    let base = "https://github.com/architect-xyz/composer/releases/latest/download/"@;
    let url = texts(cmd.args@)[1];
    assert(url =~= base + artifact@);
    assert(url.subrange(0, base.len() as int) =~= base);
    assert(url.subrange(url.len() - artifact@.len(), url.len() as int) =~= artifact@);
}

/// Uninstalling stops and disables the daemon before its unit is removed, unloads
/// the agent before its plist is, and removes the aliases of both shells.
pub proof fn law_everything_installed_is_uninstalled(home: &str, files: Vec<InstalledFile>)
    requires
        call_ensures(installed_files, (home,), files),
    ensures
        files@.len() == 4,
        files@[0].path@ == "/etc/systemd/system/composer.service"@,
        files@[0].before@.len() == 2 && files@[0].after@.len() == 1,
        command_of(files@[0].before@[0]) == ("systemctl"@, seq!["stop"@, "composer"@]),
        command_of(files@[0].before@[1]) == ("systemctl"@, seq!["disable"@, "composer"@]),
        command_of(files@[0].after@[0]) == ("systemctl"@, seq!["daemon-reload"@]),
        files@[1].path@ == path_join(
            home@,
            "Library/LaunchAgents/com.architect.composer.plist"@,
        ),
        files@[1].before@.len() == 1 && files@[1].after@.len() == 0,
        command_of(files@[1].before@[0]) == ("launchctl"@, seq!["unload"@, files@[1].path@]),
        files@[2].path@ == path_join(home@, ".bashrc.d/composer.bash"@),
        files@[3].path@ == path_join(home@, ".zshrc.d/composer.zsh"@),
{
    let unit = file_of(files@[0]);
    let agent = file_of(files@[1]);
    assert(unit.2.len() == 2 && unit.3.len() == 1);
    assert(unit.2[0] == command_of(files@[0].before@[0]));
    assert(unit.2[1] == command_of(files@[0].before@[1]));
    assert(unit.3[0] == command_of(files@[0].after@[0]));
    assert(agent.2.len() == 1 && agent.3.len() == 0);
    assert(agent.2[0] == command_of(files@[1].before@[0]));
}

/// What is about to be installed is told: the manager, the user where there is
/// one, the working directory, the compose file and each variable.
pub proof fn law_installations_are_told(
    manager: &str,
    user: Option<&str>,
    working_dir: &str,
    compose_file: &str,
    extra_env: Vec<String>,
    told: Vec<String>,
    i: int,
)
    requires
        call_ensures(
            install_summary,
            (manager, user, working_dir, compose_file, &extra_env),
            told,
        ),
    ensures
        ({
            let lines = texts(told@);
            let n: int = if user is Some {
                2
            } else {
                1
            };
            &&& lines.len() == n + 2 + extra_env@.len()
            &&& lines[0] == "Installing "@ + manager@ + " service:"@
            &&& user matches Some(u) ==> lines[1] == "  user: "@ + u@
            &&& lines[n] == "  working dir: "@ + working_dir@
            &&& lines[n + 1] == "  compose file: "@ + compose_file@
            &&& 0 <= i < extra_env@.len() ==> lines[n + 2 + i] == "  env: "@ + extra_env@[i]@
        }),
{
}

/// What the lines of a unit tell adds up: no line hides what another tells.
pub proof fn law_unit_lines_add_up(a: Seq<Seq<char>>, b: Seq<Seq<char>>, line: Seq<char>)
    ensures
        unit_fields(a + b) == unit_fields(a) + unit_fields(b),
        unit_fields(seq![line]).len() <= 1,
        unit_field(line) matches Some(field) ==> unit_fields(seq![line]) == seq![field],
        unit_field(line) is None ==> unit_fields(seq![line]).len() == 0,
{
    lemma_unit_fields_add(a, b);
    lemma_telling_line(line);
}

/// Each value that follows the key of the working directory is told, and nothing
/// else is.
pub proof fn law_each_working_directory_is_told(lines: Seq<Seq<char>>, n: int, i: int)
    requires
        0 <= n <= lines.len(),
    ensures
        0 <= i < n && i + 1 < lines.len() && trimmed(lines[i]) == "<key>WorkingDirectory</key>"@ ==> (
        plist_string(lines[i + 1]) matches Some(v) ==> plist_fields(lines, n).contains(
            "    working dir: "@ + v,
        )),
        forall|field: Seq<char>| #[trigger]
            plist_fields(lines, n).contains(field) ==> exists|k: int|
                0 <= k < n && k + 1 < lines.len() && trimmed(#[trigger] lines[k])
                    == "<key>WorkingDirectory</key>"@ && (plist_string(lines[k + 1]) matches Some(v)
                    && field == "    working dir: "@ + v),
        n > 0 ==> plist_fields(lines, n - 1).is_prefix_of(plist_fields(lines, n)),
        n > 0 ==> plist_fields(lines, n).len() <= plist_fields(lines, n - 1).len() + 1,
    decreases n,
{
    if n > 0 {
        law_each_working_directory_is_told(lines, n - 1, i);
        let before = plist_fields(lines, n - 1);
        let all = plist_fields(lines, n);
        assert(all.subrange(0, before.len() as int) =~= before);
        if 0 <= i < n && i + 1 < lines.len() && trimmed(lines[i])
            == "<key>WorkingDirectory</key>"@ {
            if let Some(v) = plist_string(lines[i + 1]) {
                let field = "    working dir: "@ + v;
                if i < n - 1 {
                    let k = choose|k: int| 0 <= k < before.len() && before[k] == field;
                    assert(all[k] == field);
                } else {
                    assert(all[all.len() - 1] == field);
                }
            }
        }
        assert forall|field: Seq<char>| #[trigger] all.contains(field) implies exists|k: int|
            0 <= k < n && k + 1 < lines.len() && trimmed(#[trigger] lines[k])
                == "<key>WorkingDirectory</key>"@ && (plist_string(lines[k + 1]) matches Some(v)
                && field == "    working dir: "@ + v) by {
            let j = choose|j: int| 0 <= j < all.len() && all[j] == field;
            if j < before.len() {
                assert(before[j] == field);
                assert(before.contains(field));
            } else {
                assert(trimmed(lines[n - 1]) == "<key>WorkingDirectory</key>"@);
            }
        }
    } else {
        assert(plist_fields(lines, n).len() == 0);
    }
}

/// Only the user, the working directory, the command and the environment of a unit
/// are told.
pub proof fn law_other_unit_lines_tell_nothing(line: Seq<char>)
    ensures
        unit_field(line) is Some ==> "User="@.is_prefix_of(trimmed(line))
            || "WorkingDirectory="@.is_prefix_of(trimmed(line)) || "ExecStart="@.is_prefix_of(
            trimmed(line),
        ) || "Environment="@.is_prefix_of(trimmed(line)),
{
}

} // verus!
