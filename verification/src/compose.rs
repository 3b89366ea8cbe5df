//! The compose project that is looked after: its configuration, what can be
//! done to its services, and what of the configuration may be logged.

use vstd::prelude::*;
use vstd::string::*;
use crate::text::{before_first, lines, lines_of, split_once, str_opt, text_opt, texts};
use crate::yaml::{
    entry_index, lemma_entry_index, lemma_entry_index_is, read_yaml, write_yaml, yaml_parse,
    yaml_text, Node, Yaml,
};

verus! {

/// The compose project that commands are run for.
#[derive(Debug)]
pub struct ComposeContext {
    /// The path of the compose file
    pub compose_file: String,
    /// The path of the environment file, if one is given
    pub env_file: Option<String>,
    /// The project directory, if one is given
    pub project_directory: Option<String>,
    /// The name of the host that messages give
    pub hostname: String,
}

/// What is done to a service on a schedule.
#[derive(Debug, Clone, Copy, PartialEq, Eq, Structural)]
pub enum ComposeAction {
    Run,
    Restart,
}

/// The name of an action.
pub open spec fn action_name(action: ComposeAction) -> Seq<char> {
    match action {
        ComposeAction::Run => "run"@,
        ComposeAction::Restart => "restart"@,
    }
}

/// The past participle of an action.
pub open spec fn done_word(action: ComposeAction) -> Seq<char> {
    match action {
        ComposeAction::Run => "run"@,
        ComposeAction::Restart => "restarted"@,
    }
}

impl ComposeAction {
    /// The action while it goes on.
    pub fn as_gerund(&self) -> (r: &str)
        ensures
            r@ == (match *self {
                ComposeAction::Run => "running"@,
                ComposeAction::Restart => "restarting"@,
            }),
    {
        match self {
            ComposeAction::Run => "running",
            ComposeAction::Restart => "restarting",
        }
    }

    /// The action once it is done.
    pub fn as_past_participle(&self) -> (r: &str)
        ensures
            r@ == done_word(*self),
    {
        match self {
            ComposeAction::Run => "run",
            ComposeAction::Restart => "restarted",
        }
    }

    /// The name of the action.
    pub fn name(&self) -> (r: &str)
        ensures
            r@ == action_name(*self),
    {
        match self {
            ComposeAction::Run => "run",
            ComposeAction::Restart => "restart",
        }
    }
}

/// A program and its arguments.
#[derive(Debug, PartialEq)]
pub struct CommandLine {
    pub program: String,
    pub args: Vec<String>,
}

/// A flag with its value, where the value is given.
pub open spec fn flag(name: Seq<char>, value: Option<Seq<char>>) -> Seq<Seq<char>> {
    match value {
        Some(v) => seq![name, v],
        None => Seq::empty(),
    }
}

/// The arguments with which `docker` is run for a compose project.
pub open spec fn compose_args(context: ComposeContext, profile: Option<Seq<char>>) -> Seq<
    Seq<char>,
> {
    seq!["compose"@, "-f"@, context.compose_file@] + flag("--env-file"@, text_opt(context.env_file))
        + flag("--project-directory"@, text_opt(context.project_directory)) + flag(
        "--profile"@,
        profile,
    )
}

impl CommandLine {
    /// A program without arguments.
    pub fn new(program: &str) -> (r: CommandLine)
        ensures
            r.program@ == program@,
            texts(r.args@) == Seq::<Seq<char>>::empty(),
    {
        let args: Vec<String> = Vec::new();
        assert(texts(args@) =~= Seq::<Seq<char>>::empty());
        CommandLine { program: program.to_owned(), args }
    }

    /// The command with one more argument.
    pub fn arg(self, arg: &str) -> (r: CommandLine)
        ensures
            r.program == self.program,
            texts(r.args@) == texts(self.args@).push(arg@),
    {
        let ghost was = self.args@;
        let mut args = self.args;
        args.push(arg.to_owned());
        assert(texts(args@) =~= texts(was).push(arg@));
        CommandLine { program: self.program, args }
    }
}

/// The command that runs `docker compose` for a project, up to the
/// subcommand.
pub fn compose_command(context: &ComposeContext, profile: Option<&str>) -> (r: CommandLine)
    ensures
        r.program@ == "docker"@,
        texts(r.args@) == compose_args(*context, str_opt(profile)),
{
    let mut cmd = CommandLine::new("docker").arg("compose").arg("-f").arg(
        context.compose_file.as_str(),
    );
    if let Some(env_file) = &context.env_file {
        cmd = cmd.arg("--env-file").arg(env_file.as_str());
    }
    if let Some(project_directory) = &context.project_directory {
        cmd = cmd.arg("--project-directory").arg(project_directory.as_str());
    }
    if let Some(profile) = profile {
        cmd = cmd.arg("--profile").arg(profile);
    }
    assert(texts(cmd.args@) =~= compose_args(*context, str_opt(profile)));
    cmd
}

/// Commands name the compose file, and the environment file, the project
/// directory and the profile exactly where they are given, each behind its flag.
pub proof fn law_commands_name_the_project(context: ComposeContext, profile: Option<Seq<char>>)
    ensures
        ({
            let args = compose_args(context, profile);
            let env: int = if context.env_file is Some {
                2
            } else {
                0
            };
            let dir: int = if context.project_directory is Some {
                2
            } else {
                0
            };
            let of: int = if profile is Some {
                2
            } else {
                0
            };
            &&& args.len() == 3 + env + dir + of
            &&& args[0] == "compose"@
            &&& args[1] == "-f"@
            &&& args[2] == context.compose_file@
            &&& context.env_file matches Some(file) ==> args[3] == "--env-file"@ && args[4] == file@
            &&& context.project_directory matches Some(path) ==> args[3 + env]
                == "--project-directory"@ && args[4 + env] == path@
            &&& profile matches Some(name) ==> args[3 + env + dir] == "--profile"@ && args[4 + env
                + dir] == name
        }),
{
}

/// The two actions have words of their own.
pub proof fn law_actions_have_words(action: ComposeAction)
    ensures
        action == ComposeAction::Run ==> action_name(action) == "run"@ && done_word(action)
            == "run"@,
        action == ComposeAction::Restart ==> action_name(action) == "restart"@ && done_word(action)
            == "restarted"@,
{
}

/// The command that prints the configuration of the project.
pub fn config_command(context: &ComposeContext, profile: Option<&str>) -> (r: CommandLine)
    ensures
        r.program@ == "docker"@,
        texts(r.args@) == compose_args(*context, str_opt(profile)).push("config"@),
{
    compose_command(context, profile).arg("config")
}

/// The command that prints the profiles of the project.
pub fn profiles_command(context: &ComposeContext) -> (r: CommandLine)
    ensures
        r.program@ == "docker"@,
        texts(r.args@) == compose_args(*context, None) + seq!["config"@, "--profiles"@],
{
    let cmd = compose_command(context, None).arg("config").arg("--profiles");
    assert(texts(cmd.args@) =~= compose_args(*context, None) + seq!["config"@, "--profiles"@]);
    cmd
}

/// The profiles that the profiles command has printed: one a line.
pub fn profiles_of(out: &str) -> (r: Vec<String>)
    ensures
        texts(r@) == lines_of(out@),
{
    let lines = lines(out);
    let ghost all = lines@.map_values(|p: &str| p@);
    let mut r: Vec<String> = Vec::new();
    let mut i: usize = 0;
    while i < lines.len()
        invariant
            i <= lines.len(),
            all == lines@.map_values(|p: &str| p@),
            r@.len() == i,
            forall|j: int| 0 <= j < i ==> (#[trigger] r@[j])@ == all[j],
        decreases lines.len() - i,
    {
        r.push(lines[i].to_owned());
        i = i + 1;
    }
    assert(texts(r@) =~= all);
    r
}

/// What a redacted value is shown as.
pub const REDACTED: &'static str = "<redacted>";

/// An environment variable's value as it may be logged: a value that is set
/// is replaced.
pub open spec fn redacted_value(value: Node) -> Node {
    if value.untagged() is Null {
        value
    } else {
        Node::Text(REDACTED@)
    }
}

/// An item of an environment list as it may be logged: what follows the first
/// equals sign is replaced.
pub open spec fn redacted_item(item: Node) -> Node {
    match item.untagged() {
        Node::Text(s) => if s.contains('=') {
            Node::Text(before_first(s, '=') + seq!['='] + REDACTED@)
        } else {
            item
        },
        _ => item,
    }
}

/// An entry of an environment mapping as it may be logged.
pub open spec fn redacted_entry(entry: (Node, Node)) -> (Node, Node) {
    (entry.0, redacted_value(entry.1))
}

/// An `environment` stanza as it may be logged: both the mapping form and the
/// list form keep their keys and lose their values, under any tags.
pub open spec fn redacted_environment(environment: Node) -> Node
    decreases environment,
{
    match environment {
        Node::Table(entries) => Node::Table(
            entries.map_values(|e: (Node, Node)| redacted_entry(e)),
        ),
        Node::List(items) => Node::List(items.map_values(|i: Node| redacted_item(i))),
        Node::Tagged(tag, inner) => Node::Tagged(tag, Box::new(redacted_environment(*inner))),
        _ => environment,
    }
}

/// A service as it may be logged.
pub open spec fn redacted_service(service: Node) -> Node
    decreases service,
{
    match service {
        Node::Table(entries) => {
            let i = entry_index(entries, "environment"@);
            if i < entries.len() {
                Node::Table(entries.update(i, (entries[i].0, redacted_environment(entries[i].1))))
            } else {
                service
            }
        },
        Node::Tagged(tag, inner) => Node::Tagged(tag, Box::new(redacted_service(*inner))),
        _ => service,
    }
}

/// An entry of the services, by name, as it may be logged.
pub open spec fn redacted_named_service(entry: (Node, Node)) -> (Node, Node) {
    (entry.0, redacted_service(entry.1))
}

/// The services as they may be logged.
pub open spec fn redacted_services(services: Node) -> Node
    decreases services,
{
    match services {
        Node::Table(entries) => Node::Table(
            entries.map_values(|e: (Node, Node)| redacted_named_service(e)),
        ),
        Node::Tagged(tag, inner) => Node::Tagged(tag, Box::new(redacted_services(*inner))),
        _ => services,
    }
}

/// A compose configuration as it may be logged.
pub open spec fn redacted_config(config: Node) -> Node
    decreases config,
{
    match config {
        Node::Table(entries) => {
            let i = entry_index(entries, "services"@);
            if i < entries.len() {
                Node::Table(entries.update(i, (entries[i].0, redacted_services(entries[i].1))))
            } else {
                config
            }
        },
        Node::Tagged(tag, inner) => Node::Tagged(tag, Box::new(redacted_config(*inner))),
        _ => config,
    }
}

/// The log text for a configuration that was read, or that could not be: in
/// that case nothing of it is shown.
pub open spec fn redacted_text(parsed: Result<Node, Seq<char>>) -> Seq<char> {
    match parsed {
        Err(e) => "<not shown: could not parse compose config: "@ + e + ">"@,
        Ok(config) => match yaml_text(redacted_config(config)) {
            Ok(text) => text,
            Err(e) => "<not shown: could not serialize compose config: "@ + e + ">"@,
        },
    }
}

/// Whether a node is the text `text`.
fn is_text(node: &Yaml, text: &str) -> (r: bool)
    ensures
        r == (node.node() == Node::Text(text@)),
{
    match node {
        Yaml::Text(s) => s.as_str().to_owned() == text.to_owned(),
        _ => false,
    }
}

/// The index of the first entry whose key is the text `key`.
fn find_entry(entries: &Vec<(Yaml, Yaml)>, key: &str) -> (i: usize)
    ensures
        i <= entries@.len(),
        Yaml::Table(*entries).node() matches Node::Table(nodes) && i == entry_index(nodes, key@),
{
    let mut i: usize = 0;
    let ghost nodes = Yaml::Table(*entries).node()->Table_0;
    while i < entries.len() && !is_text(&entries[i].0, key)
        invariant
            i <= entries@.len(),
            nodes == Yaml::Table(*entries).node()->Table_0,
            forall|j: int| 0 <= j < i ==> (#[trigger] nodes[j]).0 != Node::Text(key@),
        decreases entries.len() - i,
    {
        assert(nodes[i as int].0 == entries@[i as int].0.node());
        i = i + 1;
    }
    proof {
        if i < entries.len() {
            assert(nodes[i as int].0 == entries@[i as int].0.node());
        }
        lemma_entry_index_is(nodes, key@, i as int);
    }
    i
}

/// Whether the node under the tags is null.
fn is_null(node: &Yaml) -> (r: bool)
    ensures
        r == (node.node().untagged() is Null),
    decreases node,
{
    match node {
        Yaml::Null => true,
        Yaml::Tagged(_, inner) => is_null(inner),
        _ => false,
    }
}

/// The text of the node under the tags, where it is a text.
fn as_text(node: &Yaml) -> (r: Option<&String>)
    ensures
        match r {
            Some(s) => node.node().untagged() == Node::Text(s@),
            None => !(node.node().untagged() is Text),
        },
    decreases node,
{
    match node {
        Yaml::Text(s) => Some(s),
        Yaml::Tagged(_, inner) => as_text(inner),
        _ => None,
    }
}

/// Redacts an item of an environment list.
fn redact_item(item: Yaml) -> (r: Yaml)
    ensures
        r.node() == redacted_item(item.node()),
{
    let shown: Option<String> = match as_text(&item) {
        Some(s) => match split_once(s.as_str(), '=') {
            Some((key, _)) => {
                let mut t: String = key.to_owned();
                t.append("=");
                t.append(REDACTED);
                proof {
                    reveal_strlit("=");
                    assert("="@ =~= seq!['=']);
                }
                Some(t)
            },
            None => None,
        },
        None => None,
    };
    match shown {
        Some(t) => Yaml::Text(t),
        None => item,
    }
}

/// Redacts an `environment` stanza: the mapping form (`KEY: value`) as well as
/// the list form (`- KEY=value`).
pub fn redact_environment(environment: Yaml) -> (r: Yaml)
    ensures
        r.node() == redacted_environment(environment.node()),
    decreases environment,
{
    match environment {
        Yaml::Table(entries) => {
            let ghost was = entries;
            let mut entries = entries;
            let mut i: usize = 0;
            while i < entries.len()
                invariant
                    i <= entries@.len(),
                    entries@.len() == was@.len(),
                    forall|j: int| i <= j < entries@.len() ==> entries@[j] == was@[j],
                    forall|j: int|
                        0 <= j < i ==> (#[trigger] entries@[j]).0 == was@[j].0
                            && entries@[j].1.node() == redacted_value(was@[j].1.node()),
                decreases entries.len() - i,
            {
                let mut entry = (Yaml::Null, Yaml::Null);
                std::mem::swap(&mut entry, &mut entries[i]);
                let (key, value) = entry;
                let shown: Yaml = if is_null(&value) {
                    value
                } else {
                    Yaml::Text(REDACTED.to_owned())
                };
                entries.set(i, (key, shown));
                i = i + 1;
            }
            let r = Yaml::Table(entries);
            assert(r.node()->Table_0 =~= redacted_environment(Yaml::Table(was).node())->Table_0);
            r
        },
        Yaml::List(items) => {
            let ghost was = items;
            let mut items = items;
            let mut i: usize = 0;
            while i < items.len()
                invariant
                    i <= items@.len(),
                    items@.len() == was@.len(),
                    forall|j: int| i <= j < items@.len() ==> items@[j] == was@[j],
                    forall|j: int|
                        0 <= j < i ==> (#[trigger] items@[j]).node() == redacted_item(
                            was@[j].node(),
                        ),
                decreases items.len() - i,
            {
                let mut item = Yaml::Null;
                std::mem::swap(&mut item, &mut items[i]);
                items.set(i, redact_item(item));
                i = i + 1;
            }
            let r = Yaml::List(items);
            assert(r.node()->List_0 =~= redacted_environment(Yaml::List(was).node())->List_0);
            r
        },
        Yaml::Tagged(tag, inner) => Yaml::Tagged(tag, Box::new(redact_environment(*inner))),
        other => other,
    }
}

/// Redacts the environment of one service.
fn redact_service(service: Yaml) -> (r: Yaml)
    ensures
        r.node() == redacted_service(service.node()),
    decreases service,
{
    match service {
        Yaml::Table(entries) => {
            let ghost was = entries;
            let mut entries = entries;
            let i: usize = find_entry(&entries, "environment");
            if i < entries.len() {
                let mut entry = (Yaml::Null, Yaml::Null);
                std::mem::swap(&mut entry, &mut entries[i]);
                let (key, environment) = entry;
                entries.set(i, (key, redact_environment(environment)));
            }
            let r = Yaml::Table(entries);
            assert(r.node()->Table_0 =~= redacted_service(Yaml::Table(was).node())->Table_0);
            r
        },
        Yaml::Tagged(tag, inner) => Yaml::Tagged(tag, Box::new(redact_service(*inner))),
        other => other,
    }
}

/// Redacts the environments of the services.
fn redact_services(services: Yaml) -> (r: Yaml)
    ensures
        r.node() == redacted_services(services.node()),
    decreases services,
{
    match services {
        Yaml::Table(entries) => {
            let ghost was = entries;
            let mut entries = entries;
            let mut i: usize = 0;
            while i < entries.len()
                invariant
                    i <= entries@.len(),
                    entries@.len() == was@.len(),
                    forall|j: int| i <= j < entries@.len() ==> entries@[j] == was@[j],
                    forall|j: int|
                        0 <= j < i ==> (#[trigger] entries@[j]).0 == was@[j].0
                            && entries@[j].1.node() == redacted_service(was@[j].1.node()),
                decreases entries.len() - i,
            {
                let mut entry = (Yaml::Null, Yaml::Null);
                std::mem::swap(&mut entry, &mut entries[i]);
                let (name, service) = entry;
                entries.set(i, (name, redact_service(service)));
                i = i + 1;
            }
            let r = Yaml::Table(entries);
            assert(r.node()->Table_0 =~= redacted_services(Yaml::Table(was).node())->Table_0);
            r
        },
        Yaml::Tagged(tag, inner) => Yaml::Tagged(tag, Box::new(redact_services(*inner))),
        other => other,
    }
}

/// Redacts the environment of every service of a configuration.
pub fn redact_config(config: Yaml) -> (r: Yaml)
    ensures
        r.node() == redacted_config(config.node()),
    decreases config,
{
    match config {
        Yaml::Table(entries) => {
            let ghost was = entries;
            let mut entries = entries;
            let i: usize = find_entry(&entries, "services");
            if i < entries.len() {
                let mut entry = (Yaml::Null, Yaml::Null);
                std::mem::swap(&mut entry, &mut entries[i]);
                let (key, services) = entry;
                entries.set(i, (key, redact_services(services)));
            }
            let r = Yaml::Table(entries);
            assert(r.node()->Table_0 =~= redacted_config(Yaml::Table(was).node())->Table_0);
            r
        },
        Yaml::Tagged(tag, inner) => Yaml::Tagged(tag, Box::new(redact_config(*inner))),
        other => other,
    }
}

/// Renders `docker compose config` output for logging with the values of every
/// service's `environment` stanza replaced by `<redacted>`.  Keys are kept so
/// the log remains useful for debugging which variables are set.
///
/// If the output cannot be parsed as YAML, nothing from it is returned: it's
/// safer to log nothing than to risk leaking secrets.
pub fn redact_compose_config(raw: &[u8]) -> (r: String)
    ensures
        r@ == redacted_text(yaml_parse(raw@)),
{
    match read_yaml(raw) {
        Ok(config) => match write_yaml(redact_config(config)) {
            Ok(text) => text,
            Err(e) => {
                let mut r: String = "<not shown: could not serialize compose config: ".to_owned();
                r.append(e.as_str());
                r.append(">");
                r
            },
        },
        Err(e) => {
            let mut r: String = "<not shown: could not parse compose config: ".to_owned();
            r.append(e.as_str());
            r.append(">");
            r
        },
    }
}

// ---------------------------------------------------------------------------
// What redaction promises
// ---------------------------------------------------------------------------

/// Whether an `environment` stanza, in the mapping form or the list form,
/// shows no value.
pub open spec fn environment_hidden(environment: Node) -> bool {
    match environment.untagged() {
        Node::Table(entries) => forall|i: int|
            0 <= i < entries.len() ==> (#[trigger] entries[i]).1.untagged() is Null || entries[i].1
                == Node::Text(REDACTED@),
        Node::List(items) => forall|i: int|
            0 <= i < items.len() ==> ((#[trigger] items[i]).untagged() matches Node::Text(s)
                ==> s.contains('=') ==> s == before_first(s, '=') + seq!['='] + REDACTED@),
        _ => true,
    }
}

/// Whether the environment of a service shows no value.
pub open spec fn service_hidden(service: Node) -> bool {
    service.untagged() matches Node::Table(entries) ==> entry_index(entries, "environment"@)
        < entries.len() ==> environment_hidden(entries[entry_index(entries, "environment"@)].1)
}

/// Whether no environment of a configuration's services shows a value.
pub open spec fn config_hidden(config: Node) -> bool {
    config.untagged() matches Node::Table(entries) ==> entry_index(entries, "services"@)
        < entries.len() ==> (entries[entry_index(entries, "services"@)].1.untagged()
        matches Node::Table(services) ==> forall|i: int|
        0 <= i < services.len() ==> service_hidden((#[trigger] services[i]).1))
}

proof fn lemma_redacted_item_again(item: Node)
    ensures
        redacted_item(redacted_item(item)) == redacted_item(item),
        redacted_item(item).untagged() matches Node::Text(s) ==> s.contains('=') ==> s
            == before_first(s, '=') + seq!['='] + REDACTED@,
{
    match item.untagged() {
        Node::Text(s) => {
            if s.contains('=') {
                crate::text::lemma_first_index(s, '=');
                let key = before_first(s, '=');
                let t = key + seq!['='] + REDACTED@;
                assert(t[key.len() as int] == '=');
                assert forall|j: int| 0 <= j < key.len() implies t[j] != '=' by {
                    assert(s[j] != '=');
                }
                crate::text::lemma_first_index_is(t, '=', key.len() as int);
                assert(before_first(t, '=') =~= key);
            } else {
                assert(item.untagged() == Node::Text(s));
            }
        },
        _ => {},
    }
}

proof fn lemma_redacted_environment_again(environment: Node)
    ensures
        redacted_environment(redacted_environment(environment)) == redacted_environment(
            environment,
        ),
        environment_hidden(redacted_environment(environment)),
    decreases environment,
{
    match environment {
        Node::Table(entries) => {
            let once = redacted_environment(environment)->Table_0;
            let twice = redacted_environment(Node::Table(once))->Table_0;
            assert forall|i: int| 0 <= i < once.len() implies twice[i] == once[i] by {
                assert(once[i].1 == redacted_value(entries[i].1));
            }
            assert(twice =~= once);
            assert forall|i: int| 0 <= i < once.len() implies (#[trigger] once[i]).1.untagged()
                is Null || once[i].1 == Node::Text(REDACTED@) by {
                assert(once[i].1 == redacted_value(entries[i].1));
            }
        },
        Node::List(items) => {
            let once = redacted_environment(environment)->List_0;
            let twice = redacted_environment(Node::List(once))->List_0;
            assert forall|i: int| 0 <= i < once.len() implies twice[i] == once[i] by {
                lemma_redacted_item_again(items[i]);
            }
            assert(twice =~= once);
            assert forall|i: int| 0 <= i < once.len() implies ((#[trigger] once[i]).untagged()
                matches Node::Text(s) ==> s.contains('=') ==> s == before_first(s, '=') + seq!['=']
                + REDACTED@) by {
                lemma_redacted_item_again(items[i]);
                assert(once[i] == redacted_item(items[i]));
            }
        },
        Node::Tagged(tag, inner) => {
            lemma_redacted_environment_again(*inner);
            assert(redacted_environment(environment).untagged() == redacted_environment(
                *inner,
            ).untagged());
        },
        _ => {},
    }
}

/// Replacing the value under the first entry with a key keeps its index.
proof fn lemma_update_entry(entries: Seq<(Node, Node)>, key: Seq<char>, value: Node)
    requires
        entry_index(entries, key) < entries.len(),
    ensures
        ({
            let i = entry_index(entries, key);
            entry_index(entries.update(i, (entries[i].0, value)), key) == i
        }),
        0 <= entry_index(entries, key),
{
    lemma_entry_index(entries, key);
    let i = entry_index(entries, key);
    let now = entries.update(i, (entries[i].0, value));
    assert forall|j: int| 0 <= j < i implies (#[trigger] now[j]).0 != Node::Text(key) by {
        assert(entries[j].0 != Node::Text(key));
    }
    lemma_entry_index_is(now, key, i);
}

proof fn lemma_redacted_service_again(service: Node)
    ensures
        redacted_service(redacted_service(service)) == redacted_service(service),
        service_hidden(redacted_service(service)),
    decreases service,
{
    match service {
        Node::Table(entries) => {
            let i = entry_index(entries, "environment"@);
            if i < entries.len() {
                let environment = redacted_environment(entries[i].1);
                lemma_redacted_environment_again(entries[i].1);
                lemma_update_entry(entries, "environment"@, environment);
                let once = entries.update(i, (entries[i].0, environment));
                assert(redacted_service(service) == Node::Table(once));
                assert(once.update(i, (once[i].0, redacted_environment(once[i].1))) =~= once);
            }
        },
        Node::Tagged(tag, inner) => {
            lemma_redacted_service_again(*inner);
            assert(redacted_service(service).untagged() == redacted_service(*inner).untagged());
        },
        _ => {},
    }
}

/// Whether no service of a table of services shows an environment value.
spec fn services_hidden(services: Node) -> bool {
    services.untagged() matches Node::Table(entries) ==> forall|i: int|
        0 <= i < entries.len() ==> service_hidden((#[trigger] entries[i]).1)
}

proof fn lemma_redacted_services_again(services: Node)
    ensures
        redacted_services(redacted_services(services)) == redacted_services(services),
        services_hidden(redacted_services(services)),
    decreases services,
{
    match services {
        Node::Table(entries) => {
            let once = redacted_services(services)->Table_0;
            let twice = redacted_services(Node::Table(once))->Table_0;
            assert forall|i: int| 0 <= i < once.len() implies twice[i] == once[i] by {
                lemma_redacted_service_again(entries[i].1);
            }
            assert(twice =~= once);
            assert forall|i: int| 0 <= i < once.len() implies service_hidden(
                (#[trigger] once[i]).1,
            ) by {
                lemma_redacted_service_again(entries[i].1);
                assert(once[i].1 == redacted_service(entries[i].1));
            }
        },
        Node::Tagged(tag, inner) => {
            lemma_redacted_services_again(*inner);
            assert(redacted_services(services).untagged() == redacted_services(*inner).untagged());
        },
        _ => {},
    }
}

/// Redacting a configuration hides every value that the services'
/// environments set, in the mapping form and in the list form.
pub proof fn law_redaction_hides_values(config: Node)
    ensures
        config_hidden(redacted_config(config)),
    decreases config,
{
    match config {
        Node::Table(entries) => {
            let i = entry_index(entries, "services"@);
            if i < entries.len() {
                let services = redacted_services(entries[i].1);
                lemma_redacted_services_again(entries[i].1);
                lemma_update_entry(entries, "services"@, services);
                let once = entries.update(i, (entries[i].0, services));
                assert(redacted_config(config) == Node::Table(once));
                assert(once[i].1 == services);
            }
        },
        Node::Tagged(tag, inner) => {
            law_redaction_hides_values(*inner);
            assert(redacted_config(config).untagged() == redacted_config(*inner).untagged());
        },
        _ => {},
    }
}

/// What was redacted once stays as it is when redacted again.
pub proof fn law_redaction_is_idempotent(config: Node)
    ensures
        redacted_config(redacted_config(config)) == redacted_config(config),
    decreases config,
{
    match config {
        Node::Table(entries) => {
            let i = entry_index(entries, "services"@);
            if i < entries.len() {
                let services = redacted_services(entries[i].1);
                lemma_redacted_services_again(entries[i].1);
                lemma_update_entry(entries, "services"@, services);
                let once = entries.update(i, (entries[i].0, services));
                assert(redacted_config(config) == Node::Table(once));
                assert(once.update(i, (once[i].0, redacted_services(once[i].1))) =~= once);
            }
        },
        Node::Tagged(tag, inner) => {
            law_redaction_is_idempotent(*inner);
        },
        _ => {},
    }
}

/// Two environment mappings that set the same variables look the same once
/// they are redacted, whatever the values are.
pub proof fn law_redaction_ignores_mapping_values(a: Seq<(Node, Node)>, b: Seq<(Node, Node)>)
    requires
        a.len() == b.len(),
        forall|i: int|
            0 <= i < a.len() ==> (#[trigger] a[i]).0 == b[i].0 && !(a[i].1.untagged() is Null) && !(
            b[i].1.untagged() is Null),
    ensures
        redacted_environment(Node::Table(a)) == redacted_environment(Node::Table(b)),
{
    let x = redacted_environment(Node::Table(a))->Table_0;
    let y = redacted_environment(Node::Table(b))->Table_0;
    assert forall|i: int| 0 <= i < x.len() implies x[i] == y[i] by {
        assert(x[i] == redacted_entry(a[i]));
        assert(y[i] == redacted_entry(b[i]));
    }
    assert(x =~= y);
}

/// Two environment lists that set the same variables look the same once they
/// are redacted, whatever the values are.
pub proof fn law_redaction_ignores_list_values(
    keys: Seq<Seq<char>>,
    a: Seq<Seq<char>>,
    b: Seq<Seq<char>>,
)
    requires
        a.len() == keys.len(),
        b.len() == keys.len(),
        forall|i: int| 0 <= i < keys.len() ==> !(#[trigger] keys[i]).contains('='),
    ensures
        redacted_environment(
            Node::List(Seq::new(keys.len(), |i: int| Node::Text(keys[i] + seq!['='] + a[i]))),
        ) == redacted_environment(
            Node::List(Seq::new(keys.len(), |i: int| Node::Text(keys[i] + seq!['='] + b[i]))),
        ),
{
    let p = Seq::new(keys.len(), |i: int| Node::Text(keys[i] + seq!['='] + a[i]));
    let q = Seq::new(keys.len(), |i: int| Node::Text(keys[i] + seq!['='] + b[i]));
    let x = redacted_environment(Node::List(p))->List_0;
    let y = redacted_environment(Node::List(q))->List_0;
    assert forall|i: int| 0 <= i < keys.len() implies x[i] == y[i] by {
        lemma_assignment_key(keys[i], a[i]);
        lemma_assignment_key(keys[i], b[i]);
        assert(x[i] == redacted_item(p[i]));
        assert(y[i] == redacted_item(q[i]));
    }
    assert(x =~= y);
}

proof fn lemma_assignment_key(key: Seq<char>, value: Seq<char>)
    requires
        !key.contains('='),
    ensures
        (key + seq!['='] + value).contains('='),
        before_first(key + seq!['='] + value, '=') == key,
{
    let s = key + seq!['='] + value;
    assert(s[key.len() as int] == '=');
    assert forall|j: int| 0 <= j < key.len() implies s[j] != '=' by {
        assert(key.contains(key[j]));
    }
    crate::text::lemma_first_index_is(s, '=', key.len() as int);
    assert(before_first(s, '=') =~= key);
}

/// Redaction keeps the keys of an environment, in both forms: a mapping keeps
/// its keys, and an item `KEY=value` of a list keeps what precedes the equals
/// sign.
pub proof fn law_redaction_keeps_keys(environment: Node)
    ensures
        environment matches Node::Table(entries) ==> (redacted_environment(environment)
            matches Node::Table(shown) && shown.len() == entries.len() && forall|i: int|
            0 <= i < shown.len() ==> (#[trigger] shown[i]).0 == entries[i].0),
        environment matches Node::List(items) ==> (redacted_environment(environment)
            matches Node::List(shown) && shown.len() == items.len() && forall|i: int|
            0 <= i < shown.len() ==> (items[i].untagged() matches Node::Text(s) ==> (
            #[trigger] shown[i]).untagged() matches Node::Text(t) && before_first(t, '=')
                == before_first(s, '='))),
{
    if let Node::List(items) = environment {
        let shown = redacted_environment(environment)->List_0;
        assert forall|i: int| 0 <= i < shown.len() implies (items[i].untagged() matches Node::Text(
            s,
        ) ==> (#[trigger] shown[i]).untagged() matches Node::Text(t) && before_first(t, '=')
            == before_first(s, '=')) by {
            assert(shown[i] == redacted_item(items[i]));
            lemma_shown_item(items[i]);
        }
    }
}

/// Redaction leaves alone whatever is not the environment of a service: of
/// the configuration only the services change, and of a service only its
/// environment.
pub proof fn law_redaction_touches_environments_only(config: Node, service: Node)
    ensures
        config matches Node::Table(entries) ==> (redacted_config(config) matches Node::Table(shown)
            && shown.len() == entries.len() && forall|i: int|
            0 <= i < shown.len() && i != entry_index(entries, "services"@) ==> #[trigger] shown[i]
                == entries[i]),
        service matches Node::Table(entries) ==> (redacted_service(service) matches Node::Table(
            shown,
        ) && shown.len() == entries.len() && forall|i: int|
            0 <= i < shown.len() && i != entry_index(entries, "environment"@) ==> #[trigger] shown[i]
                == entries[i]),
{
    if let Node::Table(entries) = config {
        lemma_entry_index(entries, "services"@);
    }
    if let Node::Table(entries) = service {
        lemma_entry_index(entries, "environment"@);
    }
}

/// Whether two values of an environment mapping are the same, or both are set.
pub open spec fn values_alike(a: Node, b: Node) -> bool {
    a == b || (!(a.untagged() is Null) && !(b.untagged() is Null))
}

/// Whether two items of an environment list are the same, or both set the same
/// variable.
pub open spec fn items_alike(a: Node, b: Node) -> bool {
    a == b || match (a.untagged(), b.untagged()) {
        (Node::Text(s), Node::Text(t)) => {
            &&& s.contains('=')
            &&& t.contains('=')
            &&& before_first(s, '=') == before_first(t, '=')
        },
        _ => false,
    }
}

/// Whether two `environment` stanzas differ in nothing but the values of their
/// variables.
pub open spec fn environments_alike(a: Node, b: Node) -> bool
    decreases a,
{
    match (a, b) {
        (Node::Table(p), Node::Table(q)) => p.len() == q.len() && forall|i: int|
            0 <= i < p.len() ==> (#[trigger] p[i]).0 == q[i].0 && values_alike(p[i].1, q[i].1),
        (Node::List(p), Node::List(q)) => p.len() == q.len() && forall|i: int|
            0 <= i < p.len() ==> items_alike(#[trigger] p[i], q[i]),
        (Node::Tagged(s, x), Node::Tagged(t, y)) => s == t && environments_alike(*x, *y),
        _ => a == b,
    }
}

/// Whether two services differ in nothing but the values of their environment
/// variables.
pub open spec fn services_alike(a: Node, b: Node) -> bool
    decreases a,
{
    match (a, b) {
        (Node::Table(p), Node::Table(q)) => p.len() == q.len() && forall|i: int|
            0 <= i < p.len() ==> (#[trigger] p[i]).0 == q[i].0 && if i == entry_index(
                p,
                "environment"@,
            ) {
                environments_alike(p[i].1, q[i].1)
            } else {
                p[i].1 == q[i].1
            },
        (Node::Tagged(s, x), Node::Tagged(t, y)) => s == t && services_alike(*x, *y),
        _ => a == b,
    }
}

/// Whether two tables of services differ in nothing but the values of the
/// services' environment variables.
pub open spec fn service_tables_alike(a: Node, b: Node) -> bool
    decreases a,
{
    match (a, b) {
        (Node::Table(p), Node::Table(q)) => p.len() == q.len() && forall|i: int|
            0 <= i < p.len() ==> (#[trigger] p[i]).0 == q[i].0 && services_alike(p[i].1, q[i].1),
        (Node::Tagged(s, x), Node::Tagged(t, y)) => s == t && service_tables_alike(*x, *y),
        _ => a == b,
    }
}

/// Whether two configurations differ in nothing but the values of the
/// services' environment variables.
pub open spec fn configs_alike(a: Node, b: Node) -> bool
    decreases a,
{
    match (a, b) {
        (Node::Table(p), Node::Table(q)) => p.len() == q.len() && forall|i: int|
            0 <= i < p.len() ==> (#[trigger] p[i]).0 == q[i].0 && if i == entry_index(
                p,
                "services"@,
            ) {
                service_tables_alike(p[i].1, q[i].1)
            } else {
                p[i].1 == q[i].1
            },
        (Node::Tagged(s, x), Node::Tagged(t, y)) => s == t && configs_alike(*x, *y),
        _ => a == b,
    }
}

proof fn lemma_items_alike(a: Node, b: Node)
    ensures
        items_alike(a, b) <==> redacted_item(a) == redacted_item(b),
{
    lemma_shown_item(a);
    lemma_shown_item(b);
}

/// An item that sets a variable is shown as one that sets the same.
proof fn lemma_shown_item(item: Node)
    ensures
        item.untagged() matches Node::Text(s) ==> s.contains('=') ==> (redacted_item(item)
            matches Node::Text(t) && t.contains('=') && before_first(t, '=') == before_first(
            s,
            '=',
        )),
{
    if let Node::Text(s) = item.untagged() {
        if s.contains('=') {
            crate::text::lemma_first_index(s, '=');
            let key = before_first(s, '=');
            assert(!key.contains('=')) by {
                assert forall|j: int| 0 <= j < key.len() implies key[j] != '=' by {
                    assert(s[j] != '=');
                }
            }
            lemma_assignment_key(key, REDACTED@);
        }
    }
}

proof fn lemma_environments_alike(a: Node, b: Node)
    ensures
        environments_alike(a, b) <==> redacted_environment(a) == redacted_environment(b),
    decreases a,
{
    match (a, b) {
        (Node::Table(p), Node::Table(q)) => {
            let x = redacted_environment(a)->Table_0;
            let y = redacted_environment(b)->Table_0;
            assert(x.len() == p.len() && y.len() == q.len());
            if environments_alike(a, b) {
                assert forall|i: int| 0 <= i < x.len() implies x[i] == y[i] by {
                    assert(x[i] == redacted_entry(p[i]));
                    assert(y[i] == redacted_entry(q[i]));
                }
                assert(x =~= y);
            } else if x == y {
                assert forall|i: int| 0 <= i < p.len() implies (#[trigger] p[i]).0 == q[i].0
                    && values_alike(p[i].1, q[i].1) by {
                    assert(x[i] == redacted_entry(p[i]));
                    assert(y[i] == redacted_entry(q[i]));
                }
            }
        },
        (Node::List(p), Node::List(q)) => {
            let x = redacted_environment(a)->List_0;
            let y = redacted_environment(b)->List_0;
            assert(x.len() == p.len() && y.len() == q.len());
            if environments_alike(a, b) {
                assert forall|i: int| 0 <= i < x.len() implies x[i] == y[i] by {
                    lemma_items_alike(p[i], q[i]);
                }
                assert(x =~= y);
            } else if x == y {
                assert forall|i: int| 0 <= i < p.len() implies items_alike(
                    #[trigger] p[i],
                    q[i],
                ) by {
                    assert(x[i] == redacted_item(p[i]));
                    assert(y[i] == redacted_item(q[i]));
                    lemma_items_alike(p[i], q[i]);
                }
            }
        },
        (Node::Tagged(s, x), Node::Tagged(t, y)) => {
            lemma_environments_alike(*x, *y);
        },
        _ => {},
    }
}

/// The entries with another value under the first one with a key.
spec fn replaced(entries: Seq<(Node, Node)>, key: Seq<char>, value: Node) -> Seq<(Node, Node)> {
    let i = entry_index(entries, key);
    if i < entries.len() {
        entries.update(i, (entries[i].0, value))
    } else {
        entries
    }
}

/// Entries are the same once the value under a key is replaced if they are so
/// elsewhere and what it is replaced by is.
proof fn lemma_replaced(
    p: Seq<(Node, Node)>,
    q: Seq<(Node, Node)>,
    key: Seq<char>,
    x: Node,
    y: Node,
)
    ensures
        replaced(p, key, x) == replaced(q, key, y) <==> p.len() == q.len() && forall|i: int|
            0 <= i < p.len() ==> (#[trigger] p[i]).0 == q[i].0 && if i == entry_index(p, key) {
                x == y
            } else {
                p[i].1 == q[i].1
            },
        p.len() == q.len() && (forall|i: int|
            0 <= i < p.len() ==> (#[trigger] p[i]).0 == q[i].0) ==> entry_index(p, key)
            == entry_index(q, key),
{
    lemma_entry_index(p, key);
    lemma_entry_index(q, key);
    let pp = replaced(p, key, x);
    let qq = replaced(q, key, y);
    let i = entry_index(p, key);
    let k = entry_index(q, key);
    assert(pp.len() == p.len() && qq.len() == q.len());
    assert forall|j: int| 0 <= j < p.len() implies (#[trigger] pp[j]).0 == p[j].0 && pp[j].1 == if j
        == i {
        x
    } else {
        p[j].1
    } by {}
    assert forall|j: int| 0 <= j < q.len() implies (#[trigger] qq[j]).0 == q[j].0 && qq[j].1 == if j
        == k {
        y
    } else {
        q[j].1
    } by {}
    if pp == qq {
        assert forall|j: int| 0 <= j < p.len() implies (#[trigger] p[j]).0 == q[j].0 by {
            assert(pp[j] == qq[j]);
        }
    }
    if p.len() == q.len() && forall|j: int| 0 <= j < p.len() ==> (#[trigger] p[j]).0 == q[j].0 {
        assert forall|j: int| 0 <= j < k implies (#[trigger] p[j]).0 != Node::Text(key) by {
            assert(q[j].0 != Node::Text(key));
        }
        assert(k < p.len() ==> p[k].0 == q[k].0);
        lemma_entry_index_is(p, key, k);
    }
    if pp == qq {
        assert forall|j: int| 0 <= j < p.len() implies (#[trigger] p[j]).0 == q[j].0 && if j == i {
            x == y
        } else {
            p[j].1 == q[j].1
        } by {
            assert(pp[j] == qq[j]);
        }
    } else if p.len() == q.len() && forall|j: int|
        0 <= j < p.len() ==> (#[trigger] p[j]).0 == q[j].0 && if j == i {
            x == y
        } else {
            p[j].1 == q[j].1
        } {
        assert forall|j: int| 0 <= j < pp.len() implies pp[j] == qq[j] by {
            assert(p[j].0 == q[j].0);
        }
        assert(pp =~= qq);
    }
}

proof fn lemma_services_alike(a: Node, b: Node)
    ensures
        services_alike(a, b) <==> redacted_service(a) == redacted_service(b),
    decreases a,
{
    match (a, b) {
        (Node::Table(p), Node::Table(q)) => {
            let i = entry_index(p, "environment"@);
            let k = entry_index(q, "environment"@);
            let x = redacted_environment(p[i].1);
            let y = redacted_environment(q[k].1);
            assert(redacted_service(a) == Node::Table(replaced(p, "environment"@, x)));
            assert(redacted_service(b) == Node::Table(replaced(q, "environment"@, y)));
            lemma_replaced(p, q, "environment"@, x, y);
            lemma_environments_alike(p[i].1, q[i].1);
        },
        (Node::Tagged(s, x), Node::Tagged(t, y)) => {
            lemma_services_alike(*x, *y);
        },
        _ => {},
    }
}

proof fn lemma_service_tables_alike(a: Node, b: Node)
    ensures
        service_tables_alike(a, b) <==> redacted_services(a) == redacted_services(b),
    decreases a,
{
    match (a, b) {
        (Node::Table(p), Node::Table(q)) => {
            let x = redacted_services(a)->Table_0;
            let y = redacted_services(b)->Table_0;
            assert(x.len() == p.len() && y.len() == q.len());
            if service_tables_alike(a, b) {
                assert forall|i: int| 0 <= i < x.len() implies x[i] == y[i] by {
                    assert(p[i].0 == q[i].0);
                    lemma_services_alike(p[i].1, q[i].1);
                }
                assert(x =~= y);
            } else if x == y {
                assert forall|i: int| 0 <= i < p.len() implies (#[trigger] p[i]).0 == q[i].0
                    && services_alike(p[i].1, q[i].1) by {
                    assert(x[i] == redacted_named_service(p[i]));
                    assert(y[i] == redacted_named_service(q[i]));
                    lemma_services_alike(p[i].1, q[i].1);
                }
            }
        },
        (Node::Tagged(s, x), Node::Tagged(t, y)) => {
            lemma_service_tables_alike(*x, *y);
        },
        _ => {},
    }
}

/// Two configurations look the same once they are redacted exactly if they
/// differ in nothing but the values of the services' environment variables:
/// no value can be told from the log, and everything else can.
pub proof fn law_redaction_hides_values_alone(a: Node, b: Node)
    ensures
        configs_alike(a, b) <==> redacted_config(a) == redacted_config(b),
    decreases a,
{
    match (a, b) {
        (Node::Table(p), Node::Table(q)) => {
            let i = entry_index(p, "services"@);
            let k = entry_index(q, "services"@);
            let x = redacted_services(p[i].1);
            let y = redacted_services(q[k].1);
            assert(redacted_config(a) == Node::Table(replaced(p, "services"@, x)));
            assert(redacted_config(b) == Node::Table(replaced(q, "services"@, y)));
            lemma_replaced(p, q, "services"@, x, y);
            lemma_service_tables_alike(p[i].1, q[i].1);
        },
        (Node::Tagged(s, x), Node::Tagged(t, y)) => {
            law_redaction_hides_values_alone(*x, *y);
        },
        _ => {},
    }
}

/// Two documents whose configurations differ in nothing but the values of the
/// services' environment variables give the same log text.
pub proof fn law_log_does_not_tell_values(a: Seq<u8>, b: Seq<u8>)
    requires
        yaml_parse(a) is Ok,
        yaml_parse(b) is Ok,
        configs_alike(yaml_parse(a)->Ok_0, yaml_parse(b)->Ok_0),
    ensures
        redacted_text(yaml_parse(a)) == redacted_text(yaml_parse(b)),
{
    law_redaction_hides_values_alone(yaml_parse(a)->Ok_0, yaml_parse(b)->Ok_0);
}

/// A redacted configuration differs from the one it was made from in nothing
/// but the values of the services' environment variables.
pub proof fn law_redaction_keeps_the_rest(config: Node)
    ensures
        configs_alike(config, redacted_config(config)),
{
    law_redaction_is_idempotent(config);
    law_redaction_hides_values_alone(config, redacted_config(config));
}

/// A value that is set is shown as `<redacted>`, and a variable that is passed
/// on from outside as it is.
pub proof fn law_set_values_are_replaced(entries: Seq<(Node, Node)>, i: int)
    requires
        0 <= i < entries.len(),
    ensures
        redacted_environment(Node::Table(entries)) matches Node::Table(shown) && shown.len()
            == entries.len() && shown[i].0 == entries[i].0 && (entries[i].1.untagged() is Null
            ==> shown[i] == entries[i]) && (!(entries[i].1.untagged() is Null) ==> shown[i].1
            == Node::Text("<redacted>"@)),
{
}

/// An item `KEY=value` of a list is shown as `KEY=<redacted>`, whatever the
/// value holds; an item without an equals sign is shown as it is.
pub proof fn law_set_items_are_replaced(
    items: Seq<Node>,
    i: int,
    key: Seq<char>,
    value: Seq<char>,
)
    requires
        0 <= i < items.len(),
        !key.contains('='),
    ensures
        redacted_environment(Node::List(items)) matches Node::List(shown) && shown.len()
            == items.len() && (items[i].untagged() == Node::Text(key + seq!['='] + value)
            ==> shown[i] == Node::Text(key + seq!['='] + "<redacted>"@)) && (items[i].untagged()
            == Node::Text(key) ==> shown[i] == items[i]),
{
    let shown = redacted_environment(Node::List(items))->List_0;
    assert(shown[i] == redacted_item(items[i]));
    lemma_assignment_key(key, value);
}

/// The environments of all services are redacted, under whatever name and at
/// whatever place.
pub proof fn law_every_service_is_redacted(
    config: Seq<(Node, Node)>,
    services: Seq<(Node, Node)>,
    service: Seq<(Node, Node)>,
    i: int,
    j: int,
    k: int,
)
    requires
        0 <= i < config.len(),
        0 <= j < services.len(),
        0 <= k < service.len(),
        config[i] == (Node::Text("services"@), Node::Table(services)),
        forall|n: int| 0 <= n < i ==> (#[trigger] config[n]).0 != Node::Text("services"@),
        services[j].1 == Node::Table(service),
        service[k].0 == Node::Text("environment"@),
        forall|n: int| 0 <= n < k ==> (#[trigger] service[n]).0 != Node::Text("environment"@),
    ensures
        ({
            let shown = redacted_config(Node::Table(config))->Table_0;
            let all = shown[i].1->Table_0;
            let one = all[j].1->Table_0;
            &&& redacted_config(Node::Table(config)) is Table
            &&& shown[i].1 is Table
            &&& all.len() == services.len()
            &&& all[j].0 == services[j].0
            &&& all[j].1 is Table
            &&& one.len() == service.len()
            &&& one[k].1 == redacted_environment(service[k].1)
        }),
{
    lemma_entry_index_is(config, "services"@, i);
    lemma_entry_index_is(service, "environment"@, k);
}

/// Where a configuration cannot be read, the log tells why and nothing else.
pub proof fn law_unreadable_configurations_are_not_shown(a: Seq<u8>, e: Seq<char>)
    requires
        yaml_parse(a) == Err::<Node, Seq<char>>(e),
    ensures
        redacted_text(yaml_parse(a)) == "<not shown: could not parse compose config: "@ + e + ">"@,
{
}

/// The configuration is asked for with the profile that is given; the profiles are
/// asked for without one.
pub proof fn law_configuration_is_asked_for(
    context: ComposeContext,
    profile: Option<&str>,
    config: CommandLine,
    profiles: CommandLine,
)
    requires
        call_ensures(config_command, (&context, profile), config),
        call_ensures(profiles_command, (&context,), profiles),
    ensures
        config.program@ == "docker"@,
        texts(config.args@).last() == "config"@,
        texts(config.args@).drop_last() == compose_args(context, str_opt(profile)),
        profiles.program@ == "docker"@,
        texts(profiles.args@).last() == "--profiles"@,
        texts(profiles.args@)[texts(profiles.args@).len() - 2] == "config"@,
        texts(profiles.args@).len() == compose_args(context, None).len() + 2,
{
    assert(texts(config.args@).drop_last() =~= compose_args(context, str_opt(profile)));
}

/// The profiles are the lines that were printed.
pub proof fn law_profiles_are_lines(out: &str, profiles: Vec<String>)
    requires
        call_ensures(profiles_of, (out,), profiles),
    ensures
        texts(profiles@) == lines_of(out@),
        out@.len() == 0 ==> profiles@.len() == 0,
{
    assert(texts(profiles@).len() == profiles@.len());
}

/// While an action goes on it has a word of its own.
pub proof fn law_actions_that_go_on(action: ComposeAction, word: &str)
    requires
        call_ensures(ComposeAction::as_gerund, (&action,), word),
    ensures
        action == ComposeAction::Run ==> word@ == "running"@,
        action == ComposeAction::Restart ==> word@ == "restarting"@,
{
}

} // verus!
