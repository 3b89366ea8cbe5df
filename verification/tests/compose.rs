use composer::compose::{
    compose_command, config_command, profiles_command, profiles_of, redact_compose_config,
    redact_environment, ComposeAction, ComposeContext,
};
use composer::yaml::Yaml;

fn context(env_file: Option<&str>, project_directory: Option<&str>) -> ComposeContext {
    ComposeContext {
        compose_file: "compose.yml".to_string(),
        env_file: env_file.map(str::to_string),
        project_directory: project_directory.map(str::to_string),
        hostname: "test".to_string(),
    }
}

#[test]
fn redacts_environment_mapping_values() {
    let raw = b"\
name: example
services:
  app:
    image: alpine
    environment:
      DB_PASSWORD: hunter2
      API_KEY: sk-live-123
      EMPTY: null
    labels:
      co.architect.composer.run: '0 0 * * * *'
";
    let out = redact_compose_config(raw);
    assert!(!out.contains("hunter2"), "{out}");
    assert!(!out.contains("sk-live-123"), "{out}");
    assert!(out.contains("DB_PASSWORD: <redacted>"), "{out}");
    assert!(out.contains("API_KEY: <redacted>"), "{out}");
    assert!(out.contains("EMPTY: null"), "{out}");
    // non-environment content is preserved
    assert!(out.contains("image: alpine"), "{out}");
    assert!(out.contains("co.architect.composer.run"), "{out}");
}

#[test]
fn redacts_environment_list_values() {
    let raw = b"\
services:
  app:
    environment:
      - DB_PASSWORD=hunter2
      - PASSTHROUGH
";
    let out = redact_compose_config(raw);
    assert!(!out.contains("hunter2"), "{out}");
    assert!(out.contains("DB_PASSWORD=<redacted>"), "{out}");
    assert!(out.contains("PASSTHROUGH"), "{out}");
}

#[test]
fn unparseable_config_is_not_echoed() {
    let raw = b"services: [unterminated\n  SECRET: hunter2";
    let out = redact_compose_config(raw);
    assert!(!out.contains("hunter2"), "{out}");
    assert!(out.starts_with("<not shown"), "{out}");
}

#[test]
fn services_without_environment_are_untouched() {
    let raw = b"services:\n  app:\n    image: alpine\n  other: null\n";
    let out = redact_compose_config(raw);
    assert!(out.contains("image: alpine"), "{out}");
}

#[test]
fn redaction_keeps_everything_but_the_values() {
    let raw = b"\
version: 3
services:
  app:
    environment:
      A: 1
      B: true
    ports:
    - 80
    - 443
";
    let out = redact_compose_config(raw);
    assert_eq!(
        out,
        "\
version: 3
services:
  app:
    environment:
      A: <redacted>
      B: <redacted>
    ports:
    - 80
    - 443
"
    );
    // redacting again changes nothing
    assert_eq!(redact_compose_config(out.as_bytes()), out);
}

#[test]
fn redaction_does_not_depend_on_the_values() {
    let one = redact_compose_config(b"services: {a: {environment: [X=1, Y]}}");
    let two = redact_compose_config(b"services: {a: {environment: [X=2=3, Y]}}");
    assert_eq!(one, two);
}

#[test]
fn redaction_looks_under_tags() {
    let out = redact_compose_config(b"services: {app: {environment: !x {A: hunter2, B: null}}}");
    assert!(!out.contains("hunter2"), "{out}");
    assert!(out.contains("!x"), "{out}");
    assert!(out.contains("A: <redacted>"), "{out}");
    assert!(out.contains("B: null"), "{out}");
    let out = redact_compose_config(b"services: !s {app: !t {environment: !u [A=hunter2, B]}}");
    assert!(!out.contains("hunter2"), "{out}");
    assert!(out.contains("A=<redacted>"), "{out}");
    assert!(out.contains("!s") && out.contains("!t") && out.contains("!u"), "{out}");
}

#[test]
fn only_the_values_of_environments_are_hidden() {
    let shown = |environment: &str, rest: &str| {
        redact_compose_config(
            format!("services: {{a: {{environment: {environment}, image: {rest}}}}}").as_bytes(),
        )
    };
    assert_eq!(shown("{A: 1, B: null}", "x"), shown("{A: [2], B: null}", "x"));
    assert_eq!(shown("[A=1, B]", "x"), shown("[A=, B]", "x"));
    // everything else can be told apart
    assert_ne!(shown("{A: 1}", "x"), shown("{A: 1}", "y"));
    assert_ne!(shown("{A: 1}", "x"), shown("{B: 1}", "x"));
    assert_ne!(shown("{A: 1}", "x"), shown("{A: null}", "x"));
    assert_ne!(shown("[A=1]", "x"), shown("[A]", "x"));
    assert_ne!(shown("[A=1]", "x"), shown("{A: 1}", "x"));
}

#[test]
fn environment_of_another_form_is_left_alone() {
    let text = redact_environment(Yaml::Text("A=b".to_string()));
    assert!(matches!(text, Yaml::Text(s) if s == "A=b"));
    let list = redact_environment(Yaml::List(vec![Yaml::Bool(true), Yaml::Text("K=v=w".to_string())]));
    match list {
        Yaml::List(items) => {
            assert!(matches!(items[0], Yaml::Bool(true)));
            assert!(matches!(&items[1], Yaml::Text(s) if s == "K=<redacted>"));
        }
        _ => panic!("not a list"),
    }
}

#[test]
fn actions_have_words() {
    assert_eq!(ComposeAction::Run.as_gerund(), "running");
    assert_eq!(ComposeAction::Restart.as_gerund(), "restarting");
    assert_eq!(ComposeAction::Run.as_past_participle(), "run");
    assert_eq!(ComposeAction::Restart.as_past_participle(), "restarted");
    assert_eq!(ComposeAction::Restart.name(), "restart");
}

#[test]
fn compose_command_passes_what_is_set() {
    let cmd = compose_command(&context(None, None), None);
    assert_eq!(cmd.program, "docker");
    assert_eq!(cmd.args, vec!["compose", "-f", "compose.yml"]);
    let cmd = config_command(&context(Some(".env"), Some("/srv")), Some("*"));
    assert_eq!(
        cmd.args,
        vec![
            "compose", "-f", "compose.yml", "--env-file", ".env", "--project-directory", "/srv",
            "--profile", "*", "config"
        ]
    );
    let cmd = profiles_command(&context(None, None));
    assert_eq!(cmd.args, vec!["compose", "-f", "compose.yml", "config", "--profiles"]);
    assert_eq!(profiles_of("a\r\nb\n\nc"), vec!["a", "b", "", "c"]);
}
