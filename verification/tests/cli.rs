use agentcontainer::cli::{
    cli_layer, is_valid_env_var_key, parse_cli_build_arguments, parse_cli_environment_variables,
    parse_cli_volumes, CliArgs, Command,
};
use agentcontainer::entries::{BuildArgumentEntry, EnvironmentVariableEntry, VolumeEntry};
use agentcontainer::error::ConfigError;
use agentcontainer::layers::{merge_layers, Layer, Leaf, Node};

fn strings(values: &[&str]) -> Vec<String> {
    values.iter().map(|s| String::from(*s)).collect()
}

fn empty_cli() -> CliArgs {
    CliArgs {
        dockerfile: None,
        build_context: None,
        build_arguments: vec![],
        pre_build: vec![],
        project_name: None,
        username: None,
        target: None,
        allow_stale: false,
        force_rebuild: false,
        no_build_cache: false,
        no_rebuild: false,
        volumes: vec![],
        environment_variables: vec![],
        pre_run: vec![],
        post_run: vec![],
        command: Command::Build,
    }
}

#[test]
fn env_var_keys_follow_the_posix_pattern() {
    assert!(is_valid_env_var_key("MY_VAR"));
    assert!(is_valid_env_var_key("_PRIVATE"));
    assert!(is_valid_env_var_key("lower_case_1"));
    assert!(is_valid_env_var_key("A"));
    assert!(!is_valid_env_var_key(""));
    assert!(!is_valid_env_var_key("1ABC"));
    assert!(!is_valid_env_var_key("MY-VAR"));
    assert!(!is_valid_env_var_key("MY VAR"));
    assert!(!is_valid_env_var_key("KEY="));
    assert!(!is_valid_env_var_key("CAFÉ"));
}

#[test]
fn build_arg_key_equals_value_is_a_value() {
    let parsed = parse_cli_build_arguments(&strings(&["MY_ARG=hello"])).unwrap();
    assert_eq!(parsed.len(), 1);
    assert_eq!(parsed[0].0, "MY_ARG");
    assert!(matches!(&parsed[0].1, BuildArgumentEntry::Value(v) if v == "hello"));
}

#[test]
fn build_arg_value_keeps_later_equals_signs() {
    let parsed = parse_cli_build_arguments(&strings(&["MY_ARG=a=b=c"])).unwrap();
    assert_eq!(parsed[0].0, "MY_ARG");
    assert!(matches!(&parsed[0].1, BuildArgumentEntry::Value(v) if v == "a=b=c"));
}

#[test]
fn build_arg_key_alone_inherits() {
    let parsed = parse_cli_build_arguments(&strings(&["MY_ARG"])).unwrap();
    assert_eq!(parsed[0].0, "MY_ARG");
    assert!(matches!(parsed[0].1, BuildArgumentEntry::Inherit));
}

#[test]
fn build_arg_with_bang_removes() {
    let parsed = parse_cli_build_arguments(&strings(&["!MY_ARG"])).unwrap();
    assert_eq!(parsed[0].0, "MY_ARG");
    assert!(matches!(parsed[0].1, BuildArgumentEntry::Remove));
}

#[test]
fn build_arg_empty_string_is_an_invalid_build_argument() {
    let error = parse_cli_build_arguments(&strings(&[""])).unwrap_err();
    assert!(matches!(error, ConfigError::InvalidBuildArgument { ref value } if value.is_empty()));
}

#[test]
fn build_arg_bad_keys_are_invalid_build_argument_keys() {
    let error = parse_cli_build_arguments(&strings(&["1ABC"])).unwrap_err();
    assert!(matches!(error, ConfigError::InvalidBuildArgumentKey { ref key } if key == "1ABC"));
    let error = parse_cli_build_arguments(&strings(&["MY ARG=x"])).unwrap_err();
    assert!(matches!(error, ConfigError::InvalidBuildArgumentKey { ref key } if key == "MY ARG"));
    let error = parse_cli_build_arguments(&strings(&["!BAD-KEY"])).unwrap_err();
    assert!(matches!(error, ConfigError::InvalidBuildArgumentKey { ref key } if key == "BAD-KEY"));
}

#[test]
fn build_args_report_the_first_bad_entry() {
    let error = parse_cli_build_arguments(&strings(&["OK=1", "2BAD", ""])).unwrap_err();
    assert!(matches!(error, ConfigError::InvalidBuildArgumentKey { ref key } if key == "2BAD"));
}

#[test]
fn build_args_keep_their_order() {
    let parsed = parse_cli_build_arguments(&strings(&["B=2", "A", "!C"])).unwrap();
    let keys: Vec<&str> = parsed.iter().map(|(k, _)| k.as_str()).collect();
    assert_eq!(keys, vec!["B", "A", "C"]);
}

#[test]
fn volume_host_and_container_are_split_at_the_last_colon() {
    let parsed = parse_cli_volumes(&strings(&["/host/path:/container/path"])).unwrap();
    assert_eq!(parsed[0].0, "/container/path");
    assert!(matches!(&parsed[0].1, VolumeEntry::Active(h) if h == "/host/path"));
}

#[test]
fn volume_bare_path_is_same_path() {
    let parsed = parse_cli_volumes(&strings(&["/shared/data"])).unwrap();
    assert_eq!(parsed[0].0, "/shared/data");
    assert!(matches!(parsed[0].1, VolumeEntry::SamePath));
}

#[test]
fn volume_with_bang_removes() {
    let parsed = parse_cli_volumes(&strings(&["!/container/path"])).unwrap();
    assert_eq!(parsed[0].0, "/container/path");
    assert!(matches!(parsed[0].1, VolumeEntry::Remove));
}

#[test]
fn volume_relative_host_path_is_accepted() {
    let parsed = parse_cli_volumes(&strings(&["./data:/data", "cache:/cache"])).unwrap();
    assert!(matches!(&parsed[0].1, VolumeEntry::Active(h) if h == "./data"));
    assert_eq!(parsed[1].0, "/cache");
    assert!(matches!(&parsed[1].1, VolumeEntry::Active(h) if h == "cache"));
}

#[test]
fn malformed_volumes_are_invalid_volumes() {
    for raw in ["", ":/container", "/host:", "!", "!/a:b", "a:b:c"] {
        let error = parse_cli_volumes(&strings(&[raw])).unwrap_err();
        assert!(
            matches!(error, ConfigError::InvalidVolume { ref value } if value == raw),
            "{raw:?} gave {error:?}"
        );
    }
}

#[test]
fn env_var_forms_are_parsed() {
    let parsed =
        parse_cli_environment_variables(&strings(&["MY_VAR=my_value", "INHERITED", "!GONE"]))
            .unwrap();
    assert_eq!(parsed[0].0, "MY_VAR");
    assert!(matches!(&parsed[0].1, EnvironmentVariableEntry::Value(v) if v == "my_value"));
    assert_eq!(parsed[1].0, "INHERITED");
    assert!(matches!(parsed[1].1, EnvironmentVariableEntry::Inherit));
    assert_eq!(parsed[2].0, "GONE");
    assert!(matches!(parsed[2].1, EnvironmentVariableEntry::Remove));
}

#[test]
fn env_var_value_may_be_empty_or_hold_equals_signs() {
    let parsed = parse_cli_environment_variables(&strings(&["A=", "B=x=y"])).unwrap();
    assert!(matches!(&parsed[0].1, EnvironmentVariableEntry::Value(v) if v.is_empty()));
    assert!(matches!(&parsed[1].1, EnvironmentVariableEntry::Value(v) if v == "x=y"));
}

#[test]
fn env_var_errors_name_the_value_or_the_key() {
    let error = parse_cli_environment_variables(&strings(&[""])).unwrap_err();
    assert!(matches!(error, ConfigError::InvalidEnvironmentVariable { ref value } if value.is_empty()));
    let error = parse_cli_environment_variables(&strings(&["!A=B"])).unwrap_err();
    assert!(matches!(error, ConfigError::InvalidEnvironmentVariableKey { ref key } if key == "A=B"));
    let error = parse_cli_environment_variables(&strings(&["MY-VAR=1"])).unwrap_err();
    assert!(matches!(error, ConfigError::InvalidEnvironmentVariableKey { ref key } if key == "MY-VAR"));
    let error = parse_cli_environment_variables(&strings(&["9LIVES"])).unwrap_err();
    assert!(matches!(error, ConfigError::InvalidEnvironmentVariableKey { ref key } if key == "9LIVES"));
}

#[test]
fn empty_command_line_contributes_nothing() {
    let layer = cli_layer(&empty_cli()).unwrap();
    assert!(layer.entries.is_empty());
}

#[test]
fn command_line_layer_holds_only_given_values() {
    let mut cli = empty_cli();
    cli.build_arguments = strings(&["A=1"]);
    cli.volumes = strings(&["/data"]);
    cli.pre_run = strings(&["./hook"]);
    cli.target = Some(String::from("dev"));
    cli.no_rebuild = true;
    let layer = cli_layer(&cli).unwrap();
    let keys: Vec<&str> = layer.entries.iter().map(|(k, _)| k.as_str()).collect();
    assert_eq!(keys, vec!["build_arguments", "volumes", "pre_run", "target", "no_rebuild"]);
    match &layer.entries[0].1 {
        Node::Table(t) => {
            assert_eq!(t.len(), 1);
            assert_eq!(t[0].0, "A");
            assert!(matches!(&t[0].1, Leaf::Text(v) if v == "1"));
        }
        other => panic!("unexpected node {other:?}"),
    }
    match &layer.entries[1].1 {
        Node::Table(t) => {
            assert_eq!(t[0].0, "/data");
            assert!(matches!(t[0].1, Leaf::Flag(true)));
        }
        other => panic!("unexpected node {other:?}"),
    }
    match &layer.entries[2].1 {
        Node::List(l) => {
            assert_eq!(l.len(), 1);
            assert!(matches!(&l[0], Leaf::Text(v) if v == "./hook"));
        }
        other => panic!("unexpected node {other:?}"),
    }
    assert!(matches!(&layer.entries[3].1, Node::Scalar(Leaf::Text(v)) if v == "dev"));
    assert!(matches!(layer.entries[4].1, Node::Scalar(Leaf::Flag(true))));
}

#[test]
fn command_line_removal_is_false_in_the_layer() {
    let mut cli = empty_cli();
    cli.environment_variables = strings(&["!GONE"]);
    let layer = cli_layer(&cli).unwrap();
    assert_eq!(layer.entries[0].0, "environment_variables");
    match &layer.entries[0].1 {
        Node::Table(t) => {
            assert_eq!(t[0].0, "GONE");
            assert!(matches!(t[0].1, Leaf::Flag(false)));
        }
        other => panic!("unexpected node {other:?}"),
    }
}

#[test]
fn command_line_errors_are_checked_build_args_first() {
    let mut cli = empty_cli();
    cli.build_arguments = strings(&["1X"]);
    cli.volumes = strings(&[""]);
    let error = cli_layer(&cli).unwrap_err();
    assert!(matches!(error, ConfigError::InvalidBuildArgumentKey { .. }));
    cli.build_arguments = vec![];
    let error = cli_layer(&cli).unwrap_err();
    assert!(matches!(error, ConfigError::InvalidVolume { .. }));
}

#[test]
fn unset_command_line_values_keep_lower_priority_values() {
    let lower = Layer {
        entries: vec![
            (String::from("dockerfile"), Node::Scalar(Leaf::Text(String::from("from-file")))),
            (String::from("no_rebuild"), Node::Scalar(Leaf::Flag(true))),
        ],
    };
    let mut cli = empty_cli();
    cli.username = Some(String::from("bob"));
    let top = cli_layer(&cli).unwrap();
    let merged = merge_layers(vec![lower, top], "/home/u");
    let get = |key: &str| merged.entries.iter().rev().find(|(k, _)| k == key).map(|(_, v)| v);
    assert!(matches!(get("dockerfile"), Some(Node::Scalar(Leaf::Text(s))) if s == "from-file"));
    assert!(matches!(get("no_rebuild"), Some(Node::Scalar(Leaf::Flag(true)))));
    assert!(matches!(get("username"), Some(Node::Scalar(Leaf::Text(s))) if s == "bob"));
}

#[test]
fn command_line_values_override_lower_priority_values() {
    let lower = Layer {
        entries: vec![
            (String::from("dockerfile"), Node::Scalar(Leaf::Text(String::from("from-file")))),
            (String::from("allow_stale"), Node::Scalar(Leaf::Flag(false))),
            (String::from("target"), Node::Scalar(Leaf::Text(String::from("dev")))),
        ],
    };
    let mut cli = empty_cli();
    cli.dockerfile = Some(String::from("from-cli"));
    cli.allow_stale = true;
    let top = cli_layer(&cli).unwrap();
    let merged = merge_layers(vec![lower, top], "/home/u");
    let get = |key: &str| merged.entries.iter().rev().find(|(k, _)| k == key).map(|(_, v)| v);
    assert!(matches!(get("dockerfile"), Some(Node::Scalar(Leaf::Text(s))) if s == "from-cli"));
    assert!(matches!(get("allow_stale"), Some(Node::Scalar(Leaf::Flag(true)))));
    assert!(matches!(get("target"), Some(Node::Scalar(Leaf::Text(s))) if s == "dev"));
}

#[test]
fn a_later_argument_for_a_key_replaces_an_earlier_one() {
    let parsed = parse_cli_environment_variables(&strings(&["A=1", "B=2", "A=3"])).unwrap();
    assert_eq!(parsed.len(), 2);
    assert_eq!(parsed[0].0, "B");
    assert_eq!(parsed[1].0, "A");
    assert!(matches!(&parsed[1].1, EnvironmentVariableEntry::Value(v) if v == "3"));
    let volumes = parse_cli_volumes(&strings(&["/a:/x", "!/x"])).unwrap();
    assert_eq!(volumes.len(), 1);
    assert!(matches!(volumes[0].1, VolumeEntry::Remove));
}
