use agentcontainer::cli::{
    cli_layer, parse_cli_build_arguments, parse_cli_environment_variables, parse_cli_volumes,
    CliArgs, Command,
};
use agentcontainer::config::Config;
use agentcontainer::entries::{
    entry_from_leaf, BuildArgumentEntry, EnvironmentVariableEntry, VolumeEntry,
};
use agentcontainer::error::ConfigError;
use agentcontainer::layers::{merge_layers, Layer, Leaf, Node};
use agentcontainer::resolve::{clean_config, finalize_config};
use std::collections::BTreeMap;

fn args(values: &[&str]) -> Vec<String> {
    values.iter().map(|s| String::from(*s)).collect()
}

fn build_arg(raw: &str) -> Result<Option<BuildArgumentEntry>, ConfigError> {
    parse_cli_build_arguments(&args(&[raw]))
        .map(|parsed| parsed.into_iter().next().map(|(_, entry)| entry))
}

fn env_var(raw: &str) -> Result<Vec<(String, EnvironmentVariableEntry)>, ConfigError> {
    parse_cli_environment_variables(&args(&[raw]))
}

/// A configuration whose volumes are the parsed `--volume` arguments, resolved as the
/// configuration loader resolves them.
fn resolved_volumes(raw: &[&str]) -> Result<Vec<(String, VolumeEntry)>, ConfigError> {
    let volumes = parse_cli_volumes(&args(raw))?;
    let config = Config {
        dockerfile: String::from(".agentcontainer/Dockerfile"),
        build_context: String::from("."),
        build_arguments: Vec::new(),
        pre_build: vec![],
        project_name: String::from("myproject"),
        username: String::from("alice"),
        target: None,
        allow_stale: false,
        force_rebuild: false,
        no_build_cache: false,
        no_rebuild: false,
        volumes,
        environment_variables: Vec::new(),
        pre_run: vec![],
        post_run: vec![],
    };
    finalize_config(config, "/home/u", "/work").map(|c| c.volumes)
}

fn host_of(volumes: &[(String, VolumeEntry)], container: &str) -> Option<String> {
    volumes.iter().rev().find(|(k, _)| k == container).and_then(|(_, e)| match e {
        VolumeEntry::Active(h) => Some(h.clone()),
        _ => None,
    })
}

#[test]
fn cli_build_arg_key_equals_value_format_parses_correctly() {
    assert!(matches!(build_arg("MY_ARG=hello"), Ok(Some(BuildArgumentEntry::Value(ref v))) if v == "hello"));
}

#[test]
fn cli_build_arg_key_equals_value_with_equals_in_value_parses_correctly() {
    assert!(matches!(build_arg("MY_ARG=val=ue"), Ok(Some(BuildArgumentEntry::Value(ref v))) if v == "val=ue"));
}

#[test]
fn cli_build_arg_key_only_means_inherit() {
    assert!(matches!(build_arg("MY_ARG"), Ok(Some(BuildArgumentEntry::Inherit))));
}

#[test]
fn cli_build_arg_empty_string_is_rejected() {
    assert!(matches!(build_arg(""), Err(ConfigError::InvalidBuildArgument { .. })));
}

#[test]
fn cli_key_only_with_invalid_key_is_rejected() {
    assert!(matches!(build_arg("1INVALID"), Err(ConfigError::InvalidBuildArgumentKey { .. })));
}

#[test]
fn build_arguments_cli_key_with_spaces_is_rejected() {
    assert!(matches!(build_arg("BAD KEY=value"), Err(ConfigError::InvalidBuildArgumentKey { .. })));
}

#[test]
fn build_arguments_cli_key_starting_with_digit_is_rejected() {
    assert!(matches!(build_arg("1KEY=value"), Err(ConfigError::InvalidBuildArgumentKey { .. })));
}

#[test]
fn cli_env_var_key_equals_value_format_parses_correctly() {
    let parsed = env_var("KEY=val").unwrap();
    assert_eq!(parsed[0].0, "KEY");
    assert!(matches!(parsed[0].1, EnvironmentVariableEntry::Value(ref v) if v == "val"));
}

#[test]
fn cli_env_var_key_equals_value_with_equals_in_value_parses_correctly() {
    let parsed = env_var("KEY=value=another").unwrap();
    assert!(matches!(parsed[0].1, EnvironmentVariableEntry::Value(ref v) if v == "value=another"));
}

#[test]
fn cli_env_var_key_only_format_means_inherit() {
    let parsed = env_var("KEY").unwrap();
    assert_eq!(parsed[0].0, "KEY");
    assert!(matches!(parsed[0].1, EnvironmentVariableEntry::Inherit));
}

#[test]
fn malformed_cli_env_var_empty_string_triggers_invalid_error() {
    assert!(matches!(env_var(""), Err(ConfigError::InvalidEnvironmentVariable { .. })));
}

#[test]
fn cli_env_var_removal_with_equals_in_key_triggers_invalid_key_error() {
    assert!(matches!(env_var("!KEY=extra"), Err(ConfigError::InvalidEnvironmentVariableKey { .. })));
}

#[test]
fn environment_variables_cli_key_with_spaces_is_rejected() {
    assert!(matches!(env_var("INVALID KEY=value"), Err(ConfigError::InvalidEnvironmentVariableKey { .. })));
}

#[test]
fn environment_variables_cli_key_starting_with_digit_is_rejected() {
    assert!(matches!(env_var("1KEY=value"), Err(ConfigError::InvalidEnvironmentVariableKey { .. })));
}

#[test]
fn cli_key_with_hyphen_is_rejected() {
    assert!(matches!(env_var("MY-KEY=value"), Err(ConfigError::InvalidEnvironmentVariableKey { .. })));
}

#[test]
fn cli_inherit_format_with_invalid_key_is_rejected() {
    assert!(matches!(env_var("BAD KEY"), Err(ConfigError::InvalidEnvironmentVariableKey { .. })));
}

#[test]
fn cli_removal_format_with_invalid_key_is_rejected() {
    assert!(matches!(env_var("!BAD KEY"), Err(ConfigError::InvalidEnvironmentVariableKey { .. })));
}

#[test]
fn valid_key_with_underscores_and_digits_is_accepted() {
    let parsed = env_var("_MY_VAR_2=value").unwrap();
    assert_eq!(parsed[0].0, "_MY_VAR_2");
    assert!(matches!(parsed[0].1, EnvironmentVariableEntry::Value(ref v) if v == "value"));
}

#[test]
fn valid_lowercase_key_is_accepted() {
    let parsed = env_var("my_var=value").unwrap();
    assert_eq!(parsed[0].0, "my_var");
    assert!(matches!(parsed[0].1, EnvironmentVariableEntry::Value(ref v) if v == "value"));
}

#[test]
fn cli_volume_host_container_format_is_parsed_correctly() {
    let volumes = resolved_volumes(&["/host:/container"]).unwrap();
    assert_eq!(host_of(&volumes, "/container").as_deref(), Some("/host"));
}

#[test]
fn cli_volume_same_path_format_is_resolved_to_active() {
    let volumes = resolved_volumes(&["/same-path"]).unwrap();
    assert_eq!(host_of(&volumes, "/same-path").as_deref(), Some("/same-path"));
}

#[test]
fn cli_docker_volume_name_is_accepted_and_unchanged() {
    let volumes = resolved_volumes(&["my-volume:/container"]).unwrap();
    assert_eq!(host_of(&volumes, "/container").as_deref(), Some("my-volume"));
}

#[test]
fn cli_volume_removal_format_sets_remove() {
    let file = Layer {
        entries: vec![(
            String::from("volumes"),
            Node::Table(vec![(String::from("/container"), Leaf::Text(String::from("/host-from-cwd")))]),
        )],
    };
    let cli = CliArgs {
        dockerfile: None,
        build_context: None,
        build_arguments: vec![],
        pre_build: vec![],
        project_name: None,
        username: None,
        target: None,
        allow_stale: false,
        force_rebuild: false,
        no_build_cache: false,
        no_rebuild: false,
        volumes: args(&["!/container"]),
        environment_variables: vec![],
        pre_run: vec![],
        post_run: vec![],
        command: Command::Config,
    };
    let merged = merge_layers(vec![file, cli_layer(&cli).unwrap()], "/home/u");
    // Later pairs for a key take precedence, as in the map the configuration is extracted from.
    let mut table: BTreeMap<String, &Leaf> = BTreeMap::new();
    for (key, node) in &merged.entries {
        if let (true, Node::Table(pairs)) = (key == "volumes", node) {
            for (container, leaf) in pairs {
                table.insert(container.clone(), leaf);
            }
        }
    }
    let volumes: Vec<(String, VolumeEntry)> = table
        .into_iter()
        .map(|(k, leaf)| (k, entry_from_leaf::<VolumeEntry>(leaf).unwrap()))
        .collect();
    let mut config = Config {
        dockerfile: String::from("d"),
        build_context: String::from("."),
        build_arguments: Vec::new(),
        pre_build: vec![],
        project_name: String::from("p"),
        username: String::from("u"),
        target: None,
        allow_stale: false,
        force_rebuild: false,
        no_build_cache: false,
        no_rebuild: false,
        volumes,
        environment_variables: Vec::new(),
        pre_run: vec![],
        post_run: vec![],
    };
    clean_config(&mut config);
    assert!(!config.volumes.iter().any(|(k, _)| k == "/container"));
}

#[test]
fn cli_volume_empty_string_triggers_invalid_volume_error() {
    assert!(matches!(resolved_volumes(&[""]), Err(ConfigError::InvalidVolume { .. })));
}

#[test]
fn malformed_cli_volume_empty_host_triggers_invalid_volume_error() {
    assert!(matches!(resolved_volumes(&[":/container"]), Err(ConfigError::InvalidVolume { .. })));
}

#[test]
fn malformed_cli_volume_empty_container_path_triggers_invalid_volume_error() {
    assert!(matches!(resolved_volumes(&["/host:"]), Err(ConfigError::InvalidVolume { .. })));
}

#[test]
fn cli_volume_removal_with_colon_in_container_path_triggers_invalid_volume_error() {
    assert!(matches!(resolved_volumes(&["!/container:extra"]), Err(ConfigError::InvalidVolume { .. })));
}

#[test]
fn cli_volume_with_multiple_colons_triggers_invalid_volume_error() {
    assert!(matches!(resolved_volumes(&["/host:/extra:/container"]), Err(ConfigError::InvalidVolume { .. })));
}

#[test]
fn cli_same_path_with_relative_path_triggers_invalid_volume_path_error() {
    assert!(matches!(resolved_volumes(&["relative-path"]), Err(ConfigError::InvalidVolumePath { .. })));
}

#[test]
fn cli_host_container_with_relative_container_path_triggers_invalid_volume_path_error() {
    assert!(matches!(resolved_volumes(&["/host:relative"]), Err(ConfigError::InvalidVolumePath { .. })));
}
