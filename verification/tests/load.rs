use agentcontainer::cli::{CliArgs, Command};
use agentcontainer::config::Config;
use agentcontainer::error::ConfigError;
use agentcontainer::layers::{Layer, Leaf, Node};
use agentcontainer::load::{get_config, LoadError};
use std::cell::RefCell;

fn cli() -> CliArgs {
    CliArgs {
        dockerfile: None,
        build_context: None,
        build_arguments: vec![],
        pre_build: vec![],
        project_name: None,
        username: None,
        target: None,
        allow_stale: false,
        force_rebuild: false,
        no_build_cache: false,
        no_rebuild: false,
        volumes: vec![],
        environment_variables: vec![],
        pre_run: vec![],
        post_run: vec![],
        command: Command::Build,
    }
}

fn text_layer(key: &str, value: &str) -> Layer {
    Layer {
        entries: vec![(String::from(key), Node::Scalar(Leaf::Text(String::from(value))))],
    }
}

/// A configuration from the merged layer: the last string for `dockerfile`, defaults otherwise.
fn extract_dockerfile(merged: Layer) -> Result<Config, String> {
    let dockerfile = merged
        .entries
        .iter()
        .rev()
        .find_map(|(k, v)| match (k.as_str(), v) {
            ("dockerfile", Node::Scalar(Leaf::Text(s))) => Some(s.clone()),
            _ => None,
        })
        .unwrap_or_else(|| String::from(".agentcontainer/Dockerfile"));
    Ok(Config {
        dockerfile,
        build_context: String::from("."),
        build_arguments: Vec::new(),
        pre_build: vec![],
        project_name: String::from("proj"),
        username: String::from("alice"),
        target: None,
        allow_stale: false,
        force_rebuild: false,
        no_build_cache: false,
        no_rebuild: false,
        volumes: Vec::new(),
        environment_variables: Vec::new(),
        pre_run: vec![],
        post_run: vec![],
    })
}

#[test]
fn full_priority_chain_command_line_wins() {
    let mut args = cli();
    args.dockerfile = Some(String::from("from-cli"));
    let asked = RefCell::new(Vec::new());
    let (command, config) = get_config(
        "/home/u",
        "/w",
        &args,
        |files: &Vec<String>| {
            *asked.borrow_mut() = files.clone();
            Ok::<Vec<Layer>, String>(vec![
                text_layer("dockerfile", "from-xdg"),
                text_layer("dockerfile", "from-env"),
            ])
        },
        extract_dockerfile,
    )
    .unwrap();
    assert!(matches!(command, Command::Build));
    assert_eq!(config.dockerfile, "/w/from-cli");
    assert_eq!(asked.into_inner()[0], "/home/u/.config/agentcontainer/config.toml");
}

#[test]
fn unset_command_line_value_keeps_the_sources_value() {
    let (_, config) = get_config(
        "/home/u",
        "/w",
        &cli(),
        |_files: &Vec<String>| {
            Ok::<Vec<Layer>, String>(vec![
                text_layer("dockerfile", "from-file"),
                text_layer("dockerfile", "~/from-env"),
            ])
        },
        extract_dockerfile,
    )
    .unwrap();
    assert_eq!(config.dockerfile, "/home/u/from-env");
}

#[test]
fn command_line_errors_come_before_reading_any_source() {
    let mut args = cli();
    args.environment_variables = vec![String::from("1BAD")];
    let result = get_config(
        "/home/u",
        "/w",
        &args,
        |_files: &Vec<String>| -> Result<Vec<Layer>, String> { panic!("no source is read") },
        extract_dockerfile,
    );
    assert!(matches!(
        result,
        Err(LoadError::Config(ConfigError::InvalidEnvironmentVariableKey { ref key })) if key == "1BAD"
    ));
}

#[test]
fn source_errors_are_reported_as_such() {
    let args = cli();
    let result = get_config(
        "/home/u",
        "/w",
        &args,
        |_files: &Vec<String>| Err::<Vec<Layer>, String>(String::from("bad TOML")),
        extract_dockerfile,
    );
    assert!(matches!(result, Err(LoadError::Sources(ref e)) if e == "bad TOML"));
}

#[test]
fn merged_configuration_is_validated() {
    let args = cli();
    let result = get_config(
        "/home/u",
        "/w",
        &args,
        |_files: &Vec<String>| Ok::<Vec<Layer>, String>(vec![text_layer("dockerfile", "")]),
        extract_dockerfile,
    );
    assert!(matches!(result, Err(LoadError::Config(ConfigError::EmptyDockerfile))));
}
