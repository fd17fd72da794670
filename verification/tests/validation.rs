use agentcontainer::cli::{CliArgs, Command};
use agentcontainer::config::Config;
use agentcontainer::error::ConfigError;
use agentcontainer::layers::{Layer, Leaf, Node};
use agentcontainer::load::{get_config, LoadError};

fn cli(command: Command) -> CliArgs {
    CliArgs {
        dockerfile: None,
        build_context: None,
        build_arguments: vec![],
        pre_build: vec![],
        project_name: None,
        username: None,
        target: None,
        allow_stale: false,
        force_rebuild: false,
        no_build_cache: false,
        no_rebuild: false,
        volumes: vec![],
        environment_variables: vec![],
        pre_run: vec![],
        post_run: vec![],
        command,
    }
}

/// The last string given for `key` in the merged layer.
fn text(merged: &Layer, key: &str) -> Option<String> {
    merged.entries.iter().rev().find_map(|(k, v)| match v {
        Node::Scalar(Leaf::Text(s)) if k == key => Some(s.clone()),
        _ => None,
    })
}

/// Whether `key` was set to `true` in the merged layer.
fn flag(merged: &Layer, key: &str) -> bool {
    merged
        .entries
        .iter()
        .rev()
        .find_map(|(k, v)| match v {
            Node::Scalar(Leaf::Flag(b)) if k == key => Some(*b),
            _ => None,
        })
        .unwrap_or(false)
}

/// The strings of the list given for `key` in the merged layer.
fn list(merged: &Layer, key: &str) -> Vec<String> {
    merged
        .entries
        .iter()
        .rev()
        .find_map(|(k, v)| match v {
            Node::List(items) if k == key => Some(
                items
                    .iter()
                    .filter_map(|item| match item {
                        Leaf::Text(s) => Some(s.clone()),
                        _ => None,
                    })
                    .collect(),
            ),
            _ => None,
        })
        .unwrap_or_default()
}

/// A configuration read from the merged layer, with the defaults for what is not there.
fn extract(merged: Layer) -> Result<Config, String> {
    Ok(Config {
        dockerfile: text(&merged, "dockerfile")
            .unwrap_or_else(|| String::from(".agentcontainer/Dockerfile")),
        build_context: text(&merged, "build_context").unwrap_or_else(|| String::from(".")),
        build_arguments: Vec::new(),
        pre_build: list(&merged, "pre_build"),
        project_name: text(&merged, "project_name").unwrap_or_else(|| String::from("proj")),
        username: text(&merged, "username").unwrap_or_else(|| String::from("alice")),
        target: text(&merged, "target"),
        allow_stale: flag(&merged, "allow_stale"),
        force_rebuild: flag(&merged, "force_rebuild"),
        no_build_cache: flag(&merged, "no_build_cache"),
        no_rebuild: flag(&merged, "no_rebuild"),
        volumes: Vec::new(),
        environment_variables: Vec::new(),
        pre_run: list(&merged, "pre_run"),
        post_run: list(&merged, "post_run"),
    })
}

/// `get_config` with no configuration file or environment variable, only the command line.
fn error_of(args: &CliArgs) -> ConfigError {
    error_with_sources(args, vec![])
}

/// `get_config` with the given lower-priority layers under the command line.
fn error_with_sources(args: &CliArgs, sources: Vec<Layer>) -> ConfigError {
    let result = get_config(
        "/home/u",
        "/w",
        args,
        |_files: &Vec<String>| Ok::<Vec<Layer>, String>(sources.iter().map(copy_layer).collect()),
        extract,
    );
    match result {
        Err(LoadError::Config(e)) => e,
        Err(other) => panic!("Expected a configuration error, got: {other:?}"),
        Ok(_) => panic!("Expected `get_config` to fail"),
    }
}

fn copy_layer(layer: &Layer) -> Layer {
    Layer {
        entries: layer
            .entries
            .iter()
            .map(|(k, v)| {
                let node = match v {
                    Node::Scalar(Leaf::Text(s)) => Node::Scalar(Leaf::Text(s.clone())),
                    Node::Scalar(Leaf::Flag(b)) => Node::Scalar(Leaf::Flag(*b)),
                    _ => panic!("only strings and flags are used here"),
                };
                (k.clone(), node)
            })
            .collect(),
    }
}

#[test]
fn empty_dockerfile_via_cli_is_an_error() {
    let mut args = cli(Command::Config);
    args.dockerfile = Some(String::new());
    let error = error_of(&args);
    assert!(matches!(error, ConfigError::EmptyDockerfile), "{error:?}");
}

#[test]
fn empty_build_context_via_cli_is_an_error() {
    let mut args = cli(Command::Config);
    args.build_context = Some(String::new());
    let error = error_of(&args);
    assert!(matches!(error, ConfigError::EmptyBuildContext), "{error:?}");
}

#[test]
fn empty_pre_build_via_cli_is_an_error() {
    let mut args = cli(Command::Config);
    args.pre_build = vec![String::new()];
    let error = error_of(&args);
    assert!(matches!(error, ConfigError::EmptyPreBuild), "{error:?}");
}

#[test]
fn project_name_not_slugifiable_is_an_error() {
    let mut args = cli(Command::Config);
    args.project_name = Some(String::from("@@@"));
    args.username = Some(String::from("alice"));
    let error = error_of(&args);
    assert!(matches!(error, ConfigError::InvalidProjectName { .. }), "{error:?}");
}

#[test]
fn username_not_slugifiable_is_an_error() {
    let mut args = cli(Command::Config);
    args.project_name = Some(String::from("myproject"));
    args.username = Some(String::from("@@@"));
    let error = error_of(&args);
    assert!(matches!(error, ConfigError::InvalidUsername { .. }), "{error:?}");
}

#[test]
fn target_not_slugifiable_is_an_error() {
    let mut args = cli(Command::Config);
    args.project_name = Some(String::from("myproject"));
    args.username = Some(String::from("alice"));
    args.target = Some(String::from("@@@"));
    let error = error_of(&args);
    assert!(matches!(error, ConfigError::InvalidTarget { .. }), "{error:?}");
}

#[test]
fn empty_target_via_cli_is_an_error() {
    let mut args = cli(Command::Config);
    args.target = Some(String::new());
    let file = Layer {
        entries: vec![(String::from("target"), Node::Scalar(Leaf::Text(String::from("builder"))))],
    };
    let error = error_with_sources(&args, vec![file]);
    assert!(matches!(error, ConfigError::EmptyTarget), "{error:?}");
}

#[test]
fn force_rebuild_and_no_rebuild_together_is_an_error() {
    let mut args = cli(Command::Build);
    args.force_rebuild = true;
    args.no_rebuild = true;
    let error = error_of(&args);
    assert!(matches!(error, ConfigError::ConflictingRebuildFlags), "{error:?}");
}

#[test]
fn empty_pre_run_via_cli_is_an_error() {
    let mut args = cli(Command::Config);
    args.pre_run = vec![String::new()];
    let error = error_of(&args);
    assert!(matches!(error, ConfigError::EmptyPreRun), "{error:?}");
}
