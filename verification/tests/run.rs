use agentcontainer::config::Config;
use agentcontainer::entries::{EnvironmentVariableEntry, VolumeEntry};
use agentcontainer::resolve::finalize_config;
use agentcontainer::run::{build_docker_run_args, build_docker_run_hookable_args, run};

fn make_config() -> Config {
    Config {
        dockerfile: String::from(".agentcontainer/Dockerfile"),
        build_context: String::from("."),
        build_arguments: Vec::new(),
        pre_build: vec![],
        project_name: String::from("myproject"),
        username: String::from("alice"),
        target: None,
        allow_stale: false,
        force_rebuild: false,
        no_build_cache: false,
        no_rebuild: false,
        volumes: Vec::new(),
        environment_variables: Vec::new(),
        pre_run: vec![],
        post_run: vec![],
    }
}

fn has_flag_pair(args: &[String], flag: &str, value: &str) -> bool {
    args.windows(2).any(|pair| pair[0] == flag && pair[1] == value)
}

fn default_args(config: &Config, stdin_is_terminal: bool, hookable: &[String]) -> Vec<String> {
    build_docker_run_args(
        config,
        1000,
        1000,
        "/home/user/project",
        None,
        42,
        &[],
        stdin_is_terminal,
        hookable,
    )
}

#[test]
fn includes_fixed_flags() {
    let config = make_config();
    let args = default_args(&config, false, &[]);
    assert_eq!(&args[..3], &["run", "--init", "--rm"]);
}

#[test]
fn includes_tty_flags_when_stdin_is_terminal() {
    let config = make_config();
    let args = default_args(&config, true, &[]);
    assert!(args.contains(&String::from("-t")));
    assert!(args.contains(&String::from("-i")));
}

#[test]
fn omits_tty_flags_when_stdin_is_not_terminal() {
    let config = make_config();
    let args = default_args(&config, false, &[]);
    assert!(!args.contains(&String::from("-t")));
    assert!(!args.contains(&String::from("-i")));
}

#[test]
fn includes_user_mapping() {
    let config = make_config();
    let args = build_docker_run_args(
        &config,
        1000,
        1001,
        "/home/user/project",
        None,
        42,
        &[],
        true,
        &[],
    );
    assert!(has_flag_pair(&args, "--user", "1000:1001"));
    assert!(has_flag_pair(&args, "--group-add", "0"));
}

#[test]
fn includes_container_name() {
    let config = make_config();
    let args = default_args(&config, true, &[]);
    assert!(has_flag_pair(&args, "--name", "agentcontainer_myproject_42"));
}

#[test]
fn includes_working_directory() {
    let config = make_config();
    let args = default_args(&config, true, &[]);
    assert!(has_flag_pair(&args, "-w", "/home/user/project"));
}

#[test]
fn includes_current_dir_volume() {
    let config = make_config();
    let args = default_args(&config, true, &[]);
    assert!(has_flag_pair(
        &args,
        "-v",
        "/home/user/project:/home/user/project"
    ));
}

#[test]
fn includes_worktree_volume_when_present() {
    let config = make_config();
    let args = build_docker_run_args(
        &config,
        1000,
        1000,
        "/home/user/project",
        Some("/home/user/main-repo"),
        42,
        &[],
        true,
        &[],
    );
    assert!(has_flag_pair(
        &args,
        "-v",
        "/home/user/main-repo:/home/user/main-repo"
    ));
}

#[test]
fn no_worktree_volume_when_absent() {
    let config = make_config();
    let args = default_args(&config, true, &[]);
    let volume_count = args.iter().filter(|arg| *arg == "-v").count();
    assert_eq!(volume_count, 1);
}

#[test]
fn includes_config_volumes() {
    let mut config = make_config();
    config.volumes.push((
        String::from("/container/path"),
        VolumeEntry::Active(String::from("/host/path")),
    ));
    let hookable = build_docker_run_hookable_args(&config);
    let args = default_args(&config, true, &hookable);
    assert!(has_flag_pair(&args, "--volume", "/host/path:/container/path"));
}

#[test]
fn includes_env_var_with_value() {
    let mut config = make_config();
    config.environment_variables.push((
        String::from("MY_VAR"),
        EnvironmentVariableEntry::Value(String::from("my_value")),
    ));
    let hookable = build_docker_run_hookable_args(&config);
    let args = default_args(&config, true, &hookable);
    assert!(has_flag_pair(&args, "--env", "MY_VAR=my_value"));
}

#[test]
fn includes_env_var_inherit() {
    let mut config = make_config();
    config.environment_variables.push((
        String::from("INHERITED_VAR"),
        EnvironmentVariableEntry::Inherit,
    ));
    let hookable = build_docker_run_hookable_args(&config);
    let args = default_args(&config, true, &hookable);
    assert!(has_flag_pair(&args, "--env", "INHERITED_VAR"));
}

#[test]
fn image_name_is_last_when_no_container_args() {
    let config = make_config();
    let args = default_args(&config, true, &[]);
    let expected_image = config.get_image_name();
    assert_eq!(args.last().expect("Args should not be empty"), &expected_image);
}

#[test]
fn pre_run_extra_args_appear_before_image_name() {
    let config = make_config();
    let pre_run_extra_args = vec![
        String::from("--volume"),
        String::from("/host/path:/container/path"),
    ];
    let args = default_args(&config, true, &pre_run_extra_args);
    let expected_image = config.get_image_name();
    let image_position = args
        .iter()
        .position(|arg| arg == &expected_image)
        .expect("Image name not found in args");
    assert_eq!(args[image_position - 2], "--volume");
    assert_eq!(args[image_position - 1], "/host/path:/container/path");
}

#[test]
fn pre_run_extra_args_and_container_args_coexist() {
    let config = make_config();
    let container_args = vec![String::from("bash")];
    let pre_run_extra_args = vec![String::from("--network"), String::from("host")];
    let args = build_docker_run_args(
        &config,
        1000,
        1000,
        "/home/user/project",
        None,
        42,
        &container_args,
        true,
        &pre_run_extra_args,
    );
    let expected_image = config.get_image_name();
    let image_position = args
        .iter()
        .position(|arg| arg == &expected_image)
        .expect("Image name not found in args");
    assert_eq!(args[image_position - 2], "--network");
    assert_eq!(args[image_position - 1], "host");
    assert_eq!(&args[image_position + 1..], &["bash"]);
}

#[test]
fn container_args_appear_after_image_name() {
    let config = make_config();
    let container_args = vec![
        String::from("--print"),
        String::from("--output-format"),
        String::from("json"),
    ];
    let args = build_docker_run_args(
        &config,
        1000,
        1000,
        "/home/user/project",
        None,
        42,
        &container_args,
        true,
        &[],
    );
    let expected_image = config.get_image_name();
    let image_position = args
        .iter()
        .position(|arg| arg == &expected_image)
        .expect("Image name not found in args");
    assert_eq!(
        &args[image_position + 1..],
        &["--print", "--output-format", "json"]
    );
}

#[test]
fn full_run_argument_list() {
    let mut config = make_config();
    config.volumes.push((
        String::from("/data"),
        VolumeEntry::Active(String::from("/srv/data")),
    ));
    config.environment_variables.push((
        String::from("A"),
        EnvironmentVariableEntry::Value(String::from("1")),
    ));
    config.environment_variables.push((
        String::from("B"),
        EnvironmentVariableEntry::Inherit,
    ));
    let hookable = build_docker_run_hookable_args(&config);
    assert_eq!(hookable, vec!["--volume", "/srv/data:/data", "--env", "A=1", "--env", "B"]);
    let args = build_docker_run_args(
        &config,
        501,
        20,
        "/w",
        Some("/main"),
        7,
        &[String::from("agent-cli")],
        true,
        &hookable,
    );
    assert_eq!(
        args,
        vec![
            "run",
            "--init",
            "--rm",
            "-t",
            "-i",
            "--user",
            "501:20",
            "--group-add",
            "0",
            "--name",
            "agentcontainer_myproject_7",
            "-w",
            "/w",
            "-v",
            "/w:/w",
            "-v",
            "/main:/main",
            "--volume",
            "/srv/data:/data",
            "--env",
            "A=1",
            "--env",
            "B",
            "agentcontainer_alice_myproject:latest",
            "agent-cli",
        ]
    );
}

#[test]
fn post_run_hooks_disable_tty_allocation() {
    let mut config = make_config();
    config.post_run = vec![String::from("/hooks/post")];
    let launched = run(
        &config,
        |_dir: &str| Ok::<Option<String>, String>(None),
        |args: &Vec<String>| args.clone(),
        1000,
        1000,
        "/home/user/project",
        42,
        &[],
        true,
        &[],
    );
    let args = launched.expect("no worktree detection error");
    assert!(!args.contains(&String::from("-t")));
    assert!(!args.contains(&String::from("-i")));
}

#[test]
fn run_requests_a_tty_when_stdin_is_a_terminal_and_no_post_run_hook() {
    let config = make_config();
    let launched = run(
        &config,
        |_dir: &str| Ok::<Option<String>, String>(None),
        |args: &Vec<String>| args.clone(),
        1000,
        1000,
        "/home/user/project",
        42,
        &[],
        true,
        &[],
    );
    let args = launched.expect("no worktree detection error");
    assert!(has_flag_pair(&args, "-t", "-i"), "{args:?}");
}

#[test]
fn tty_flags_follow_stdin_alone() {
    let mut config = make_config();
    config.post_run = vec![String::from("/hooks/post")];
    let args = default_args(&config, true, &[]);
    assert!(has_flag_pair(&args, "-t", "-i"), "{args:?}");
}

#[test]
fn includes_same_path_volume() {
    let mut config = make_config();
    config
        .volumes
        .push((String::from("/shared/data"), VolumeEntry::SamePath));
    let config = finalize_config(config, "/home/user", "/home/user/project").unwrap();
    let hookable = build_docker_run_hookable_args(&config);
    let args = default_args(&config, true, &hookable);
    assert!(has_flag_pair(&args, "--volume", "/shared/data:/shared/data"));
}

#[test]
fn run_mounts_the_detected_worktree_and_launches_docker_run() {
    let config = make_config();
    let asked = std::cell::RefCell::new(None);
    let launched = run(
        &config,
        |dir: &str| {
            *asked.borrow_mut() = Some(String::from(dir));
            Ok::<Option<String>, String>(Some(String::from("/home/user/main-repo")))
        },
        |args: &Vec<String>| args.clone(),
        1000,
        1000,
        "/home/user/project",
        42,
        &[],
        false,
        &[],
    );
    assert_eq!(asked.into_inner().as_deref(), Some("/home/user/project"));
    let args = launched.expect("the worktree was detected");
    assert!(has_flag_pair(&args, "-v", "/home/user/main-repo:/home/user/main-repo"));
    assert_eq!(args.last().map(String::as_str), Some("agentcontainer_alice_myproject:latest"));
}

#[test]
fn run_stops_when_worktree_detection_fails() {
    let config = make_config();
    let launched = run(
        &config,
        |_dir: &str| Err::<Option<String>, String>(String::from("git failed")),
        |_args: &Vec<String>| -> Vec<String> { panic!("docker run must not start") },
        1000,
        1000,
        "/home/user/project",
        42,
        &[],
        false,
        &[],
    );
    assert_eq!(launched, Err(String::from("git failed")));
}
