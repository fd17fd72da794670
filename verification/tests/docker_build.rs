use agentcontainer::config::Config;
use agentcontainer::docker_build::{
    assemble_docker_build_args, build, build_docker_build_hookable_args, handle_build,
    image_timestamp_from_inspect_output, should_rebuild, BuildError, BuildOutcome,
    HandleBuildError, LocalTime, Timestamp,
};
use std::cell::RefCell;
use agentcontainer::entries::BuildArgumentEntry;

fn make_config() -> Config {
    Config {
        dockerfile: String::from(".agentcontainer/Dockerfile"),
        build_context: String::from("."),
        build_arguments: Vec::new(),
        pre_build: vec![],
        project_name: String::from("myproject"),
        username: String::from("alice"),
        target: None,
        allow_stale: false,
        force_rebuild: false,
        no_build_cache: false,
        no_rebuild: false,
        volumes: Vec::new(),
        environment_variables: Vec::new(),
        pre_run: vec![],
        post_run: vec![],
    }
}

fn has_flag_pair(args: &[String], flag: &str, value: &str) -> bool {
    args.windows(2).any(|pair| pair[0] == flag && pair[1] == value)
}

/// 2024-06-15 12:00:00 UTC, used as "now" (UTC time zone).
const NOW_SECS: i64 = 1_718_452_800;

fn now() -> LocalTime {
    LocalTime { at: Timestamp { secs: NOW_SECS, nanos: 0 }, offset_secs: 0 }
}

fn today_noon_utc() -> Timestamp {
    Timestamp { secs: NOW_SECS, nanos: 0 }
}

fn yesterday_noon_utc() -> Timestamp {
    Timestamp { secs: NOW_SECS - 86_400, nanos: 0 }
}

fn long_ago_utc() -> Timestamp {
    // 2000-01-01 12:00:00 UTC.
    Timestamp { secs: 946_728_000, nanos: 0 }
}

type Outcome = Result<BuildOutcome<String>, BuildError<String, String>>;

/// Run the build against canned Docker, filesystem and clock answers, returning the result and
/// the arguments `docker build` received, if it ran.
fn drive(
    config: &Config,
    inspected: Result<Option<Timestamp>, String>,
    dockerfile_mtime: Result<Timestamp, String>,
    build_succeeds: bool,
    hookable_args: &[String],
) -> (Outcome, Option<Vec<String>>) {
    let received = RefCell::new(None);
    let outcome = build(
        config,
        hookable_args,
        |_image: &String| inspected.clone(),
        |_path: &String| dockerfile_mtime.clone(),
        now,
        |args: &Vec<String>| {
            *received.borrow_mut() = Some(args.clone());
            if build_succeeds {
                Ok(())
            } else {
                Err(String::from("docker build exited with 1"))
            }
        },
    );
    (outcome, received.into_inner())
}

#[test]
fn empty_when_no_build_arguments() {
    let config = make_config();
    let args = build_docker_build_hookable_args(&config);
    assert!(args.is_empty(), "Expected empty hookable args: {args:?}");
}

#[test]
fn includes_build_arg_with_value() {
    let mut config = make_config();
    config.build_arguments.push((
        String::from("MY_ARG"),
        BuildArgumentEntry::Value(String::from("my_value")),
    ));
    let args = build_docker_build_hookable_args(&config);
    assert!(
        has_flag_pair(&args, "--build-arg", "MY_ARG=my_value"),
        "Expected `--build-arg MY_ARG=my_value` in hookable args: {args:?}"
    );
}

#[test]
fn includes_build_arg_inherit() {
    let mut config = make_config();
    config
        .build_arguments
        .push((String::from("INHERITED"), BuildArgumentEntry::Inherit));
    let args = build_docker_build_hookable_args(&config);
    assert!(
        has_flag_pair(&args, "--build-arg", "INHERITED"),
        "Expected `--build-arg INHERITED` in hookable args: {args:?}"
    );
}

#[test]
fn starts_with_build_subcommand() {
    let config = make_config();
    let image_name = config.get_image_name();
    let args = assemble_docker_build_args(&config, &image_name, None, &[]);
    assert_eq!(args[0], "build", "First arg should be `build`: {args:?}");
}

#[test]
fn includes_file_flag() {
    let config = make_config();
    let image_name = config.get_image_name();
    let args = assemble_docker_build_args(&config, &image_name, None, &[]);
    assert!(
        has_flag_pair(&args, "--file", &config.dockerfile),
        "Expected `--file` (long form) in args: {args:?}"
    );
}

#[test]
fn includes_tag_flag() {
    let config = make_config();
    let image_name = config.get_image_name();
    let args = assemble_docker_build_args(&config, &image_name, None, &[]);
    assert!(
        has_flag_pair(&args, "--tag", &image_name),
        "Expected `--tag` (long form) in args: {args:?}"
    );
}

#[test]
fn includes_target_when_set() {
    let config = Config {
        target: Some(String::from("builder")),
        ..make_config()
    };
    let image_name = config.get_image_name();
    let args = assemble_docker_build_args(&config, &image_name, None, &[]);
    assert!(
        has_flag_pair(&args, "--target", "builder"),
        "Expected `--target builder` in args: {args:?}"
    );
}

#[test]
fn includes_no_cache_when_set() {
    let config = Config {
        no_build_cache: true,
        ..make_config()
    };
    let image_name = config.get_image_name();
    let args = assemble_docker_build_args(&config, &image_name, None, &[]);
    assert!(
        args.contains(&String::from("--no-cache")),
        "Expected `--no-cache` in assembled args: {args:?}"
    );
}

#[test]
fn omits_no_cache_when_not_set() {
    let config = make_config();
    let image_name = config.get_image_name();
    let args = assemble_docker_build_args(&config, &image_name, None, &[]);
    assert!(
        !args.contains(&String::from("--no-cache")),
        "`--no-cache` should not be present when not set: {args:?}"
    );
}

#[test]
fn build_context_is_last() {
    let config = make_config();
    let image_name = config.get_image_name();
    let args = assemble_docker_build_args(&config, &image_name, None, &[]);
    assert_eq!(
        args.last().expect("Args should not be empty"),
        &config.build_context,
        "Build context should be the last argument: {args:?}"
    );
}

#[test]
fn hookable_args_appear_before_build_context() {
    let config = make_config();
    let image_name = config.get_image_name();
    let hookable = vec![String::from("--label"), String::from("foo=bar")];
    let args = assemble_docker_build_args(&config, &image_name, None, &hookable);

    let context_position = args.len() - 1;
    assert_eq!(
        args[context_position - 2],
        "--label",
        "Hookable args should appear before build context: {args:?}"
    );
    assert_eq!(
        args[context_position - 1],
        "foo=bar",
        "Hookable args should appear before build context: {args:?}"
    );
}

#[test]
fn assembled_args_have_the_documented_order() {
    let config = Config {
        target: Some(String::from("dev")),
        no_build_cache: true,
        ..make_config()
    };
    let args = assemble_docker_build_args(
        &config,
        "img:latest",
        Some("2024-06-15"),
        &[String::from("--pull")],
    );
    assert_eq!(
        args,
        vec![
            "build",
            "--file",
            ".agentcontainer/Dockerfile",
            "--target",
            "dev",
            "--no-cache",
            "--tag",
            "img:latest",
            "--build-arg",
            "USERNAME=alice",
            "--build-arg",
            "BUILD_DATE=2024-06-15",
            "--pull",
            "."
        ]
    );
}

#[test]
fn username_build_arg_is_the_raw_username() {
    let config = Config {
        username: String::from("Alice Smith"),
        ..make_config()
    };
    let args = assemble_docker_build_args(&config, "img:latest", None, &[]);
    assert!(has_flag_pair(&args, "--build-arg", "USERNAME=Alice Smith"), "{args:?}");
    assert!(!args.iter().any(|a| a.starts_with("BUILD_DATE=")), "{args:?}");
}

#[test]
fn every_build_gets_username_and_todays_date() {
    let config = Config {
        force_rebuild: true,
        ..make_config()
    };
    let (outcome, received) =
        drive(&config, Ok(Some(today_noon_utc())), Ok(long_ago_utc()), true, &[]);
    assert!(matches!(outcome, Ok(BuildOutcome::Built)), "{outcome:?}");
    let args = received.expect("docker build ran");
    assert!(has_flag_pair(&args, "--build-arg", "USERNAME=alice"), "{args:?}");
    assert!(has_flag_pair(&args, "--build-arg", "BUILD_DATE=2024-06-15"), "{args:?}");
    let (_, first_build) = drive(&make_config(), Ok(None), Ok(long_ago_utc()), true, &[]);
    let first_args = first_build.expect("docker build ran");
    assert!(has_flag_pair(&first_args, "--build-arg", "BUILD_DATE=2024-06-15"), "{first_args:?}");
}

#[test]
fn build_date_is_the_local_date() {
    // 23:30 UTC on 2024-06-15 is already 2024-06-16 two hours east of UTC.
    let late_evening_east = || LocalTime {
        at: Timestamp { secs: NOW_SECS + 11 * 3600 + 1800, nanos: 0 },
        offset_secs: 7200,
    };
    let received = RefCell::new(None);
    let outcome: Outcome = build(
        &make_config(),
        &[],
        |_image: &String| Ok(None),
        |_path: &String| Ok(long_ago_utc()),
        late_evening_east,
        |args: &Vec<String>| {
            *received.borrow_mut() = Some(args.clone());
            Ok(())
        },
    );
    assert!(matches!(outcome, Ok(BuildOutcome::Built)), "{outcome:?}");
    let args = received.into_inner().expect("docker build ran");
    assert!(has_flag_pair(&args, "--build-arg", "BUILD_DATE=2024-06-16"), "{args:?}");
}

#[test]
fn no_rebuild_with_existing_image_returns_skipped_no_rebuild() {
    let config = Config {
        no_rebuild: true,
        ..make_config()
    };
    let (outcome, received) =
        drive(&config, Ok(Some(yesterday_noon_utc())), Ok(long_ago_utc()), true, &[]);
    assert!(matches!(outcome, Ok(BuildOutcome::SkippedNoRebuild)), "{outcome:?}");
    assert!(received.is_none());
}

#[test]
fn no_rebuild_with_no_image_returns_error() {
    let config = Config {
        no_rebuild: true,
        ..make_config()
    };
    let (outcome, received) = drive(&config, Ok(None), Ok(long_ago_utc()), true, &[]);
    let expected = config.get_image_name();
    assert!(
        matches!(outcome, Err(BuildError::NoRebuildButNoImage { ref image_name }) if *image_name == expected),
        "{outcome:?}"
    );
    assert!(received.is_none());
}

#[test]
fn fetch_timestamp_failure_returns_staleness_check_error() {
    let config = make_config();
    let (outcome, received) = drive(
        &config,
        Err(String::from("docker inspect failed")),
        Ok(long_ago_utc()),
        true,
        &[],
    );
    assert!(matches!(outcome, Err(BuildError::StalenessCheck(_))), "{outcome:?}");
    assert!(received.is_none());
}

#[test]
fn force_rebuild_triggers_build_and_returns_built() {
    let config = Config {
        force_rebuild: true,
        ..make_config()
    };
    let (outcome, received) =
        drive(&config, Ok(Some(today_noon_utc())), Ok(long_ago_utc()), true, &[]);
    assert!(matches!(outcome, Ok(BuildOutcome::Built)), "{outcome:?}");
    assert!(received.is_some());
}

#[test]
fn up_to_date_image_returns_up_to_date() {
    let config = make_config();
    let (outcome, received) =
        drive(&config, Ok(Some(today_noon_utc())), Ok(long_ago_utc()), true, &[]);
    assert!(matches!(outcome, Ok(BuildOutcome::UpToDate)), "{outcome:?}");
    assert!(received.is_none());
}

#[test]
fn staleness_check_failure_returns_staleness_check_error() {
    let config = make_config();
    let (outcome, _) = drive(
        &config,
        Ok(Some(yesterday_noon_utc())),
        Err(String::from("Failed to read metadata")),
        true,
        &[],
    );
    assert!(matches!(outcome, Err(BuildError::StalenessCheck(_))), "{outcome:?}");
}

#[test]
fn build_failure_with_no_existing_image_returns_no_fallback_error() {
    let config = make_config();
    let (outcome, _) = drive(&config, Ok(None), Ok(long_ago_utc()), false, &[]);
    let expected = config.get_image_name();
    assert!(
        matches!(outcome, Err(BuildError::BuildFailedNoFallback { ref image_name, .. }) if *image_name == expected),
        "{outcome:?}"
    );
}

#[test]
fn build_failure_with_stale_image_and_allow_stale_returns_using_stale() {
    let config = Config {
        allow_stale: true,
        ..make_config()
    };
    let (outcome, _) = drive(&config, Ok(Some(yesterday_noon_utc())), Ok(long_ago_utc()), false, &[]);
    assert!(
        matches!(outcome, Ok(BuildOutcome::UsingStaleAfterFailure { ref build_error }) if build_error.contains("exited")),
        "{outcome:?}"
    );
}

#[test]
fn build_failure_with_stale_image_and_no_allow_stale_returns_stale_exists_error() {
    let config = make_config();
    let (outcome, _) = drive(&config, Ok(Some(yesterday_noon_utc())), Ok(long_ago_utc()), false, &[]);
    assert!(
        matches!(outcome, Err(BuildError::BuildFailedStaleExists { .. })),
        "{outcome:?}"
    );
}

#[test]
fn hookable_args_are_forwarded_to_docker_build() {
    let config = make_config();
    let hookable_args = vec![String::from("--label"), String::from("foo=bar")];
    let (outcome, received) = drive(&config, Ok(None), Ok(long_ago_utc()), true, &hookable_args);
    assert!(matches!(outcome, Ok(BuildOutcome::Built)), "{outcome:?}");
    let received_args = received.expect("docker build ran");
    assert!(
        has_flag_pair(&received_args, "--label", "foo=bar"),
        "Expected hookable args in assembled build command: {received_args:?}"
    );
}

#[test]
fn no_existing_image_triggers_rebuild() {
    let config = make_config();
    let (outcome, _) = drive(&config, Ok(None), Ok(long_ago_utc()), true, &[]);
    assert!(matches!(outcome, Ok(BuildOutcome::Built)), "{outcome:?}");
}

#[test]
fn dockerfile_newer_than_image_triggers_rebuild() {
    let image_last_tagged = long_ago_utc();
    let dockerfile_mtime = Timestamp { secs: image_last_tagged.secs + 1, nanos: 0 };
    let config = make_config();
    let (outcome, _) = drive(&config, Ok(Some(image_last_tagged)), Ok(dockerfile_mtime), true, &[]);
    assert!(matches!(outcome, Ok(BuildOutcome::Built)), "{outcome:?}");
}

#[test]
fn image_older_than_today_triggers_rebuild() {
    let config = make_config();
    let (outcome, _) = drive(&config, Ok(Some(yesterday_noon_utc())), Ok(long_ago_utc()), true, &[]);
    assert!(matches!(outcome, Ok(BuildOutcome::Built)), "{outcome:?}");
}

#[test]
fn image_tagged_today_with_old_dockerfile_is_up_to_date() {
    let config = make_config();
    let (outcome, _) = drive(&config, Ok(Some(today_noon_utc())), Ok(long_ago_utc()), true, &[]);
    assert!(matches!(outcome, Ok(BuildOutcome::UpToDate)), "{outcome:?}");
}

#[test]
fn filesystem_error_reading_dockerfile_mtime_propagates_as_staleness_check_error() {
    let config = make_config();
    let (outcome, received) = drive(
        &config,
        Ok(Some(yesterday_noon_utc())),
        Err(String::from("Failed to read metadata")),
        true,
        &[],
    );
    assert!(
        matches!(outcome, Err(BuildError::StalenessCheck(ref e)) if e == "Failed to read metadata"),
        "{outcome:?}"
    );
    assert!(received.is_none());
}

#[test]
fn handle_build_runs_pre_build_hooks_before_building() {
    let mut config = make_config();
    config.build_arguments.push((String::from("A"), BuildArgumentEntry::Value(String::from("1"))));
    config.pre_build = vec![String::from("/hooks/label")];
    let received = RefCell::new(None);
    let outcome = handle_build(
        &config,
        |_path: &String, label: &str, args: &Vec<String>| {
            assert_eq!(label, "pre-build");
            let mut next = args.clone();
            next.push(String::from("--label"));
            next.push(String::from("x=y"));
            Ok::<Vec<String>, String>(next)
        },
        |_image: &String| Ok::<Option<Timestamp>, String>(None),
        |_path: &String| Ok::<Timestamp, String>(long_ago_utc()),
        now,
        |args: &Vec<String>| {
            *received.borrow_mut() = Some(args.clone());
            Ok::<(), String>(())
        },
    );
    assert!(matches!(outcome, Ok(BuildOutcome::Built)));
    let args = received.into_inner().expect("docker build ran");
    assert!(has_flag_pair(&args, "--build-arg", "A=1"));
    assert!(has_flag_pair(&args, "--label", "x=y"));
    assert_eq!(args.last().map(String::as_str), Some("."));
}

#[test]
fn handle_build_stops_at_a_failing_hook() {
    let mut config = make_config();
    config.pre_build = vec![String::from("/hooks/broken")];
    let outcome = handle_build(
        &config,
        |_path: &String, _label: &str, _args: &Vec<String>| {
            Err::<Vec<String>, String>(String::from("hook failed"))
        },
        |_image: &String| -> Result<Option<Timestamp>, String> { panic!("no inspection after a failed hook") },
        |_path: &String| Ok::<Timestamp, String>(long_ago_utc()),
        now,
        |_args: &Vec<String>| Ok::<(), String>(()),
    );
    assert!(matches!(outcome, Err(HandleBuildError::Hook(ref e)) if e == "hook failed"));
}

#[test]
fn local_midnight_decides_what_today_means() {
    // The image was tagged at 23:30 UTC the day before "now"; two hours east of UTC that is
    // already today (01:30 local), at UTC it is yesterday.
    let image = Timestamp { secs: NOW_SECS - 12 * 3600 - 1800, nanos: 0 };
    let old = long_ago_utc();
    let utc_now = now();
    let east_now = LocalTime { at: utc_now.at, offset_secs: 7200 };
    assert!(should_rebuild(image, old, utc_now));
    assert!(!should_rebuild(image, old, east_now));
}

#[test]
fn dockerfile_mtime_compares_nanoseconds() {
    let image = Timestamp { secs: NOW_SECS, nanos: 5 };
    let same_second_later = Timestamp { secs: NOW_SECS, nanos: 6 };
    let same_second_earlier = Timestamp { secs: NOW_SECS, nanos: 4 };
    assert!(should_rebuild(image, same_second_later, now()));
    assert!(!should_rebuild(image, same_second_earlier, now()));
}

#[test]
fn pre_epoch_image_is_older_than_today() {
    let image = Timestamp { secs: -1, nanos: 0 };
    assert!(should_rebuild(image, Timestamp { secs: -10, nanos: 0 }, now()));
}

#[test]
fn inspect_output_is_parsed_as_rfc3339() {
    let parsed = image_timestamp_from_inspect_output("2024-06-15T12:00:00.5Z\n");
    let t = parsed.expect("valid timestamp");
    assert_eq!(t.secs, NOW_SECS);
    assert_eq!(t.nanos, 500_000_000);
    let offset = image_timestamp_from_inspect_output("  2024-06-15T14:00:00+02:00  ")
        .expect("valid timestamp");
    assert_eq!(offset.secs, NOW_SECS);
}

#[test]
fn inspect_output_that_is_not_a_timestamp_is_rejected() {
    assert!(image_timestamp_from_inspect_output("").is_none());
    assert!(image_timestamp_from_inspect_output("not a date").is_none());
}

#[test]
fn inspect_output_is_trimmed_of_unicode_white_space() {
    let parsed = image_timestamp_from_inspect_output("\u{3000}2024-06-15T12:00:00Z\u{a0}\r\n")
        .expect("valid timestamp");
    assert_eq!(parsed.secs, NOW_SECS);
}
