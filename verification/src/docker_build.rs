//! The image build: when to build, with which `docker build` arguments, and what a build
//! failure means.
//!
//! The Docker, filesystem and clock work is the caller's, handed in as closures; the build
//! decides when each is done and what follows from its result.

use vstd::prelude::*;
use crate::config::{spec_image_name, strings_model, Config, ConfigModel};
use vstd::arithmetic::div_mod::lemma_fundamental_div_mod_converse;
use crate::entries::{no_removal, EntryModel, MapEntry};
use crate::text::{joined, owned};
use crate::hooks::{execute_pre_build_hooks, pipeline_result};

verus! {

/// The `docker build` arguments for the build arguments of a configuration:
/// `--build-arg KEY=value` for a value, `--build-arg KEY` to inherit from the host.
pub open spec fn build_arg_words(s: Seq<(Seq<char>, EntryModel)>) -> Seq<Seq<char>>
    decreases s.len(),
{
    if s.len() == 0 {
        Seq::empty()
    } else {
        build_arg_words(s.drop_last()) + seq![
            "--build-arg"@,
            match s.last().1 {
                EntryModel::Literal(v) => s.last().0 + seq!['='] + v,
                _ => s.last().0,
            },
        ]
    }
}

/// The build arguments passed to every build: `USERNAME`, the raw configured username, and
/// `BUILD_DATE`, the date of the build (`YYYY-MM-DD`) when it is known.
pub open spec fn automatic_build_arg_words(m: ConfigModel, build_date: Option<Seq<char>>) -> Seq<Seq<char>> {
    seq!["--build-arg"@, "USERNAME="@ + m.username] + match build_date {
        Some(d) => seq!["--build-arg"@, "BUILD_DATE="@ + d],
        None => Seq::<Seq<char>>::empty(),
    }
}

/// The full `docker build` argument list: base arguments (with the automatic build arguments),
/// then the hookable arguments, then the build context, which must come last.
pub open spec fn spec_docker_build_args(
    m: ConfigModel,
    image_name: Seq<char>,
    build_date: Option<Seq<char>>,
    hookable: Seq<Seq<char>>,
) -> Seq<Seq<char>> {
    seq!["build"@, "--file"@, m.dockerfile] + match m.target {
        Some(t) => seq!["--target"@, t],
        None => Seq::<Seq<char>>::empty(),
    } + if m.no_build_cache {
        seq!["--no-cache"@]
    } else {
        Seq::<Seq<char>>::empty()
    } + seq!["--tag"@, image_name] + automatic_build_arg_words(m, build_date) + hookable + seq![
        m.build_context,
    ]
}

/// Compute the hookable arguments for `docker build`: the `--build-arg` entries.
///
/// These are the arguments that pre-build hooks see and may change. The base arguments
/// (`build`, `--file`, `--target`, `--tag`, `--no-cache`, build context) are not among them.
/// Removal sentinels must have been stripped beforehand.
pub fn build_docker_build_hookable_args(config: &Config) -> (res: Vec<String>)
    requires
        no_removal(config.model().build_arguments),
    ensures
        strings_model(res@) == build_arg_words(config.model().build_arguments),
{
    let ghost s = config.model().build_arguments;
    let mut args: Vec<String> = Vec::new();
    let mut i: usize = 0;
    while i < config.build_arguments.len()
        invariant
            i <= config.build_arguments@.len(),
            s == config.model().build_arguments,
            no_removal(s),
            strings_model(args@) == build_arg_words(s.take(i as int)),
        decreases config.build_arguments.len() - i,
    {
        let ghost before = args@;
        let key = &config.build_arguments[i].0;
        assert(s[i as int] == (key@, config.build_arguments@[i as int].1.model()));
        args.push(owned("--build-arg"));
        let word = match &config.build_arguments[i].1 {
            crate::entries::BuildArgumentEntry::Value(v) => joined(key.as_str(), '=', v.as_str()),
            _ => key.clone(),
        };
        args.push(word);
        proof {
            assert(s.take(i + 1).drop_last() =~= s.take(i as int));
            assert(strings_model(args@) =~= strings_model(before) + seq!["--build-arg"@, word@]);
        }
        i = i + 1;
    }
    assert(s.take(config.build_arguments.len() as int) =~= s);
    args
}

/// Push `s` onto `args`.
pub fn push_word(args: &mut Vec<String>, s: String)
    ensures
        strings_model(final(args)@) == strings_model(old(args)@).push(s@),
{
    args.push(s);
    assert(strings_model(args@) =~= strings_model(old(args)@).push(s@));
}

/// Push copies of `words` onto `args`.
pub fn push_words(args: &mut Vec<String>, words: &[String])
    ensures
        strings_model(final(args)@) == strings_model(old(args)@) + strings_model(words@),
{
    let ghost start = strings_model(args@);
    let mut i: usize = 0;
    while i < words.len()
        invariant
            i <= words@.len(),
            strings_model(args@) == start + strings_model(words@).take(i as int),
        decreases words.len() - i,
    {
        push_word(args, words[i].clone());
        assert(strings_model(words@).take(i + 1) =~= strings_model(words@).take(i as int).push(
            words@[i as int]@,
        ));
        i = i + 1;
    }
    assert(strings_model(words@).take(words.len() as int) =~= strings_model(words@));
}

/// The model of an optional string.
pub open spec fn opt_str_model(s: Option<&str>) -> Option<Seq<char>> {
    match s {
        Some(t) => Some(t@),
        None => None,
    }
}

/// Assemble the full `docker build` argument list from the base arguments and the hookable
/// arguments. The base arguments end with `--build-arg USERNAME=<username>` and, when
/// `build_date` is given, `--build-arg BUILD_DATE=<build_date>`. The build context comes last.
pub fn assemble_docker_build_args(
    config: &Config,
    image_name: &str,
    build_date: Option<&str>,
    hookable_args: &[String],
) -> (res: Vec<String>)
    ensures
        strings_model(res@) == spec_docker_build_args(
            config.model(),
            image_name@,
            opt_str_model(build_date),
            strings_model(hookable_args@),
        ),
{
    let mut args: Vec<String> = Vec::new();
    push_word(&mut args, owned("build"));
    push_word(&mut args, owned("--file"));
    push_word(&mut args, config.dockerfile.clone());
    let ghost base = strings_model(args@);
    assert(base =~= seq!["build"@, "--file"@, config.dockerfile@]);
    match &config.target {
        Some(t) => {
            push_word(&mut args, owned("--target"));
            push_word(&mut args, t.clone());
        },
        None => {},
    }
    let ghost with_target = strings_model(args@);
    if config.no_build_cache {
        push_word(&mut args, owned("--no-cache"));
    }
    let ghost with_cache = strings_model(args@);
    push_word(&mut args, owned("--tag"));
    push_word(&mut args, owned(image_name));
    let ghost with_tag = strings_model(args@);
    push_word(&mut args, owned("--build-arg"));
    let user = crate::text::prefixed("USERNAME=", config.username.as_str());
    push_word(&mut args, user);
    let ghost with_user = strings_model(args@);
    match build_date {
        Some(d) => {
            push_word(&mut args, owned("--build-arg"));
            push_word(&mut args, crate::text::prefixed("BUILD_DATE=", d));
        },
        None => {},
    }
    let ghost with_auto = strings_model(args@);
    push_words(&mut args, hookable_args);
    push_word(&mut args, config.build_context.clone());
    proof {
        let m = config.model();
        let tgt = match m.target {
            Some(t) => seq!["--target"@, t],
            None => Seq::<Seq<char>>::empty(),
        };
        let nc = if m.no_build_cache {
            seq!["--no-cache"@]
        } else {
            Seq::<Seq<char>>::empty()
        };
        assert(with_target =~= base + tgt);
        assert(with_cache =~= base + tgt + nc);
        assert(with_tag =~= base + tgt + nc + seq!["--tag"@, image_name@]);
        assert(with_user =~= with_tag + seq!["--build-arg"@, "USERNAME="@ + m.username]);
        assert(with_auto =~= with_tag + automatic_build_arg_words(m, opt_str_model(build_date)));
        assert(strings_model(args@) =~= spec_docker_build_args(
            m,
            image_name@,
            opt_str_model(build_date),
            strings_model(hookable_args@),
        ));
    }
    args
}

/// An instant: seconds since the Unix epoch and nanoseconds within that second.
#[derive(Clone, Copy, Debug)]
pub struct Timestamp {
    pub secs: i64,
    pub nanos: u32,
}

/// The current local time: the instant, and the offset of the local time zone from UTC at that
/// instant, in seconds.
#[derive(Clone, Copy, Debug)]
pub struct LocalTime {
    pub at: Timestamp,
    pub offset_secs: i32,
}

/// `a` is strictly later than `b`.
pub open spec fn is_later(a: Timestamp, b: Timestamp) -> bool {
    a.secs > b.secs || (a.secs == b.secs && a.nanos > b.nanos)
}

/// The calendar day (days since the epoch) of `t` in a time zone `offset` seconds from UTC.
pub open spec fn local_day(t: Timestamp, offset: int) -> int {
    (t.secs + offset) / 86400
}

/// The image needs a rebuild when the Dockerfile was modified after the image was last tagged,
/// or when the image was last tagged before the start of today (local time).
pub open spec fn spec_should_rebuild(image_last_tagged_at: Timestamp, dockerfile_mtime: Timestamp, now: LocalTime) -> bool {
    is_later(dockerfile_mtime, image_last_tagged_at) || local_day(image_last_tagged_at, now.offset_secs as int)
        < local_day(now.at, now.offset_secs as int)
}

/// Days added to every local day so that the computation stays in unsigned arithmetic.
pub open spec fn day_bias() -> int {
    281474976710656
}

/// The local day of `t`, shifted by `day_bias()` days.
fn biased_local_day(t: Timestamp, offset_secs: i32) -> (res: u128)
    ensures
        res as int == local_day(t, offset_secs as int) + day_bias(),
{
    let shifted: i128 = t.secs as i128 + offset_secs as i128 + 86400i128 * 281474976710656i128;
    let res: u128 = (shifted as u128) / 86400u128;
    proof {
        let x = t.secs + offset_secs;
        let q = x / 86400;
        let r = x % 86400;
        lemma_fundamental_div_mod_converse(x, 86400, q, r);
        assert(x == q * 86400 + r) by {
            vstd::arithmetic::div_mod::lemma_fundamental_div_mod(x, 86400);
        }
        assert(0 <= r < 86400);
        assert(shifted == (q + day_bias()) * 86400 + r) by (nonlinear_arith)
            requires
                shifted == x + 86400 * day_bias(),
                x == q * 86400 + r,
        ;
        lemma_fundamental_div_mod_converse(shifted as int, 86400, q + day_bias(), r);
    }
    res
}

/// Determine whether an existing image needs to be rebuilt: the Dockerfile was modified after
/// the image was last tagged, or the image was last tagged before the start of today in the
/// local time zone.
pub fn should_rebuild(image_last_tagged_at: Timestamp, dockerfile_mtime: Timestamp, now: LocalTime) -> (res: bool)
    ensures
        res == spec_should_rebuild(image_last_tagged_at, dockerfile_mtime, now),
{
    if dockerfile_mtime.secs > image_last_tagged_at.secs || (dockerfile_mtime.secs
        == image_last_tagged_at.secs && dockerfile_mtime.nanos > image_last_tagged_at.nanos) {
        return true;
    }
    let image_day = biased_local_day(image_last_tagged_at, now.offset_secs);
    let today = biased_local_day(now.at, now.offset_secs);
    image_day < today
}

/// How a build ended without an error.
#[derive(Debug)]
pub enum BuildOutcome<B> {
    /// `docker build` succeeded.
    Built,
    /// The image is up to date and no rebuild was necessary.
    UpToDate,
    /// `--no-rebuild` was set and the image exists.
    SkippedNoRebuild,
    /// `docker build` failed, `--allow-stale` was set and the existing image is used.
    UsingStaleAfterFailure {
        /// The error of the failed `docker build`.
        build_error: B,
    },
}

/// Why a build failed.
#[derive(Debug)]
pub enum BuildError<E, B> {
    /// `--no-rebuild` was set but no image exists.
    NoRebuildButNoImage { image_name: String },
    /// Inspecting the image or reading the Dockerfile's modification time failed.
    StalenessCheck(E),
    /// `docker build` failed and no image exists to fall back to.
    BuildFailedNoFallback { image_name: String, build_error: B },
    /// `docker build` failed and a stale image exists, but `--allow-stale` was not set.
    BuildFailedStaleExists { image_name: String, build_error: B },
}

/// What the build returns once `docker build` has given `r`.
pub open spec fn after_docker_build<E, B>(
    m: ConfigModel,
    image_name: String,
    image_exists: bool,
    r: Result<(), B>,
) -> Result<BuildOutcome<B>, BuildError<E, B>> {
    match r {
        Ok(_) => Ok(BuildOutcome::Built),
        Err(b) => if m.allow_stale && image_exists {
            Ok(BuildOutcome::UsingStaleAfterFailure { build_error: b })
        } else if image_exists {
            Err(BuildError::BuildFailedStaleExists { image_name, build_error: b })
        } else {
            Err(BuildError::BuildFailedNoFallback { image_name, build_error: b })
        },
    }
}

/// `res` is what the build returns when it runs `docker build` at the local time `n`, with the
/// arguments assembled for the configuration (the build date being the local date of `n`) and
/// the result that `run_docker_build` gave.
pub open spec fn runs_docker_build<E, B, FB: Fn(&Vec<String>) -> Result<(), B>>(
    run_docker_build: FB,
    m: ConfigModel,
    hookable: Seq<Seq<char>>,
    image_name: String,
    image_exists: bool,
    n: LocalTime,
    res: Result<BuildOutcome<B>, BuildError<E, B>>,
) -> bool {
    exists|args: Vec<String>, r: Result<(), B>|
        #![trigger run_docker_build.ensures((&args,), r)]
        strings_model(args@) == spec_docker_build_args(
            m,
            image_name@,
            local_date_text(n.at.secs, n.offset_secs),
            hookable,
        )
            && run_docker_build.ensures((&args,), r) && res == after_docker_build::<E, B>(
            m,
            image_name,
            image_exists,
            r,
        )
}

/// `res` is what the build returns once the Dockerfile's modification time was read with the
/// result `mt` for an image last tagged at `tagged`.
pub open spec fn build_after_dating<E, B, FN: Fn() -> LocalTime, FB: Fn(&Vec<String>) -> Result<(), B>>(
    m: ConfigModel,
    hookable: Seq<Seq<char>>,
    image_name: String,
    tagged: Timestamp,
    mt: Result<Timestamp, E>,
    now: FN,
    run_docker_build: FB,
    res: Result<BuildOutcome<B>, BuildError<E, B>>,
) -> bool {
    match mt {
        Err(e) => res == Err::<BuildOutcome<B>, BuildError<E, B>>(BuildError::StalenessCheck(e)),
        Ok(t) => exists|n: LocalTime|
            #![trigger now.ensures((), n)]
            now.ensures((), n) && build_after_clock(m, hookable, image_name, tagged, t, n, run_docker_build, res),
    }
}

/// `res` is what the build returns once the clock read `n`: `docker build` runs only when
/// `spec_should_rebuild` says so.
pub open spec fn build_after_clock<E, B, FB: Fn(&Vec<String>) -> Result<(), B>>(
    m: ConfigModel,
    hookable: Seq<Seq<char>>,
    image_name: String,
    tagged: Timestamp,
    t: Timestamp,
    n: LocalTime,
    run_docker_build: FB,
    res: Result<BuildOutcome<B>, BuildError<E, B>>,
) -> bool {
    if spec_should_rebuild(tagged, t, n) {
        runs_docker_build(run_docker_build, m, hookable, image_name, true, n, res)
    } else {
        res == Ok::<BuildOutcome<B>, BuildError<E, B>>(BuildOutcome::UpToDate)
    }
}

/// `res` is what the build returns when the clock is read and `docker build` then runs.
pub open spec fn clocked_docker_build<E, B, FN: Fn() -> LocalTime, FB: Fn(&Vec<String>) -> Result<(), B>>(
    now: FN,
    run_docker_build: FB,
    m: ConfigModel,
    hookable: Seq<Seq<char>>,
    image_name: String,
    image_exists: bool,
    res: Result<BuildOutcome<B>, BuildError<E, B>>,
) -> bool {
    exists|n: LocalTime|
        #![trigger now.ensures((), n)]
        now.ensures((), n) && runs_docker_build(
            run_docker_build,
            m,
            hookable,
            image_name,
            image_exists,
            n,
            res,
        )
}

/// `res` is what the build returns once the image named `image_name` was inspected with the
/// result `inspected`:
/// - an inspection error is a staleness-check error;
/// - with `no_rebuild`, the build is skipped when the image exists and fails otherwise;
/// - with `force_rebuild`, or when no image exists, the clock is read and `docker build` runs;
/// - otherwise the Dockerfile's modification time is read (an error there is a
///   staleness-check error) and the clock consulted, and `docker build` runs only when
///   `spec_should_rebuild` says so; if not, the image is up to date.
pub open spec fn build_after_inspection<
    E,
    B,
    FM: Fn(&String) -> Result<Timestamp, E>,
    FN: Fn() -> LocalTime,
    FB: Fn(&Vec<String>) -> Result<(), B>,
>(
    c: Config,
    hookable: Seq<Seq<char>>,
    image_name: String,
    inspected: Result<Option<Timestamp>, E>,
    file_mtime: FM,
    now: FN,
    run_docker_build: FB,
    res: Result<BuildOutcome<B>, BuildError<E, B>>,
) -> bool {
    let m = c.model();
    match inspected {
        Err(e) => res == Err::<BuildOutcome<B>, BuildError<E, B>>(BuildError::StalenessCheck(e)),
        Ok(None) => if m.no_rebuild {
            res == Err::<BuildOutcome<B>, BuildError<E, B>>(
                BuildError::NoRebuildButNoImage { image_name },
            )
        } else {
            clocked_docker_build(now, run_docker_build, m, hookable, image_name, false, res)
        },
        Ok(Some(tagged)) => if m.no_rebuild {
            res == Ok::<BuildOutcome<B>, BuildError<E, B>>(BuildOutcome::SkippedNoRebuild)
        } else if m.force_rebuild {
            clocked_docker_build(now, run_docker_build, m, hookable, image_name, true, res)
        } else {
            exists|mt: Result<Timestamp, E>|
                #![trigger file_mtime.ensures((&c.dockerfile,), mt)]
                file_mtime.ensures((&c.dockerfile,), mt) && build_after_dating(
                    m,
                    hookable,
                    image_name,
                    tagged,
                    mt,
                    now,
                    run_docker_build,
                    res,
                )
        },
    }
}

/// `res` is what a build of the image for `c` returns: the image name is the configuration's,
/// and `fetch_image_timestamp` was asked about it first.
pub open spec fn build_result<
    E,
    B,
    FI: Fn(&String) -> Result<Option<Timestamp>, E>,
    FM: Fn(&String) -> Result<Timestamp, E>,
    FN: Fn() -> LocalTime,
    FB: Fn(&Vec<String>) -> Result<(), B>,
>(
    c: Config,
    hookable: Seq<Seq<char>>,
    fetch_image_timestamp: FI,
    file_mtime: FM,
    now: FN,
    run_docker_build: FB,
    res: Result<BuildOutcome<B>, BuildError<E, B>>,
) -> bool {
    exists|image_name: String, inspected: Result<Option<Timestamp>, E>|
        #![trigger fetch_image_timestamp.ensures((&image_name,), inspected)]
        image_name@ == spec_image_name(c.model()) && fetch_image_timestamp.ensures(
            (&image_name,),
            inspected,
        ) && build_after_inspection(
            c,
            hookable,
            image_name,
            inspected,
            file_mtime,
            now,
            run_docker_build,
            res,
        )
}

/// The outcome of a failed `docker build`.
fn failed_build<E, B>(config: &Config, image_name: String, image_exists: bool, build_error: B) -> (res: Result<
    BuildOutcome<B>,
    BuildError<E, B>,
>)
    ensures
        res == after_docker_build::<E, B>(config.model(), image_name, image_exists, Err(build_error)),
{
    if config.allow_stale && image_exists {
        Ok(BuildOutcome::UsingStaleAfterFailure { build_error })
    } else if image_exists {
        Err(BuildError::BuildFailedStaleExists { image_name, build_error })
    } else {
        Err(BuildError::BuildFailedNoFallback { image_name, build_error })
    }
}

/// What chrono gives as the local date (`YYYY-MM-DD`) of the instant `secs` seconds after the
/// Unix epoch in a time zone `offset_secs` seconds east of UTC, or nothing when chrono cannot
/// represent the offset or the instant.
pub uninterp spec fn local_date_text(secs: i64, offset_secs: i32) -> Option<Seq<char>>;

/// chrono: `FixedOffset::east_opt`, `DateTime::from_timestamp`, `with_timezone` and
/// `format("%Y-%m-%d")`. The contract only names the result: the calendar arithmetic is
/// chrono's and is not restated here.
#[verifier::external_body]
fn local_date(secs: i64, offset_secs: i32) -> (res: Option<String>)
    ensures
        match res {
            Some(d) => local_date_text(secs, offset_secs) == Some(d@),
            None => local_date_text(secs, offset_secs) is None,
        },
{
    let offset = chrono::FixedOffset::east_opt(offset_secs)?;
    let instant = chrono::DateTime::from_timestamp(secs, 0)?;
    Some(instant.with_timezone(&offset).format("%Y-%m-%d").to_string())
}

/// Run `docker build` at the local time `local_now` with the assembled arguments and report its
/// result.
fn run_build<E, B, FB: Fn(&Vec<String>) -> Result<(), B>>(
    config: &Config,
    image_name: String,
    image_exists: bool,
    local_now: LocalTime,
    hookable_args: &[String],
    run_docker_build: FB,
) -> (res: Result<BuildOutcome<B>, BuildError<E, B>>)
    requires
        forall|a: &Vec<String>| #[trigger] run_docker_build.requires((a,)),
    ensures
        runs_docker_build(
            run_docker_build,
            config.model(),
            strings_model(hookable_args@),
            image_name,
            image_exists,
            local_now,
            res,
        ),
{
    let ghost name = image_name;
    let date = local_date(local_now.at.secs, local_now.offset_secs);
    let build_date: Option<&str> = match &date {
        Some(d) => Some(d.as_str()),
        None => None,
    };
    let args = assemble_docker_build_args(config, image_name.as_str(), build_date, hookable_args);
    let r = run_docker_build(&args);
    let ghost rr = r;
    let res = match r {
        Ok(()) => Ok(BuildOutcome::Built),
        Err(build_error) => failed_build(config, image_name, image_exists, build_error),
    };
    assert(run_docker_build.ensures((&args,), rr));
    assert(res == after_docker_build::<E, B>(config.model(), name, image_exists, rr));
    res
}

/// Build the agent container image according to the configuration.
///
/// The image is inspected first (`fetch_image_timestamp`, which gives when the image was last
/// tagged, or `None` when it does not exist). With `no_rebuild` the build is skipped when the
/// image exists and fails otherwise. `docker build` runs (through `run_docker_build`) when
/// `force_rebuild` is set, when no image exists, or when `should_rebuild` says so given the
/// Dockerfile's modification time (`file_mtime`) and the current local time (`now`). Every
/// `docker build` gets the `USERNAME` and `BUILD_DATE` build arguments, the latter being the
/// local date of the time that `now` read.
/// A failed `docker build` falls back to the existing image only with `allow_stale`.
pub fn build<E, B, FI, FM, FN, FB>(
    config: &Config,
    hookable_args: &[String],
    fetch_image_timestamp: FI,
    file_mtime: FM,
    now: FN,
    run_docker_build: FB,
) -> (res: Result<BuildOutcome<B>, BuildError<E, B>>) where
    FI: Fn(&String) -> Result<Option<Timestamp>, E>,
    FM: Fn(&String) -> Result<Timestamp, E>,
    FN: Fn() -> LocalTime,
    FB: Fn(&Vec<String>) -> Result<(), B>,

    requires
        forall|s: &String| #[trigger] fetch_image_timestamp.requires((s,)),
        forall|s: &String| #[trigger] file_mtime.requires((s,)),
        now.requires(()),
        forall|a: &Vec<String>| #[trigger] run_docker_build.requires((a,)),
    ensures
        build_result(
            *config,
            strings_model(hookable_args@),
            fetch_image_timestamp,
            file_mtime,
            now,
            run_docker_build,
            res,
        ),
{
    let image_name = config.get_image_name();
    let ghost name = image_name;
    let inspected = fetch_image_timestamp(&image_name);
    let ghost ins = inspected;
    assert(fetch_image_timestamp.ensures((&name,), ins));
    let tagged = match inspected {
        Err(e) => {
            return Err(BuildError::StalenessCheck(e));
        },
        Ok(t) => t,
    };
    if config.no_rebuild {
        return match tagged {
            Some(_) => Ok(BuildOutcome::SkippedNoRebuild),
            None => Err(BuildError::NoRebuildButNoImage { image_name }),
        };
    }
    let image_exists = tagged.is_some();
    if config.force_rebuild {
        let local_now = now();
        assert(now.ensures((), local_now));
        return run_build(
            config,
            image_name,
            image_exists,
            local_now,
            hookable_args,
            run_docker_build,
        );
    }
    match tagged {
        None => {
            let local_now = now();
            assert(now.ensures((), local_now));
            run_build(config, image_name, false, local_now, hookable_args, run_docker_build)
        },
        Some(tagged_at) => {
            let mt = file_mtime(&config.dockerfile);
            let ghost mtg = mt;
            assert(file_mtime.ensures((&config.dockerfile,), mtg));
            match mt {
                Err(e) => Err(BuildError::StalenessCheck(e)),
                Ok(dockerfile_mtime) => {
                    let local_now = now();
                    assert(now.ensures((), local_now));
                    if should_rebuild(tagged_at, dockerfile_mtime, local_now) {
                        run_build(
                            config,
                            image_name,
                            true,
                            local_now,
                            hookable_args,
                            run_docker_build,
                        )
                    } else {
                        Ok(BuildOutcome::UpToDate)
                    }
                },
            }
        },
    }
}

/// Why the pre-build hooks or the build failed.
#[derive(Debug)]
pub enum HandleBuildError<H, E, B> {
    /// A pre-build hook failed.
    Hook(H),
    /// The build failed.
    Build(BuildError<E, B>),
}

/// `res` is the build's result `r` with its error taken as a build error.
pub open spec fn as_handle_result<H, E, B>(
    r: Result<BuildOutcome<B>, BuildError<E, B>>,
) -> Result<BuildOutcome<B>, HandleBuildError<H, E, B>> {
    match r {
        Ok(o) => Ok(o),
        Err(e) => Err(HandleBuildError::Build(e)),
    }
}

/// Run the pre-build hooks on the `docker build` hookable arguments, then build the image with
/// the arguments that the last hook returned.
pub fn handle_build<H, E, B, FH, FI, FM, FN, FB>(
    config: &Config,
    run_hook: FH,
    fetch_image_timestamp: FI,
    file_mtime: FM,
    now: FN,
    run_docker_build: FB,
) -> (res: Result<BuildOutcome<B>, HandleBuildError<H, E, B>>) where
    FH: Fn(&String, &str, &Vec<String>) -> Result<Vec<String>, H>,
    FI: Fn(&String) -> Result<Option<Timestamp>, E>,
    FM: Fn(&String) -> Result<Timestamp, E>,
    FN: Fn() -> LocalTime,
    FB: Fn(&Vec<String>) -> Result<(), B>,

    requires
        no_removal(config.model().build_arguments),
        forall|h: &String, v: &Vec<String>| #[trigger] run_hook.requires((h, "pre-build", v)),
        forall|s: &String| #[trigger] fetch_image_timestamp.requires((s,)),
        forall|s: &String| #[trigger] file_mtime.requires((s,)),
        now.requires(()),
        forall|a: &Vec<String>| #[trigger] run_docker_build.requires((a,)),
    ensures
        exists|initial: Vec<String>, hooked: Result<Vec<String>, H>|
            #![trigger pipeline_result(run_hook, "pre-build", config.pre_build@, initial, hooked)]
            strings_model(initial@) == build_arg_words(config.model().build_arguments)
                && pipeline_result(run_hook, "pre-build", config.pre_build@, initial, hooked)
                && match hooked {
                Err(h) => res == Err::<BuildOutcome<B>, HandleBuildError<H, E, B>>(
                    HandleBuildError::Hook(h),
                ),
                Ok(args) => exists|r: Result<BuildOutcome<B>, BuildError<E, B>>|
                    #![trigger build_result(*config, strings_model(args@), fetch_image_timestamp, file_mtime, now, run_docker_build, r)]
                    build_result(
                        *config,
                        strings_model(args@),
                        fetch_image_timestamp,
                        file_mtime,
                        now,
                        run_docker_build,
                        r,
                    ) && res == as_handle_result::<H, E, B>(r),
            },
{
    let initial_args = build_docker_build_hookable_args(config);
    let ghost initial = initial_args;
    let hooked = execute_pre_build_hooks(config.pre_build.as_slice(), initial_args, run_hook);
    let ghost hk = hooked;
    assert(pipeline_result(run_hook, "pre-build", config.pre_build@, initial, hk));
    match hooked {
        Err(h) => Err(HandleBuildError::Hook(h)),
        Ok(hookable_args) => {
            let r = build(
                config,
                hookable_args.as_slice(),
                fetch_image_timestamp,
                file_mtime,
                now,
                run_docker_build,
            );
            let ghost rg = r;
            assert(build_result(
                *config,
                strings_model(hookable_args@),
                fetch_image_timestamp,
                file_mtime,
                now,
                run_docker_build,
                rg,
            ));
            match r {
                Ok(o) => Ok(o),
                Err(e) => Err(HandleBuildError::Build(e)),
            }
        },
    }
}

/// A character with the Unicode `White_Space` property.
pub open spec fn is_white_space(c: char) -> bool {
    let u = c as u32;
    ||| 0x9 <= u <= 0xD
    ||| u == 0x20
    ||| u == 0x85
    ||| u == 0xA0
    ||| u == 0x1680
    ||| 0x2000 <= u <= 0x200A
    ||| u == 0x2028
    ||| u == 0x2029
    ||| u == 0x202F
    ||| u == 0x205F
    ||| u == 0x3000
}

/// `s` without its leading white space.
pub open spec fn trim_start_white_space(s: Seq<char>) -> Seq<char>
    decreases s.len(),
{
    if s.len() > 0 && is_white_space(s[0]) {
        trim_start_white_space(s.drop_first())
    } else {
        s
    }
}

/// `s` without its trailing white space.
pub open spec fn trim_end_white_space(s: Seq<char>) -> Seq<char>
    decreases s.len(),
{
    if s.len() > 0 && is_white_space(s.last()) {
        trim_end_white_space(s.drop_last())
    } else {
        s
    }
}

/// `s` without leading and trailing white space.
pub open spec fn trimmed(s: Seq<char>) -> Seq<char> {
    trim_end_white_space(trim_start_white_space(s))
}

/// `str::trim`: as documented, it removes leading and trailing characters with the Unicode
/// `White_Space` property, the fixed set of code points that `is_white_space` lists.
#[verifier::external_body]
fn trim_whitespace(s: &str) -> (res: &str)
    ensures
        res@ == trimmed(s@),
{
    s.trim()
}

/// What chrono's `FromStr` for `DateTime<Utc>` (a relaxed RFC 3339 parser) makes of a string:
/// the instant as seconds and nanoseconds since the Unix epoch, or nothing when it rejects the
/// string.
pub uninterp spec fn parsed_utc_instant(s: Seq<char>) -> Option<Timestamp>;

/// `str::parse::<chrono::DateTime<chrono::Utc>>`, with the parsed instant read back through
/// `timestamp` and `timestamp_subsec_nanos`. The contract only names the result: the accepted
/// syntax is chrono's and is not restated here.
#[verifier::external_body]
fn parse_utc_instant(s: &str) -> (res: Option<Timestamp>)
    ensures
        res == parsed_utc_instant(s@),
{
    match s.parse::<chrono::DateTime<chrono::Utc>>() {
        Ok(t) => Some(Timestamp { secs: t.timestamp(), nanos: t.timestamp_subsec_nanos() }),
        Err(_) => None,
    }
}

/// Read the creation time that `docker image inspect --format {{.Created}}` printed: the
/// output, trimmed of surrounding whitespace, parsed as an RFC 3339 instant. `None` when it
/// does not parse.
pub fn image_timestamp_from_inspect_output(stdout: &str) -> (res: Option<Timestamp>)
    ensures
        res == parsed_utc_instant(trimmed(stdout@)),
{
    let text = trim_whitespace(stdout);
    parse_utc_instant(text)
}


/// The build-argument words hold two words per build argument, in the arguments' order:
/// `--build-arg`, then `KEY=value` for a value (the key alone to inherit it).
pub proof fn law_build_arg_words_cover_every_argument(s: Seq<(Seq<char>, EntryModel)>)
    ensures
        build_arg_words(s).len() == 2 * s.len(),
        forall|i: int|
            0 <= i < s.len() ==> {
                &&& build_arg_words(s)[2 * i] == "--build-arg"@
                &&& build_arg_words(s)[2 * i + 1] == match (#[trigger] s[i]).1 {
                    EntryModel::Literal(v) => s[i].0 + seq!['='] + v,
                    _ => s[i].0,
                }
            },
    decreases s.len(),
{
    if s.len() > 0 {
        let init = s.drop_last();
        law_build_arg_words_cover_every_argument(init);
        assert forall|i: int| 0 <= i < init.len() implies init[i] == s[i] by {}
    }
}


/// When `docker build` fails, whether the build falls back on the existing image depends only
/// on whether the inspection found an image and on `allow_stale`, never on what asked for the
/// rebuild:
/// - with an existing image, a failed build is never reported as having nothing to fall back
///   on; it is used with `allow_stale` and reported as a stale image otherwise;
/// - with no image, a failed build is reported as having no fallback;
/// - with `force_rebuild`, or with no image, the build is attempted (unless `no_rebuild`), and
///   its failure gives exactly that result, carrying the error of `docker build` and the
///   configuration's image name.
pub proof fn law_failed_build_falls_back_on_the_existing_image<E, B, FI, FM, FN, FB>(
    c: Config,
    hookable: Seq<Seq<char>>,
    fetch_image_timestamp: FI,
    file_mtime: FM,
    now: FN,
    run_docker_build: FB,
    tagged: Option<Timestamp>,
    build_error: B,
    res: Result<BuildOutcome<B>, BuildError<E, B>>,
) where
    FI: Fn(&String) -> Result<Option<Timestamp>, E>,
    FM: Fn(&String) -> Result<Timestamp, E>,
    FN: Fn() -> LocalTime,
    FB: Fn(&Vec<String>) -> Result<(), B>,

    requires
        build_result(c, hookable, fetch_image_timestamp, file_mtime, now, run_docker_build, res),
        forall|s: &String, r: Result<Option<Timestamp>, E>|
            #[trigger] fetch_image_timestamp.ensures((s,), r) ==> r == Ok::<Option<Timestamp>, E>(
                tagged,
            ),
        forall|a: &Vec<String>, r: Result<(), B>|
            #[trigger] run_docker_build.ensures((a,), r) ==> r == Err::<(), B>(build_error),
    ensures
        !(res matches Ok(BuildOutcome::Built)),
        tagged is Some ==> !(res matches Err(BuildError::BuildFailedNoFallback { .. })),
        tagged is None ==> !(res matches Err(BuildError::BuildFailedStaleExists { .. }))
            && !(res matches Ok(BuildOutcome::UsingStaleAfterFailure { .. })),
        c.allow_stale ==> !(res matches Err(BuildError::BuildFailedStaleExists { .. })),
        !c.allow_stale ==> !(res matches Ok(BuildOutcome::UsingStaleAfterFailure { .. })),
        !c.no_rebuild && (c.force_rebuild || tagged is None) ==> match tagged {
            Some(_) => if c.allow_stale {
                res == Ok::<BuildOutcome<B>, BuildError<E, B>>(
                    BuildOutcome::UsingStaleAfterFailure { build_error },
                )
            } else {
                res matches Err(BuildError::BuildFailedStaleExists { image_name, build_error: b })
                    && image_name@ == spec_image_name(c.model()) && b == build_error
            },
            None => res matches Err(BuildError::BuildFailedNoFallback { image_name, build_error: b })
                && image_name@ == spec_image_name(c.model()) && b == build_error,
        },
{
}

} // verus!
