//! The `docker run` argument list.

use vstd::prelude::*;
use crate::config::{spec_container_name, spec_image_name, strings_model, Config};
use crate::docker_build::{push_word, push_words};
use crate::entries::{
    all_literal, no_removal, EntryModel, EnvironmentVariableEntry, MapEntry, VolumeEntry,
};
use crate::text::{decimal, decimal_chars, joined, owned, string_of};

verus! {

/// The `docker run` arguments for the volumes of a configuration: `--volume host:container`.
pub open spec fn volume_words(s: Seq<(Seq<char>, EntryModel)>) -> Seq<Seq<char>>
    decreases s.len(),
{
    if s.len() == 0 {
        Seq::empty()
    } else {
        volume_words(s.drop_last()) + seq![
            "--volume"@,
            match s.last().1 {
                EntryModel::Literal(h) => h + seq![':'] + s.last().0,
                _ => s.last().0,
            },
        ]
    }
}

/// The `docker run` arguments for the environment variables of a configuration:
/// `--env KEY=value` for a value, `--env KEY` to inherit from the host.
pub open spec fn env_words(s: Seq<(Seq<char>, EntryModel)>) -> Seq<Seq<char>>
    decreases s.len(),
{
    if s.len() == 0 {
        Seq::empty()
    } else {
        env_words(s.drop_last()) + seq![
            "--env"@,
            match s.last().1 {
                EntryModel::Literal(v) => s.last().0 + seq!['='] + v,
                _ => s.last().0,
            },
        ]
    }
}

/// Compute the hookable arguments for `docker run`: the configured volumes and environment
/// variables.
///
/// These are the arguments that pre-run hooks see and may change. Every volume must be an
/// explicit mount (same-path entries are resolved and removal sentinels stripped beforehand).
pub fn build_docker_run_hookable_args(config: &Config) -> (res: Vec<String>)
    requires
        all_literal(config.model().volumes),
        no_removal(config.model().environment_variables),
    ensures
        strings_model(res@) == volume_words(config.model().volumes) + env_words(
            config.model().environment_variables,
        ),
{
    let ghost vs = config.model().volumes;
    let ghost es = config.model().environment_variables;
    let mut args: Vec<String> = Vec::new();
    let mut i: usize = 0;
    while i < config.volumes.len()
        invariant
            i <= config.volumes@.len(),
            vs == config.model().volumes,
            all_literal(vs),
            strings_model(args@) == volume_words(vs.take(i as int)),
        decreases config.volumes.len() - i,
    {
        let ghost before = args@;
        let container_path = &config.volumes[i].0;
        assert(vs[i as int].1 is Literal);
        let word = match &config.volumes[i].1 {
            VolumeEntry::Active(h) => joined(h.as_str(), ':', container_path.as_str()),
            _ => container_path.clone(),
        };
        args.push(owned("--volume"));
        args.push(word);
        proof {
            assert(vs.take(i + 1).drop_last() =~= vs.take(i as int));
            assert(strings_model(args@) =~= strings_model(before) + seq!["--volume"@, word@]);
        }
        i = i + 1;
    }
    assert(vs.take(config.volumes.len() as int) =~= vs);
    let ghost after_volumes = strings_model(args@);
    let mut j: usize = 0;
    while j < config.environment_variables.len()
        invariant
            j <= config.environment_variables@.len(),
            es == config.model().environment_variables,
            strings_model(args@) == after_volumes + env_words(es.take(j as int)),
        decreases config.environment_variables.len() - j,
    {
        let ghost before = args@;
        let key = &config.environment_variables[j].0;
        assert(es[j as int] == (key@, config.environment_variables@[j as int].1.model()));
        let word = match &config.environment_variables[j].1 {
            EnvironmentVariableEntry::Value(v) => joined(key.as_str(), '=', v.as_str()),
            _ => key.clone(),
        };
        args.push(owned("--env"));
        args.push(word);
        proof {
            assert(es.take(j + 1).drop_last() =~= es.take(j as int));
            assert(strings_model(args@) =~= strings_model(before) + seq!["--env"@, word@]);
        }
        j = j + 1;
    }
    assert(es.take(config.environment_variables.len() as int) =~= es);
    args
}

/// The full `docker run` argument list.
pub open spec fn spec_docker_run_args(
    c: Config,
    uid: u32,
    gid: u32,
    current_dir: Seq<char>,
    main_worktree: Option<Seq<char>>,
    random_suffix: u32,
    container_args: Seq<Seq<char>>,
    stdin_is_terminal: bool,
    hookable: Seq<Seq<char>>,
) -> Seq<Seq<char>> {
    seq!["run"@, "--init"@, "--rm"@] + (if stdin_is_terminal {
        seq!["-t"@, "-i"@]
    } else {
        Seq::<Seq<char>>::empty()
    }) + seq![
        "--user"@,
        decimal(uid as nat) + seq![':'] + decimal(gid as nat),
        "--group-add"@,
        "0"@,
        "--name"@,
        spec_container_name(c.project_name@, random_suffix as nat),
        "-w"@,
        current_dir,
        "-v"@,
        current_dir + seq![':'] + current_dir,
    ] + (match main_worktree {
        Some(w) => seq!["-v"@, w + seq![':'] + w],
        None => Seq::<Seq<char>>::empty(),
    }) + hookable + seq![spec_image_name(c.model())] + container_args
}

/// Assemble the argument list for `docker run`.
///
/// The container runs with an init process, is removed on exit, runs as `uid:gid` with group
/// `0` added, gets a generated name, and has the current directory (and the main Git worktree,
/// when there is one) mounted at the same path and used as working directory. A pseudo-TTY and
/// open stdin are requested exactly when `stdin_is_terminal` holds. The hookable arguments come
/// before the image name; the container arguments follow it.
pub fn build_docker_run_args(
    config: &Config,
    uid: u32,
    gid: u32,
    current_dir: &str,
    main_worktree: Option<&str>,
    random_suffix: u32,
    container_args: &[String],
    stdin_is_terminal: bool,
    hookable_args: &[String],
) -> (res: Vec<String>)
    ensures
        strings_model(res@) == spec_docker_run_args(
            *config,
            uid,
            gid,
            current_dir@,
            match main_worktree {
                Some(w) => Some(w@),
                None => None,
            },
            random_suffix,
            strings_model(container_args@),
            stdin_is_terminal,
            strings_model(hookable_args@),
        ),
{
    let mut args: Vec<String> = Vec::new();
    push_word(&mut args, owned("run"));
    push_word(&mut args, owned("--init"));
    push_word(&mut args, owned("--rm"));
    let ghost fixed = strings_model(args@);
    assert(fixed =~= seq!["run"@, "--init"@, "--rm"@]);
    if stdin_is_terminal {
        push_word(&mut args, owned("-t"));
        push_word(&mut args, owned("-i"));
    }
    let ghost with_tty = strings_model(args@);
    push_word(&mut args, owned("--user"));
    let mut ids = decimal_chars(uid);
    ids.push(':');
    crate::text::append_chars(&mut ids, decimal_chars(gid).as_slice());
    let user = string_of(ids.as_slice());
    assert(user@ =~= decimal(uid as nat) + seq![':'] + decimal(gid as nat));
    push_word(&mut args, user);
    push_word(&mut args, owned("--group-add"));
    push_word(&mut args, owned("0"));
    push_word(&mut args, owned("--name"));
    let name = config.get_container_name(random_suffix);
    push_word(&mut args, name);
    push_word(&mut args, owned("-w"));
    push_word(&mut args, owned(current_dir));
    push_word(&mut args, owned("-v"));
    push_word(&mut args, joined(current_dir, ':', current_dir));
    let ghost with_base = strings_model(args@);
    match main_worktree {
        Some(w) => {
            push_word(&mut args, owned("-v"));
            push_word(&mut args, joined(w, ':', w));
        },
        None => {},
    }
    let ghost with_worktree = strings_model(args@);
    push_words(&mut args, hookable_args);
    let ghost with_hookable = strings_model(args@);
    let image = config.get_image_name();
    push_word(&mut args, image);
    let ghost with_image = strings_model(args@);
    push_words(&mut args, container_args);
    proof {
        let tty = if stdin_is_terminal {
            seq!["-t"@, "-i"@]
        } else {
            Seq::<Seq<char>>::empty()
        };
        let base = seq![
            "--user"@,
            decimal(uid as nat) + seq![':'] + decimal(gid as nat),
            "--group-add"@,
            "0"@,
            "--name"@,
            spec_container_name(config.project_name@, random_suffix as nat),
            "-w"@,
            current_dir@,
            "-v"@,
            current_dir@ + seq![':'] + current_dir@,
        ];
        let wt = match main_worktree {
            Some(w) => seq!["-v"@, w@ + seq![':'] + w@],
            None => Seq::<Seq<char>>::empty(),
        };
        assert(with_tty =~= fixed + tty);
        assert(with_base =~= fixed + tty + base);
        assert(with_worktree =~= fixed + tty + base + wt);
        assert(with_hookable =~= fixed + tty + base + wt + strings_model(hookable_args@));
        assert(with_image =~= fixed + tty + base + wt + strings_model(hookable_args@) + seq![
            spec_image_name(config.model()),
        ]);
    }
    args
}

/// The main worktree, as the detection gave it: the path, if any.
pub open spec fn worktree_model(w: Option<String>) -> Option<Seq<char>> {
    match w {
        Some(p) => Some(p@),
        None => None,
    }
}

/// Run the agent container.
///
/// The main Git worktree of `current_dir` is detected first (`main_worktree_root`; an error
/// there ends the run). The `docker run` arguments are then assembled and handed to `launch`,
/// which replaces the current process with `docker run` or runs it as a child; what `launch`
/// returns is the result of the run. When post-run hooks are configured the container's output
/// is captured for them, so no pseudo-TTY is requested even when stdin is a terminal.
pub fn run<G, X, FG, FX>(
    config: &Config,
    main_worktree_root: FG,
    launch: FX,
    uid: u32,
    gid: u32,
    current_dir: &str,
    random_suffix: u32,
    container_args: &[String],
    stdin_is_terminal: bool,
    hookable_args: &[String],
) -> (res: Result<X, G>) where
    FG: Fn(&str) -> Result<Option<String>, G>,
    FX: Fn(&Vec<String>) -> X,

    requires
        main_worktree_root.requires((current_dir,)),
        forall|a: &Vec<String>| #[trigger] launch.requires((a,)),
    ensures
        exists|detected: Result<Option<String>, G>|
            #![trigger main_worktree_root.ensures((current_dir,), detected)]
            main_worktree_root.ensures((current_dir,), detected) && match detected {
                Err(g) => res == Err::<X, G>(g),
                Ok(w) => exists|args: Vec<String>, x: X|
                    #![trigger launch.ensures((&args,), x)]
                    strings_model(args@) == spec_docker_run_args(
                        *config,
                        uid,
                        gid,
                        current_dir@,
                        worktree_model(w),
                        random_suffix,
                        strings_model(container_args@),
                        stdin_is_terminal && config.post_run@.len() == 0,
                        strings_model(hookable_args@),
                    ) && launch.ensures((&args,), x) && res == Ok::<X, G>(x),
            },
{
    let detected = main_worktree_root(current_dir);
    let ghost dt = detected;
    assert(main_worktree_root.ensures((current_dir,), dt));
    let main_worktree = match detected {
        Ok(w) => w,
        Err(g) => {
            return Err(g);
        },
    };
    let worktree: Option<&str> = match &main_worktree {
        Some(p) => Some(p.as_str()),
        None => None,
    };
    let allocate_tty = stdin_is_terminal && config.post_run.len() == 0;
    let args = build_docker_run_args(
        config,
        uid,
        gid,
        current_dir,
        worktree,
        random_suffix,
        container_args,
        allocate_tty,
        hookable_args,
    );
    let x = launch(&args);
    assert(launch.ensures((&args,), x));
    Ok(x)
}


/// The volume arguments hold two words per volume, in the volumes' order: `--volume`, then
/// `host:container` for an explicit mount (the container path alone otherwise).
pub proof fn law_volume_words_cover_every_volume(s: Seq<(Seq<char>, EntryModel)>)
    ensures
        volume_words(s).len() == 2 * s.len(),
        forall|i: int|
            0 <= i < s.len() ==> {
                &&& volume_words(s)[2 * i] == "--volume"@
                &&& volume_words(s)[2 * i + 1] == match (#[trigger] s[i]).1 {
                    EntryModel::Literal(h) => h + seq![':'] + s[i].0,
                    _ => s[i].0,
                }
            },
    decreases s.len(),
{
    if s.len() > 0 {
        let init = s.drop_last();
        law_volume_words_cover_every_volume(init);
        assert forall|i: int| 0 <= i < init.len() implies init[i] == s[i] by {}
    }
}

/// The environment arguments hold two words per variable, in the variables' order: `--env`,
/// then `KEY=value` for a value (the key alone otherwise).
pub proof fn law_env_words_cover_every_variable(s: Seq<(Seq<char>, EntryModel)>)
    ensures
        env_words(s).len() == 2 * s.len(),
        forall|i: int|
            0 <= i < s.len() ==> {
                &&& env_words(s)[2 * i] == "--env"@
                &&& env_words(s)[2 * i + 1] == match (#[trigger] s[i]).1 {
                    EntryModel::Literal(v) => s[i].0 + seq!['='] + v,
                    _ => s[i].0,
                }
            },
    decreases s.len(),
{
    if s.len() > 0 {
        let init = s.drop_last();
        law_env_words_cover_every_variable(init);
        assert forall|i: int| 0 <= i < init.len() implies init[i] == s[i] by {}
    }
}

} // verus!
