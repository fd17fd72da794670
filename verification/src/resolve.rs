//! The last steps of configuration loading, applied to the merged configuration: removal
//! sentinels are stripped, the result is validated, and paths are expanded and resolved.

use vstd::prelude::*;
use crate::cli::{is_valid_env_var_key, spec_is_valid_env_var_key};
use crate::config::{maps_well_formed, slug_of, strings_model, Config, ConfigModel};
use crate::entries::{
    all_literal, entries_model, keys_distinct, no_removal, EntryModel, MapEntry, VolumeEntry,
};
use crate::error::ConfigError;
use crate::paths::{
    begins_with, expand_and_resolve_path, is_relative_filesystem_path,
    law_resolved_paths_are_normalized, spec_expand_and_resolve_path,
    spec_is_relative_filesystem_path, spec_normalize_absolute_path,
};
use crate::slugify::slugify;
use crate::text::chars_of;

verus! {

/// The pairs of `s` that are not removal sentinels, in order.
pub open spec fn keep_unremoved(s: Seq<(Seq<char>, EntryModel)>) -> Seq<(Seq<char>, EntryModel)>
    decreases s.len(),
{
    if s.len() == 0 {
        s
    } else if s.last().1 is Removal {
        keep_unremoved(s.drop_last())
    } else {
        keep_unremoved(s.drop_last()).push(s.last())
    }
}

/// Every pair that `keep_unremoved` keeps comes from `s`.
proof fn lemma_keep_unremoved_from(s: Seq<(Seq<char>, EntryModel)>)
    ensures
        forall|i: int| 0 <= i < keep_unremoved(s).len() ==> s.contains(#[trigger] keep_unremoved(s)[i]),
    decreases s.len(),
{
    if s.len() > 0 {
        let init = s.drop_last();
        lemma_keep_unremoved_from(init);
        let k = keep_unremoved(init);
        assert forall|i: int| 0 <= i < keep_unremoved(s).len() implies s.contains(#[trigger] keep_unremoved(s)[i]) by {
            if i < k.len() {
                assert(keep_unremoved(s)[i] == k[i]);
                assert(init.contains(k[i]));
                let j = choose|j: int| 0 <= j < init.len() && init[j] == k[i];
                assert(s[j] == init[j]);
            } else {
                assert(keep_unremoved(s)[i] == s.last());
                assert(s[s.len() - 1] == s.last());
            }
        }
    }
}

/// Dropping removal sentinels keeps the keys distinct.
proof fn lemma_keep_unremoved_distinct(s: Seq<(Seq<char>, EntryModel)>)
    requires
        keys_distinct(s),
    ensures
        keys_distinct(keep_unremoved(s)),
    decreases s.len(),
{
    if s.len() > 0 {
        let init = s.drop_last();
        assert(keys_distinct(init)) by {
            assert forall|i: int, j: int| 0 <= i < j < init.len() implies #[trigger] init[i].0 != #[trigger] init[j].0 by {
                assert(init[i] == s[i] && init[j] == s[j]);
            }
        }
        lemma_keep_unremoved_distinct(init);
        lemma_keep_unremoved_from(init);
        let k = keep_unremoved(init);
        if !(s.last().1 is Removal) {
            let r = k.push(s.last());
            assert forall|i: int, j: int| 0 <= i < j < r.len() implies #[trigger] r[i].0 != #[trigger] r[j].0 by {
                if j == k.len() {
                    assert(init.contains(k[i]));
                    let m = choose|m: int| 0 <= m < init.len() && init[m] == k[i];
                    assert(s[m] == init[m]);
                    assert(s[s.len() - 1] == s.last());
                    assert(s[m].0 != s[s.len() - 1].0);
                } else {
                    assert(r[i] == k[i] && r[j] == k[j]);
                }
            }
        }
    }
}

/// Cleaning keeps the entry maps maps.
proof fn lemma_cleaned_maps(m: ConfigModel)
    ensures
        maps_well_formed(m) ==> maps_well_formed(cleaned(m)),
{
    if maps_well_formed(m) {
        lemma_keep_unremoved_distinct(m.build_arguments);
        lemma_keep_unremoved_distinct(m.volumes);
        lemma_keep_unremoved_distinct(m.environment_variables);
    }
}

/// Path expansion changes no key.
proof fn lemma_expanded_maps(m: ConfigModel, home: Seq<char>, cwd: Seq<char>)
    ensures
        maps_well_formed(m) ==> maps_well_formed(expanded(m, home, cwd)),
{
    if maps_well_formed(m) {
        let v = expanded(m, home, cwd).volumes;
        assert forall|i: int, j: int| 0 <= i < j < v.len() implies #[trigger] v[i].0 != #[trigger] v[j].0 by {
            assert(v[i].0 == m.volumes[i].0 && v[j].0 == m.volumes[j].0);
        }
    }
}

/// The target value `!`, which suppresses an inherited target.
pub open spec fn target_sentinel() -> Seq<char> {
    seq!['!']
}

/// A merged configuration with its removal sentinels stripped.
pub open spec fn cleaned(m: ConfigModel) -> ConfigModel {
    ConfigModel {
        build_arguments: keep_unremoved(m.build_arguments),
        target: if m.target == Some(target_sentinel()) { None } else { m.target },
        volumes: keep_unremoved(m.volumes),
        environment_variables: keep_unremoved(m.environment_variables),
        ..m
    }
}

/// Every key of `s` is a valid identifier.
pub open spec fn all_keys_valid(s: Seq<(Seq<char>, EntryModel)>) -> bool {
    forall|i: int| 0 <= i < s.len() ==> spec_is_valid_env_var_key(#[trigger] s[i].0)
}

/// Every key of `s` is an absolute path.
pub open spec fn all_keys_absolute(s: Seq<(Seq<char>, EntryModel)>) -> bool {
    forall|i: int| 0 <= i < s.len() ==> begins_with(#[trigger] s[i].0, '/')
}

/// No string of `s` is empty.
pub open spec fn all_nonempty(s: Seq<Seq<char>>) -> bool {
    forall|i: int| 0 <= i < s.len() ==> (#[trigger] s[i]).len() > 0
}

/// The validation checks, in the order in which they are made.
pub open spec fn check_passes(m: ConfigModel, n: int) -> bool {
    if n == 0 {
        m.dockerfile.len() > 0
    } else if n == 1 {
        m.build_context.len() > 0
    } else if n == 2 {
        all_keys_valid(m.build_arguments)
    } else if n == 3 {
        all_nonempty(m.pre_build)
    } else if n == 4 {
        slug_of(m.project_name).len() > 0
    } else if n == 5 {
        slug_of(m.username).len() > 0
    } else if n == 6 {
        m.target != Some(Seq::<char>::empty())
    } else if n == 7 {
        m.target matches Some(t) ==> slug_of(t).len() > 0
    } else if n == 8 {
        !(m.force_rebuild && m.no_rebuild)
    } else if n == 9 {
        all_keys_absolute(m.volumes)
    } else if n == 10 {
        all_keys_valid(m.environment_variables)
    } else if n == 11 {
        all_nonempty(m.pre_run)
    } else {
        all_nonempty(m.post_run)
    }
}

/// The number of validation checks.
pub open spec fn check_count() -> int {
    13
}

/// A configuration that passes every check.
pub open spec fn config_is_valid(m: ConfigModel) -> bool {
    forall|n: int| 0 <= n < check_count() ==> #[trigger] check_passes(m, n)
}

/// `k` is the first key of `s` that is not a valid identifier.
pub open spec fn is_first_invalid_key(s: Seq<(Seq<char>, EntryModel)>, k: Seq<char>) -> bool {
    exists|i: int|
        0 <= i < s.len() && #[trigger] s[i].0 == k && !spec_is_valid_env_var_key(k) && forall|j: int|
            0 <= j < i ==> spec_is_valid_env_var_key(#[trigger] s[j].0)
}

/// `k` is the first key of `s` that is not an absolute path.
pub open spec fn is_first_relative_key(s: Seq<(Seq<char>, EntryModel)>, k: Seq<char>) -> bool {
    exists|i: int|
        0 <= i < s.len() && #[trigger] s[i].0 == k && !begins_with(k, '/') && forall|j: int|
            0 <= j < i ==> begins_with(#[trigger] s[j].0, '/')
}

/// `e` is the error that reports a failure of check `n`.
pub open spec fn error_fits(m: ConfigModel, n: int, e: ConfigError) -> bool {
    match e {
        ConfigError::EmptyDockerfile => n == 0,
        ConfigError::EmptyBuildContext => n == 1,
        ConfigError::InvalidBuildArgumentKey { key } => n == 2 && is_first_invalid_key(
            m.build_arguments,
            key@,
        ),
        ConfigError::EmptyPreBuild => n == 3,
        ConfigError::InvalidProjectName { project_name } => n == 4 && project_name@ == m.project_name,
        ConfigError::InvalidUsername { username } => n == 5 && username@ == m.username,
        ConfigError::EmptyTarget => n == 6,
        ConfigError::InvalidTarget { target } => n == 7 && m.target == Some(target@),
        ConfigError::ConflictingRebuildFlags => n == 8,
        ConfigError::InvalidVolumePath { path } => n == 9 && is_first_relative_key(m.volumes, path@),
        ConfigError::InvalidEnvironmentVariableKey { key } => n == 10 && is_first_invalid_key(
            m.environment_variables,
            key@,
        ),
        ConfigError::EmptyPreRun => n == 11,
        ConfigError::EmptyPostRun => n == 12,
        _ => false,
    }
}

/// Check `n` is the first that fails, and `e` reports it.
pub open spec fn first_failure_is(m: ConfigModel, n: int, e: ConfigError) -> bool {
    &&& 0 <= n < check_count()
    &&& forall|l: int| 0 <= l < n ==> #[trigger] check_passes(m, l)
    &&& !check_passes(m, n)
    &&& error_fits(m, n, e)
}

/// `e` reports the first check that `m` fails.
pub open spec fn reports_first_failure(m: ConfigModel, e: ConfigError) -> bool {
    exists|n: int| first_failure_is(m, n, e)
}

/// A volume entry after path expansion: a relative filesystem-like host path is expanded and
/// resolved against `cwd`; a same-path entry mounts its container path.
pub open spec fn expanded_volume(key: Seq<char>, m: EntryModel, home: Seq<char>, cwd: Seq<char>) -> EntryModel {
    match m {
        EntryModel::Literal(h) => if !begins_with(h, '/') && spec_is_relative_filesystem_path(h) {
            EntryModel::Literal(spec_expand_and_resolve_path(h, home, cwd))
        } else {
            m
        },
        EntryModel::Shorthand => EntryModel::Literal(key),
        EntryModel::Removal => EntryModel::Removal,
    }
}

/// Every path of `s` expanded and resolved.
pub open spec fn expanded_paths(s: Seq<Seq<char>>, home: Seq<char>, cwd: Seq<char>) -> Seq<Seq<char>> {
    s.map_values(|p: Seq<char>| spec_expand_and_resolve_path(p, home, cwd))
}

/// A configuration with its paths expanded and resolved.
pub open spec fn expanded(m: ConfigModel, home: Seq<char>, cwd: Seq<char>) -> ConfigModel {
    ConfigModel {
        dockerfile: spec_expand_and_resolve_path(m.dockerfile, home, cwd),
        build_context: spec_expand_and_resolve_path(m.build_context, home, cwd),
        pre_build: expanded_paths(m.pre_build, home, cwd),
        volumes: m.volumes.map_values(
            |e: (Seq<char>, EntryModel)| (e.0, expanded_volume(e.0, e.1, home, cwd)),
        ),
        pre_run: expanded_paths(m.pre_run, home, cwd),
        post_run: expanded_paths(m.post_run, home, cwd),
        ..m
    }
}

/// Drop the removal sentinels from an entry map.
fn retain_unremoved<E: MapEntry>(v: &mut Vec<(String, E)>)
    ensures
        entries_model(final(v)@) == keep_unremoved(entries_model(old(v)@)),
{
    let mut taken: Vec<(String, E)> = Vec::new();
    std::mem::swap(v, &mut taken);
    let ghost raw = taken@;
    let ghost rm = entries_model(raw);
    proof {
        assert(rm.take(0) =~= Seq::<(Seq<char>, EntryModel)>::empty());
        assert(entries_model(v@) =~= Seq::<(Seq<char>, EntryModel)>::empty());
    }
    for pair in it: taken.into_iter()
        invariant
            it.seq() == raw,
            rm == entries_model(raw),
            entries_model(v@) == keep_unremoved(rm.take(it.index() as int)),
    {
        let ghost i = it.index();
        let ghost before = v@;
        proof {
            assert(rm.take(i + 1).drop_last() =~= rm.take(i));
            assert(rm.take(i + 1).last() == (pair.0@, pair.1.model()));
        }
        if !pair.1.is_removal() {
            v.push(pair);
            assert(entries_model(v@) =~= entries_model(before).push((pair.0@, pair.1.model())));
        }
    }
    assert(rm.take(raw.len() as int) =~= rm);
}

/// Strip removal sentinels from a fully merged configuration.
///
/// `Remove` entries suppress a key inherited from a lower-priority layer; once merging is done
/// they carry no information and are dropped. A `target` of `!` is the removal sentinel for the
/// target and becomes `None`.
pub fn clean_config(config: &mut Config)
    ensures
        final(config).model() == cleaned(old(config).model()),
        maps_well_formed(old(config).model()) ==> maps_well_formed(final(config).model()),
{
    proof {
        lemma_cleaned_maps(config.model());
    }
    retain_unremoved(&mut config.build_arguments);
    let is_sentinel = match &config.target {
        Some(t) => {
            let cs = chars_of(t.as_str());
            let r = cs.len() == 1 && cs[0] == '!';
            proof {
                if r {
                    assert(cs@ =~= target_sentinel());
                } else if cs@.len() == 1 {
                    assert(cs@[0] != target_sentinel()[0]);
                }
            }
            r
        },
        None => false,
    };
    if is_sentinel {
        config.target = None;
    }
    retain_unremoved(&mut config.volumes);
    retain_unremoved(&mut config.environment_variables);
}

/// The index of the first key of `v` that is not a valid identifier.
fn first_invalid_key<E: MapEntry>(v: &Vec<(String, E)>) -> (res: Option<usize>)
    ensures
        match res {
            Some(i) => i < v@.len() && !spec_is_valid_env_var_key(v@[i as int].0@) && forall|j: int|
                0 <= j < i ==> spec_is_valid_env_var_key(#[trigger] v@[j].0@),
            None => forall|j: int| 0 <= j < v@.len() ==> spec_is_valid_env_var_key(#[trigger] v@[j].0@),
        },
{
    let mut i: usize = 0;
    while i < v.len()
        invariant
            i <= v@.len(),
            forall|j: int| 0 <= j < i ==> spec_is_valid_env_var_key(#[trigger] v@[j].0@),
        decreases v.len() - i,
    {
        if !is_valid_env_var_key(v[i].0.as_str()) {
            return Some(i);
        }
        i = i + 1;
    }
    None
}

/// The index of the first key of `v` that does not start with `/`.
fn first_relative_key<E: MapEntry>(v: &Vec<(String, E)>) -> (res: Option<usize>)
    ensures
        match res {
            Some(i) => i < v@.len() && !begins_with(v@[i as int].0@, '/') && forall|j: int|
                0 <= j < i ==> begins_with(#[trigger] v@[j].0@, '/'),
            None => forall|j: int| 0 <= j < v@.len() ==> begins_with(#[trigger] v@[j].0@, '/'),
        },
{
    let mut i: usize = 0;
    while i < v.len()
        invariant
            i <= v@.len(),
            forall|j: int| 0 <= j < i ==> begins_with(#[trigger] v@[j].0@, '/'),
        decreases v.len() - i,
    {
        let cs = chars_of(v[i].0.as_str());
        if !(cs.len() > 0 && cs[0] == '/') {
            return Some(i);
        }
        i = i + 1;
    }
    None
}

/// Whether some string of `v` is empty.
fn any_empty(v: &Vec<String>) -> (res: bool)
    ensures
        res == !all_nonempty(strings_model(v@)),
{
    let mut i: usize = 0;
    while i < v.len()
        invariant
            i <= v@.len(),
            forall|j: int| 0 <= j < i ==> (#[trigger] v@[j])@.len() > 0,
        decreases v.len() - i,
    {
        let cs = chars_of(v[i].as_str());
        if cs.len() == 0 {
            assert(strings_model(v@)[i as int].len() == 0);
            return true;
        }
        i = i + 1;
    }
    assert forall|j: int| 0 <= j < strings_model(v@).len() implies (#[trigger] strings_model(v@)[j]).len() > 0 by {
        assert(strings_model(v@)[j] == v@[j]@);
    }
    false
}

/// Validate a fully merged configuration, returning the first error found.
pub fn validate_config(config: &Config) -> (res: Result<(), ConfigError>)
    ensures
        res is Ok <==> config_is_valid(config.model()),
        res matches Err(e) ==> reports_first_failure(config.model(), e),
{
    let ghost m = config.model();
    if chars_of(config.dockerfile.as_str()).len() == 0 {
        let e = ConfigError::EmptyDockerfile;
        assert(first_failure_is(m, 0, e));
        return Err(e);
    }
    if chars_of(config.build_context.as_str()).len() == 0 {
        let e = ConfigError::EmptyBuildContext;
        assert(first_failure_is(m, 1, e));
        return Err(e);
    }
    match first_invalid_key(&config.build_arguments) {
        Some(i) => {
            let e = ConfigError::InvalidBuildArgumentKey { key: config.build_arguments[i].0.clone() };
            proof {
                let s = m.build_arguments;
                assert(s[i as int].0 == config.build_arguments@[i as int].0@);
                assert forall|j: int| 0 <= j < i implies spec_is_valid_env_var_key(#[trigger] s[j].0) by {
                    assert(s[j].0 == config.build_arguments@[j].0@);
                }
                assert(is_first_invalid_key(s, s[i as int].0));
                assert(!check_passes(m, 2));
            }
            assert(first_failure_is(m, 2, e));
            return Err(e);
        },
        None => {
            assert forall|j: int| 0 <= j < m.build_arguments.len() implies spec_is_valid_env_var_key(
                #[trigger] m.build_arguments[j].0,
            ) by {
                assert(m.build_arguments[j].0 == config.build_arguments@[j].0@);
            }
        },
    }
    assert(check_passes(m, 2));
    if any_empty(&config.pre_build) {
        let e = ConfigError::EmptyPreBuild;
        assert(first_failure_is(m, 3, e));
        return Err(e);
    }
    if chars_of(slugify(config.project_name.as_str()).as_str()).len() == 0 {
        let e = ConfigError::InvalidProjectName { project_name: config.project_name.clone() };
        assert(first_failure_is(m, 4, e));
        return Err(e);
    }
    if chars_of(slugify(config.username.as_str()).as_str()).len() == 0 {
        let e = ConfigError::InvalidUsername { username: config.username.clone() };
        assert(first_failure_is(m, 5, e));
        return Err(e);
    }
    match &config.target {
        Some(t) => {
            if chars_of(t.as_str()).len() == 0 {
                let e = ConfigError::EmptyTarget;
                assert(m.target == Some(Seq::<char>::empty()));
                assert(first_failure_is(m, 6, e));
                return Err(e);
            }
            assert(check_passes(m, 6));
            if chars_of(slugify(t.as_str()).as_str()).len() == 0 {
                let e = ConfigError::InvalidTarget { target: t.clone() };
                assert(first_failure_is(m, 7, e));
                return Err(e);
            }
        },
        None => {},
    }
    assert(check_passes(m, 6));
    assert(check_passes(m, 7));
    if config.force_rebuild && config.no_rebuild {
        let e = ConfigError::ConflictingRebuildFlags;
        assert(first_failure_is(m, 8, e));
        return Err(e);
    }
    match first_relative_key(&config.volumes) {
        Some(i) => {
            let e = ConfigError::InvalidVolumePath { path: config.volumes[i].0.clone() };
            proof {
                let s = m.volumes;
                assert(s[i as int].0 == config.volumes@[i as int].0@);
                assert forall|j: int| 0 <= j < i implies begins_with(#[trigger] s[j].0, '/') by {
                    assert(s[j].0 == config.volumes@[j].0@);
                }
                assert(is_first_relative_key(s, s[i as int].0));
                assert(!check_passes(m, 9));
            }
            assert(first_failure_is(m, 9, e));
            return Err(e);
        },
        None => {
            assert forall|j: int| 0 <= j < m.volumes.len() implies begins_with(#[trigger] m.volumes[j].0, '/') by {
                assert(m.volumes[j].0 == config.volumes@[j].0@);
            }
        },
    }
    assert(check_passes(m, 9));
    match first_invalid_key(&config.environment_variables) {
        Some(i) => {
            let e = ConfigError::InvalidEnvironmentVariableKey {
                key: config.environment_variables[i].0.clone(),
            };
            proof {
                let s = m.environment_variables;
                assert(s[i as int].0 == config.environment_variables@[i as int].0@);
                assert forall|j: int| 0 <= j < i implies spec_is_valid_env_var_key(#[trigger] s[j].0) by {
                    assert(s[j].0 == config.environment_variables@[j].0@);
                }
                assert(is_first_invalid_key(s, s[i as int].0));
                assert(!check_passes(m, 10));
            }
            assert(first_failure_is(m, 10, e));
            return Err(e);
        },
        None => {
            assert forall|j: int| 0 <= j < m.environment_variables.len() implies spec_is_valid_env_var_key(
                #[trigger] m.environment_variables[j].0,
            ) by {
                assert(m.environment_variables[j].0 == config.environment_variables@[j].0@);
            }
        },
    }
    assert(check_passes(m, 10));
    if any_empty(&config.pre_run) {
        let e = ConfigError::EmptyPreRun;
        assert(first_failure_is(m, 11, e));
        return Err(e);
    }
    if any_empty(&config.post_run) {
        let e = ConfigError::EmptyPostRun;
        assert(first_failure_is(m, 12, e));
        return Err(e);
    }
    assert(check_passes(m, 11));
    assert(check_passes(m, 12));
    assert(config_is_valid(m));
    Ok(())
}

/// Expand and resolve every path of a list.
fn expand_path_list(v: &mut Vec<String>, home_dir: &str, cwd: &str)
    ensures
        strings_model(final(v)@) == expanded_paths(strings_model(old(v)@), home_dir@, cwd@),
{
    let mut taken: Vec<String> = Vec::new();
    std::mem::swap(v, &mut taken);
    let ghost raw = strings_model(taken@);
    let mut i: usize = 0;
    while i < taken.len()
        invariant
            i <= taken@.len(),
            raw == strings_model(taken@),
            strings_model(v@) == expanded_paths(raw.take(i as int), home_dir@, cwd@),
        decreases taken.len() - i,
    {
        let ghost before = v@;
        let p = expand_and_resolve_path(taken[i].as_str(), home_dir, cwd);
        v.push(p);
        assert(raw.take(i + 1) =~= raw.take(i as int).push(taken@[i as int]@));
        assert(strings_model(v@) =~= strings_model(before).push(p@));
        assert(expanded_paths(raw.take(i + 1), home_dir@, cwd@) =~= expanded_paths(
            raw.take(i as int),
            home_dir@,
            cwd@,
        ).push(spec_expand_and_resolve_path(taken@[i as int]@, home_dir@, cwd@)));
        i = i + 1;
    }
    assert(raw.take(taken.len() as int) =~= raw);
}

/// A volume entry after path expansion.
fn expand_volume(container_path: &String, entry: VolumeEntry, home_dir: &str, cwd: &str) -> (res: VolumeEntry)
    ensures
        res.model() == expanded_volume(container_path@, entry.model(), home_dir@, cwd@),
{
    match entry {
        VolumeEntry::Active(host_path) => {
            let cs = chars_of(host_path.as_str());
            let absolute = cs.len() > 0 && cs[0] == '/';
            if !absolute && is_relative_filesystem_path(host_path.as_str()) {
                VolumeEntry::Active(expand_and_resolve_path(host_path.as_str(), home_dir, cwd))
            } else {
                VolumeEntry::Active(host_path)
            }
        },
        VolumeEntry::SamePath => VolumeEntry::Active(container_path.clone()),
        VolumeEntry::Remove => VolumeEntry::Remove,
    }
}

/// Expand a leading `~` to `home_dir` and resolve relative paths against `cwd`.
///
/// `dockerfile`, `build_context` and every entry of `pre_build`, `pre_run` and `post_run` are
/// expanded and resolved. A volume host path is expanded and resolved only when it is relative
/// and looks like a filesystem path (starts with `.` or contains `/`); other relative host
/// paths are Docker volume names and stay as they are. Same-path volumes become explicit
/// mounts of their container path.
pub fn expand_config_paths(config: &mut Config, home_dir: &str, cwd: &str)
    ensures
        final(config).model() == expanded(old(config).model(), home_dir@, cwd@),
        maps_well_formed(old(config).model()) ==> maps_well_formed(final(config).model()),
{
    proof {
        lemma_expanded_maps(config.model(), home_dir@, cwd@);
    }
    let ghost m0 = config.model();
    let dockerfile = expand_and_resolve_path(config.dockerfile.as_str(), home_dir, cwd);
    config.dockerfile = dockerfile;
    let build_context = expand_and_resolve_path(config.build_context.as_str(), home_dir, cwd);
    config.build_context = build_context;
    expand_path_list(&mut config.pre_build, home_dir, cwd);

    let mut taken: Vec<(String, VolumeEntry)> = Vec::new();
    std::mem::swap(&mut config.volumes, &mut taken);
    let ghost raw = taken@;
    let ghost rm = entries_model(raw);
    let ghost f = |e: (Seq<char>, EntryModel)| (e.0, expanded_volume(e.0, e.1, home_dir@, cwd@));
    let mut volumes: Vec<(String, VolumeEntry)> = Vec::new();
    proof {
        assert(rm.take(0) =~= Seq::<(Seq<char>, EntryModel)>::empty());
        assert(entries_model(volumes@) =~= rm.take(0).map_values(f));
    }
    for pair in it: taken.into_iter()
        invariant
            it.seq() == raw,
            rm == entries_model(raw),
            f == (|e: (Seq<char>, EntryModel)| (e.0, expanded_volume(e.0, e.1, home_dir@, cwd@))),
            entries_model(volumes@) == rm.take(it.index() as int).map_values(f),
    {
        let ghost i = it.index();
        let ghost before = volumes@;
        let (container_path, entry) = pair;
        let new_entry = expand_volume(&container_path, entry, home_dir, cwd);
        proof {
            assert(rm.take(i + 1) =~= rm.take(i).push((container_path@, entry.model())));
            assert(rm.take(i + 1).map_values(f) =~= rm.take(i).map_values(f).push(
                f((container_path@, entry.model())),
            ));
        }
        volumes.push((container_path, new_entry));
        assert(entries_model(volumes@) =~= entries_model(before).push(
            (container_path@, new_entry.model()),
        ));
    }
    assert(rm.take(raw.len() as int) =~= rm);
    config.volumes = volumes;
    expand_path_list(&mut config.pre_run, home_dir, cwd);
    expand_path_list(&mut config.post_run, home_dir, cwd);
    assert(config.model() =~= expanded(m0, home_dir@, cwd@));
}

/// The final steps of configuration loading, applied to the merged configuration: strip the
/// removal sentinels, validate, then expand and resolve paths against `home_dir` and `cwd`.
pub fn finalize_config(config: Config, home_dir: &str, cwd: &str) -> (res: Result<Config, ConfigError>)
    ensures
        res is Ok <==> config_is_valid(cleaned(config.model())),
        match res {
            Ok(c) => c.model() == expanded(cleaned(config.model()), home_dir@, cwd@) && is_resolved(
                c.model(),
            ),
            Err(e) => reports_first_failure(cleaned(config.model()), e),
        },
        maps_well_formed(config.model()) ==> (res matches Ok(c) ==> maps_well_formed(c.model())),
{
    let ghost m = config.model();
    let mut config = config;
    clean_config(&mut config);
    validate_config(&config)?;
    expand_config_paths(&mut config, home_dir, cwd);
    proof {
        law_finalized_config_is_resolved(m, home_dir@, cwd@);
    }
    Ok(config)
}

/// Every path of `s` is absolute.
pub open spec fn all_absolute(s: Seq<Seq<char>>) -> bool {
    forall|i: int| 0 <= i < s.len() ==> begins_with(#[trigger] s[i], '/')
}

/// What a resolved configuration guarantees to the build and run steps: no removal sentinels,
/// only explicit volume mounts, no target sentinel, names with non-empty slugs, compatible
/// rebuild flags, and absolute paths everywhere.
pub open spec fn is_resolved(m: ConfigModel) -> bool {
    &&& no_removal(m.build_arguments)
    &&& all_literal(m.volumes)
    &&& no_removal(m.environment_variables)
    &&& m.target != Some(target_sentinel())
    &&& (m.target matches Some(t) ==> slug_of(t).len() > 0)
    &&& slug_of(m.project_name).len() > 0
    &&& slug_of(m.username).len() > 0
    &&& !(m.force_rebuild && m.no_rebuild)
    &&& begins_with(m.dockerfile, '/')
    &&& begins_with(m.build_context, '/')
    &&& all_absolute(m.pre_build)
    &&& all_absolute(m.pre_run)
    &&& all_absolute(m.post_run)
}

proof fn lemma_keep_unremoved(s: Seq<(Seq<char>, EntryModel)>)
    ensures
        no_removal(keep_unremoved(s)),
    decreases s.len(),
{
    if s.len() > 0 {
        lemma_keep_unremoved(s.drop_last());
    }
}

proof fn lemma_expanded_paths_absolute(s: Seq<Seq<char>>, home: Seq<char>, cwd: Seq<char>)
    ensures
        all_absolute(expanded_paths(s, home, cwd)),
{
    assert forall|i: int| 0 <= i < expanded_paths(s, home, cwd).len() implies begins_with(
        #[trigger] expanded_paths(s, home, cwd)[i],
        '/',
    ) by {
        law_resolved_paths_are_normalized(s[i], home, cwd);
    }
}

/// A configuration that `finalize_config` accepts comes out resolved: whatever the sources
/// held, the build and run steps receive no removal sentinel, no same-path volume, no target
/// sentinel, and only absolute paths.
pub proof fn law_finalized_config_is_resolved(m: ConfigModel, home: Seq<char>, cwd: Seq<char>)
    requires
        config_is_valid(cleaned(m)),
    ensures
        is_resolved(expanded(cleaned(m), home, cwd)),
{
    let c = cleaned(m);
    let r = expanded(c, home, cwd);
    lemma_keep_unremoved(m.build_arguments);
    lemma_keep_unremoved(m.volumes);
    lemma_keep_unremoved(m.environment_variables);
    assert(check_passes(c, 4));
    assert(check_passes(c, 5));
    assert(check_passes(c, 7));
    assert(check_passes(c, 8));
    assert forall|i: int| 0 <= i < r.volumes.len() implies #[trigger] r.volumes[i].1 is Literal by {
        assert(!(c.volumes[i].1 is Removal));
    }
    law_resolved_paths_are_normalized(c.dockerfile, home, cwd);
    law_resolved_paths_are_normalized(c.build_context, home, cwd);
    lemma_expanded_paths_absolute(c.pre_build, home, cwd);
    lemma_expanded_paths_absolute(c.pre_run, home, cwd);
    lemma_expanded_paths_absolute(c.post_run, home, cwd);
}


/// Not a removal sentinel.
pub open spec fn is_live(p: (Seq<char>, EntryModel)) -> bool {
    !(p.1 is Removal)
}

proof fn lemma_keep_unremoved_is_filter(s: Seq<(Seq<char>, EntryModel)>)
    ensures
        keep_unremoved(s) == s.filter(|p: (Seq<char>, EntryModel)| is_live(p)),
    decreases s.len(),
{
    reveal_with_fuel(Seq::filter, 2);
    if s.len() > 0 {
        lemma_keep_unremoved_is_filter(s.drop_last());
    }
}

proof fn lemma_live_entries_kept(s: Seq<(Seq<char>, EntryModel)>)
    ensures
        forall|p: (Seq<char>, EntryModel)|
            #[trigger] keep_unremoved(s).contains(p) <==> (s.contains(p) && is_live(p)),
        keep_unremoved(s) == s.filter(|p: (Seq<char>, EntryModel)| is_live(p)),
    decreases s.len(),
{
    lemma_keep_unremoved_is_filter(s);
    if s.len() > 0 {
        let init = s.drop_last();
        lemma_live_entries_kept(init);
        let k = keep_unremoved(init);
        assert forall|p: (Seq<char>, EntryModel)|
            #[trigger] keep_unremoved(s).contains(p) <==> (s.contains(p) && is_live(p)) by {
            if keep_unremoved(s).contains(p) {
                let i = choose|i: int| 0 <= i < keep_unremoved(s).len() && keep_unremoved(s)[i] == p;
                if i < k.len() {
                    assert(k[i] == p);
                    assert(k.contains(p));
                    let j = choose|j: int| 0 <= j < init.len() && init[j] == p;
                    assert(s[j] == p);
                } else {
                    assert(s[s.len() - 1] == p);
                }
            }
            if s.contains(p) && is_live(p) {
                let j = choose|j: int| 0 <= j < s.len() && s[j] == p;
                if j < s.len() - 1 {
                    assert(init[j] == p);
                    assert(init.contains(p));
                    assert(k.contains(p));
                    let i = choose|i: int| 0 <= i < k.len() && k[i] == p;
                    if is_live(s.last()) {
                        assert(keep_unremoved(s) == k.push(s.last()));
                    } else {
                        assert(keep_unremoved(s) == k);
                    }
                    assert(keep_unremoved(s)[i] == p);
                } else {
                    assert(keep_unremoved(s) == k.push(p));
                    assert(keep_unremoved(s)[k.len() as int] == p);
                }
            }
        }
    } else {
        assert forall|p: (Seq<char>, EntryModel)|
            #[trigger] keep_unremoved(s).contains(p) <==> (s.contains(p) && is_live(p)) by {}
    }
}

/// Cleaning drops the removal sentinels of the build arguments, volumes and environment
/// variables and nothing else: each cleaned map is its input with the removal sentinels
/// filtered out, in order, so an entry is kept exactly when it was there and is not a removal
/// sentinel.
pub proof fn law_cleaning_drops_only_removals(m: ConfigModel)
    ensures
        cleaned(m).build_arguments == m.build_arguments.filter(
            |p: (Seq<char>, EntryModel)| is_live(p),
        ),
        cleaned(m).volumes == m.volumes.filter(|p: (Seq<char>, EntryModel)| is_live(p)),
        cleaned(m).environment_variables == m.environment_variables.filter(
            |p: (Seq<char>, EntryModel)| is_live(p),
        ),
        forall|p: (Seq<char>, EntryModel)|
            #[trigger] cleaned(m).build_arguments.contains(p) <==> (m.build_arguments.contains(p)
                && is_live(p)),
        forall|p: (Seq<char>, EntryModel)|
            #[trigger] cleaned(m).volumes.contains(p) <==> (m.volumes.contains(p) && is_live(p)),
        forall|p: (Seq<char>, EntryModel)|
            #[trigger] cleaned(m).environment_variables.contains(p) <==> (
            m.environment_variables.contains(p) && is_live(p)),
{
    lemma_live_entries_kept(m.build_arguments);
    lemma_live_entries_kept(m.volumes);
    lemma_live_entries_kept(m.environment_variables);
}

/// Path expansion keeps every volume and its container path, and treats its host path by its
/// form alone:
/// - an absolute host path, and a relative one that neither starts with `.` nor holds `/`
///   (a Docker volume name), stay as they are;
/// - any other relative host path (starting with `.` or holding `/`) becomes a normalized
///   absolute path, which for a path not starting with `~` is `cwd/path` normalized;
/// - a same-path volume mounts its container path, and a removal sentinel stays one.
pub proof fn law_volume_host_paths_are_resolved(m: ConfigModel, home: Seq<char>, cwd: Seq<char>)
    ensures
        expanded(m, home, cwd).volumes.len() == m.volumes.len(),
        forall|i: int|
            0 <= i < m.volumes.len() ==> {
                let v = #[trigger] expanded(m, home, cwd).volumes[i];
                &&& v.0 == m.volumes[i].0
                &&& match m.volumes[i].1 {
                    EntryModel::Literal(h) => if begins_with(h, '/') || !(begins_with(h, '.')
                        || h.contains('/')) {
                        v.1 == EntryModel::Literal(h)
                    } else {
                        v.1 matches EntryModel::Literal(r) && begins_with(r, '/')
                            && spec_normalize_absolute_path(r) == r && (!begins_with(h, '~') ==> r
                            == spec_normalize_absolute_path(cwd + seq!['/'] + h))
                    },
                    EntryModel::Shorthand => v.1 == EntryModel::Literal(m.volumes[i].0),
                    EntryModel::Removal => v.1 == EntryModel::Removal,
                }
            },
{
    assert forall|i: int| 0 <= i < m.volumes.len() implies {
        let v = #[trigger] expanded(m, home, cwd).volumes[i];
        &&& v.0 == m.volumes[i].0
        &&& match m.volumes[i].1 {
            EntryModel::Literal(h) => if begins_with(h, '/') || !(begins_with(h, '.')
                || h.contains('/')) {
                v.1 == EntryModel::Literal(h)
            } else {
                v.1 matches EntryModel::Literal(r) && begins_with(r, '/')
                    && spec_normalize_absolute_path(r) == r && (!begins_with(h, '~') ==> r
                    == spec_normalize_absolute_path(cwd + seq!['/'] + h))
            },
            EntryModel::Shorthand => v.1 == EntryModel::Literal(m.volumes[i].0),
            EntryModel::Removal => v.1 == EntryModel::Removal,
        }
    } by {
        if let EntryModel::Literal(h) = m.volumes[i].1 {
            law_resolved_paths_are_normalized(h, home, cwd);
        }
    }
}

} // verus!
