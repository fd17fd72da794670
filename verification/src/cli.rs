//! Command-line arguments and their parsing into configuration entries.

use vstd::prelude::*;
use crate::config::{option_model, strings_model};
use crate::entries::{
    entries_model, keys_distinct, BuildArgumentEntry, EntryModel, EnvironmentVariableEntry,
    MapEntry, VolumeEntry,
};
use crate::error::ConfigError;
use crate::layers::{
    chars_equal, law_layer_without_key_changes_nothing, law_top_layer_scalar_wins,
    lemma_lookup_concat, lookup, merged_layers, table_model, volumes_key, volumes_key_chars,
    without_key, Layer, Leaf, LeafModel, Node, NodeModel,
};
use crate::entries::entry_leaf_model;
use crate::slugify::is_kept_char;
use crate::text::{
    chars_of, find_first, find_last_char, first_index, last_index,
    lemma_first_index, lemma_last_index, owned, string_of, sub_chars,
};

verus! {

/// CLI arguments.
#[derive(Debug)]
pub struct CliArgs {
    /// Path to the Dockerfile. Defaults to `.agentcontainer/Dockerfile`.
    pub dockerfile: Option<String>,
    /// Directory used as the Docker build context. Defaults to the current working directory.
    pub build_context: Option<String>,
    /// Build arguments as `KEY=value`, `KEY` (inherit from host) or `!KEY` (remove).
    pub build_arguments: Vec<String>,
    /// Executables to run before `docker build`.
    pub pre_build: Vec<String>,
    /// Name used in the Docker image tag.
    pub project_name: Option<String>,
    /// Username for the image tag.
    pub username: Option<String>,
    /// Docker build `--target`.
    pub target: Option<String>,
    /// Use a stale image if the build fails.
    pub allow_stale: bool,
    /// Force rebuild regardless of staleness.
    pub force_rebuild: bool,
    /// Pass `--no-cache` to `docker build`.
    pub no_build_cache: bool,
    /// Skip rebuild; error if no image exists.
    pub no_rebuild: bool,
    /// Volumes as `host:container`, `/path` (same path) or `!/path` (remove).
    pub volumes: Vec<String>,
    /// Environment variables as `KEY=value`, `KEY` (inherit) or `!KEY` (remove).
    pub environment_variables: Vec<String>,
    /// Executables to run before `docker run`.
    pub pre_run: Vec<String>,
    /// Executables to run after `docker run`.
    pub post_run: Vec<String>,
    /// The subcommand.
    pub command: Command,
}

/// Subcommands.
#[derive(Debug)]
pub enum Command {
    /// Print the resolved configuration.
    Config,
    /// Build the agent container image.
    Build,
    /// Run the agent container.
    Run {
        /// Arguments to pass through to the container entrypoint.
        container_args: Vec<String>,
    },
}


/// An ASCII letter.
pub open spec fn is_ascii_alpha(c: char) -> bool {
    ('a' <= c && c <= 'z') || ('A' <= c && c <= 'Z')
}

/// A POSIX identifier: `[A-Za-z_][A-Za-z0-9_]*`.
pub open spec fn spec_is_valid_env_var_key(k: Seq<char>) -> bool {
    &&& k.len() > 0
    &&& (is_ascii_alpha(k[0]) || k[0] == '_')
    &&& forall|i: int| 0 <= i < k.len() ==> is_kept_char(#[trigger] k[i])
}

/// Whether the characters in `k` form a valid environment variable key.
fn valid_key_chars(k: &Vec<char>) -> (res: bool)
    ensures
        res == spec_is_valid_env_var_key(k@),
{
    if k.len() == 0 {
        return false;
    }
    let first = k[0];
    if !(('a' <= first && first <= 'z') || ('A' <= first && first <= 'Z') || first == '_') {
        return false;
    }
    let mut i: usize = 0;
    while i < k.len()
        invariant
            i <= k.len(),
            forall|j: int| 0 <= j < i ==> is_kept_char(#[trigger] k@[j]),
        decreases k.len() - i,
    {
        let c = k[i];
        if !(('a' <= c && c <= 'z') || ('A' <= c && c <= 'Z') || ('0' <= c && c <= '9') || c == '_') {
            return false;
        }
        i = i + 1;
    }
    true
}

/// Check whether a string is a valid environment variable key.
///
/// Valid keys match the POSIX pattern `[A-Za-z_][A-Za-z0-9_]*`.
pub fn is_valid_env_var_key(key: &str) -> (res: bool)
    ensures
        res == spec_is_valid_env_var_key(key@),
{
    let k = chars_of(key);
    valid_key_chars(&k)
}

/// Which configuration map a command-line entry belongs to.
#[derive(Clone, Copy, Debug)]
pub enum EntryKind {
    /// `--build-arg`.
    BuildArgument,
    /// `--volume`.
    Volume,
    /// `--env`.
    EnvironmentVariable,
}

/// The reading of one command-line entry.
pub enum ParsedEntry {
    /// A key and the entry for it.
    Parsed(Seq<char>, EntryModel),
    /// The argument does not have an accepted form.
    Malformed,
    /// The key is not a valid identifier.
    BadKey(Seq<char>),
}

/// A `--build-arg` or `--env` argument: `!KEY` removes, `KEY=value` (split at the first `=`)
/// sets a literal, and `KEY` alone inherits from the host.
pub open spec fn parse_keyed_entry(raw: Seq<char>) -> ParsedEntry {
    if raw.len() == 0 {
        ParsedEntry::Malformed
    } else if raw[0] == '!' {
        let key = raw.drop_first();
        if spec_is_valid_env_var_key(key) {
            ParsedEntry::Parsed(key, EntryModel::Removal)
        } else {
            ParsedEntry::BadKey(key)
        }
    } else if raw.contains('=') {
        let i = first_index(raw, '=');
        let key = raw.take(i);
        if spec_is_valid_env_var_key(key) {
            ParsedEntry::Parsed(key, EntryModel::Literal(raw.skip(i + 1)))
        } else {
            ParsedEntry::BadKey(key)
        }
    } else if spec_is_valid_env_var_key(raw) {
        ParsedEntry::Parsed(raw, EntryModel::Shorthand)
    } else {
        ParsedEntry::BadKey(raw)
    }
}

/// A `--volume` argument: `!/container` removes, `host:container` (split at the last `:`)
/// mounts a host path, and a bare `/path` mounts the same path.
pub open spec fn parse_volume_entry(raw: Seq<char>) -> ParsedEntry {
    if raw.len() == 0 {
        ParsedEntry::Malformed
    } else if raw[0] == '!' {
        let container_path = raw.drop_first();
        if container_path.len() == 0 || container_path.contains(':') {
            ParsedEntry::Malformed
        } else {
            ParsedEntry::Parsed(container_path, EntryModel::Removal)
        }
    } else if raw.contains(':') {
        let i = last_index(raw, ':');
        let host_path = raw.take(i);
        let container_path = raw.skip(i + 1);
        if host_path.len() == 0 || host_path.contains(':') || container_path.len() == 0 {
            ParsedEntry::Malformed
        } else {
            ParsedEntry::Parsed(container_path, EntryModel::Literal(host_path))
        }
    } else {
        ParsedEntry::Parsed(raw, EntryModel::Shorthand)
    }
}

/// The reading of a command-line entry of the given kind.
pub open spec fn parse_entry(kind: EntryKind, raw: Seq<char>) -> ParsedEntry {
    match kind {
        EntryKind::Volume => parse_volume_entry(raw),
        _ => parse_keyed_entry(raw),
    }
}

/// `e` is the error reported for the command-line entry `raw` of the given kind.
pub open spec fn entry_error_fits(kind: EntryKind, raw: Seq<char>, e: ConfigError) -> bool {
    match (kind, parse_entry(kind, raw), e) {
        (EntryKind::BuildArgument, ParsedEntry::Malformed, ConfigError::InvalidBuildArgument { value }) => value@ == raw,
        (EntryKind::BuildArgument, ParsedEntry::BadKey(k), ConfigError::InvalidBuildArgumentKey { key }) => key@ == k,
        (EntryKind::Volume, ParsedEntry::Malformed, ConfigError::InvalidVolume { value }) => value@ == raw,
        (EntryKind::EnvironmentVariable, ParsedEntry::Malformed, ConfigError::InvalidEnvironmentVariable { value }) => value@ == raw,
        (EntryKind::EnvironmentVariable, ParsedEntry::BadKey(k), ConfigError::InvalidEnvironmentVariableKey { key }) => key@ == k,
        _ => false,
    }
}

/// Every entry of `raws` has an accepted form.
pub open spec fn all_parse(kind: EntryKind, raws: Seq<Seq<char>>) -> bool {
    forall|i: int| 0 <= i < raws.len() ==> #[trigger] parse_entry(kind, raws[i]) is Parsed
}

/// The key and entry read from a command-line argument that has an accepted form.
pub open spec fn parsed_pair(kind: EntryKind, raw: Seq<char>) -> (Seq<char>, EntryModel) {
    match parse_entry(kind, raw) {
        ParsedEntry::Parsed(k, m) => (k, m),
        _ => (Seq::<char>::empty(), EntryModel::Removal),
    }
}

/// `m` with the pair `p` assigned: an earlier pair for the same key is dropped and `p` comes
/// last, as an insertion into a map replaces the key's value.
pub open spec fn assign(m: Seq<(Seq<char>, EntryModel)>, p: (Seq<char>, EntryModel)) -> Seq<(Seq<char>, EntryModel)> {
    without_key(m, p.0).push(p)
}

/// The map that assigning the pairs of `ps` in order produces.
pub open spec fn assign_all(ps: Seq<(Seq<char>, EntryModel)>) -> Seq<(Seq<char>, EntryModel)>
    decreases ps.len(),
{
    if ps.len() == 0 {
        Seq::empty()
    } else {
        assign(assign_all(ps.drop_last()), ps.last())
    }
}

/// The map read from command-line arguments of one kind: a later argument for a key replaces
/// an earlier one.
pub open spec fn parsed_map(kind: EntryKind, raws: Seq<Seq<char>>) -> Seq<(Seq<char>, EntryModel)> {
    assign_all(raws.map_values(|r: Seq<char>| parsed_pair(kind, r)))
}

/// `without_key` drops exactly the one pair for `k` of a map whose only pair for `k` is at `j`.
proof fn lemma_without_key_at(s: Seq<(Seq<char>, EntryModel)>, k: Seq<char>, j: int)
    requires
        0 <= j < s.len(),
        s[j].0 == k,
        forall|i: int| 0 <= i < s.len() && i != j ==> #[trigger] s[i].0 != k,
    ensures
        without_key(s, k) == s.remove(j),
    decreases s.len(),
{
    let init = s.drop_last();
    if j == s.len() - 1 {
        assert forall|i: int| 0 <= i < init.len() implies #[trigger] init[i].0 != k by {
            assert(init[i] == s[i]);
        }
        lemma_without_key_absent(init, k);
        assert(s.remove(j) =~= init);
    } else {
        assert forall|i: int| 0 <= i < init.len() && i != j implies #[trigger] init[i].0 != k by {
            assert(init[i] == s[i]);
        }
        assert(init[j] == s[j]);
        lemma_without_key_at(init, k, j);
        assert(s[s.len() - 1].0 != k);
        assert(init.remove(j).push(s.last()) =~= s.remove(j));
    }
}

/// `without_key` changes nothing when no pair has key `k`.
proof fn lemma_without_key_absent(s: Seq<(Seq<char>, EntryModel)>, k: Seq<char>)
    requires
        forall|i: int| 0 <= i < s.len() ==> #[trigger] s[i].0 != k,
    ensures
        without_key(s, k) == s,
    decreases s.len(),
{
    if s.len() > 0 {
        let init = s.drop_last();
        assert forall|i: int| 0 <= i < init.len() implies #[trigger] init[i].0 != k by {
            assert(init[i] == s[i]);
        }
        lemma_without_key_absent(init, k);
        assert(s[s.len() - 1].0 != k);
        assert(init.push(s.last()) =~= s);
    }
}

/// `e` reports the first entry of `raws` that cannot be read.
pub open spec fn reports_first_bad_entry(kind: EntryKind, raws: Seq<Seq<char>>, e: ConfigError) -> bool {
    exists|i: int|
        0 <= i < raws.len() && (forall|j: int| 0 <= j < i ==> #[trigger] parse_entry(kind, raws[j]) is Parsed)
            && !(#[trigger] parse_entry(kind, raws[i]) is Parsed) && entry_error_fits(kind, raws[i], e)
}

/// The error for a malformed entry of the given kind.
fn malformed_error(kind: EntryKind, raw: String) -> (res: ConfigError)
    ensures
        match (kind, res) {
            (EntryKind::BuildArgument, ConfigError::InvalidBuildArgument { value }) => value@ == raw@,
            (EntryKind::Volume, ConfigError::InvalidVolume { value }) => value@ == raw@,
            (EntryKind::EnvironmentVariable, ConfigError::InvalidEnvironmentVariable { value }) => value@ == raw@,
            _ => false,
        },
{
    match kind {
        EntryKind::BuildArgument => ConfigError::InvalidBuildArgument { value: raw },
        EntryKind::Volume => ConfigError::InvalidVolume { value: raw },
        EntryKind::EnvironmentVariable => ConfigError::InvalidEnvironmentVariable { value: raw },
    }
}

/// The error for an invalid key of the given kind (build arguments and environment variables).
fn bad_key_error(kind: EntryKind, key: String) -> (res: ConfigError)
    requires
        !(kind is Volume),
    ensures
        match (kind, res) {
            (EntryKind::BuildArgument, ConfigError::InvalidBuildArgumentKey { key: k }) => k@ == key@,
            (EntryKind::EnvironmentVariable, ConfigError::InvalidEnvironmentVariableKey { key: k }) => k@ == key@,
            _ => false,
        },
{
    match kind {
        EntryKind::EnvironmentVariable => ConfigError::InvalidEnvironmentVariableKey { key },
        _ => ConfigError::InvalidBuildArgumentKey { key },
    }
}

/// Read one `--build-arg` or `--env` argument.
fn parse_keyed<E: MapEntry>(kind: EntryKind, raw: &String) -> (res: Result<(String, E), ConfigError>)
    requires
        !(kind is Volume),
    ensures
        match res {
            Ok(p) => parse_entry(kind, raw@) == ParsedEntry::Parsed(p.0@, p.1.model()),
            Err(e) => !(parse_entry(kind, raw@) is Parsed) && entry_error_fits(kind, raw@, e),
        },
{
    let cs = chars_of(raw.as_str());
    if cs.len() == 0 {
        return Err(malformed_error(kind, raw.clone()));
    }
    if cs[0] == '!' {
        let key = sub_chars(&cs, 1, cs.len());
        assert(key@ =~= raw@.drop_first());
        let key_string = string_of(key.as_slice());
        if valid_key_chars(&key) {
            return Ok((key_string, E::removal()));
        } else {
            return Err(bad_key_error(kind, key_string));
        }
    }
    match find_first(&cs, '=') {
        Some(i) => {
            proof {
                lemma_first_index(raw@, '=', i as int);
            }
            let key = sub_chars(&cs, 0, i);
            let value = sub_chars(&cs, i + 1, cs.len());
            assert(key@ =~= raw@.take(i as int));
            assert(value@ =~= raw@.skip(i + 1));
            let key_string = string_of(key.as_slice());
            if valid_key_chars(&key) {
                Ok((key_string, E::literal(string_of(value.as_slice()))))
            } else {
                Err(bad_key_error(kind, key_string))
            }
        },
        None => {
            if valid_key_chars(&cs) {
                Ok((raw.clone(), E::shorthand()))
            } else {
                Err(bad_key_error(kind, raw.clone()))
            }
        },
    }
}

/// Read one `--volume` argument.
fn parse_volume<E: MapEntry>(raw: &String) -> (res: Result<(String, E), ConfigError>)
    ensures
        match res {
            Ok(p) => parse_entry(EntryKind::Volume, raw@) == ParsedEntry::Parsed(p.0@, p.1.model()),
            Err(e) => !(parse_entry(EntryKind::Volume, raw@) is Parsed) && entry_error_fits(
                EntryKind::Volume,
                raw@,
                e,
            ),
        },
{
    let cs = chars_of(raw.as_str());
    if cs.len() == 0 {
        return Err(malformed_error(EntryKind::Volume, raw.clone()));
    }
    if cs[0] == '!' {
        let container_path = sub_chars(&cs, 1, cs.len());
        assert(container_path@ =~= raw@.drop_first());
        if container_path.len() == 0 || find_first(&container_path, ':').is_some() {
            return Err(malformed_error(EntryKind::Volume, raw.clone()));
        }
        return Ok((string_of(container_path.as_slice()), E::removal()));
    }
    match find_last_char(&cs, ':') {
        Some(i) => {
            proof {
                lemma_last_index(raw@, ':', i as int);
            }
            let host_path = sub_chars(&cs, 0, i);
            let container_path = sub_chars(&cs, i + 1, cs.len());
            assert(host_path@ =~= raw@.take(i as int));
            assert(container_path@ =~= raw@.skip(i + 1));
            if host_path.len() == 0 || find_first(&host_path, ':').is_some() || container_path.len()
                == 0 {
                return Err(malformed_error(EntryKind::Volume, raw.clone()));
            }
            Ok((string_of(container_path.as_slice()), E::literal(string_of(host_path.as_slice()))))
        },
        None => Ok((raw.clone(), E::shorthand())),
    }
}

/// The position of the pair with key `k` in `v`, if there is one.
fn position_of_key<E: MapEntry>(v: &Vec<(String, E)>, k: &String) -> (res: Option<usize>)
    ensures
        match res {
            Some(j) => j < v@.len() && v@[j as int].0@ == k@,
            None => forall|i: int| 0 <= i < v@.len() ==> #[trigger] v@[i].0@ != k@,
        },
{
    let kc = chars_of(k.as_str());
    let mut i: usize = 0;
    while i < v.len()
        invariant
            i <= v@.len(),
            kc@ == k@,
            forall|m: int| 0 <= m < i ==> #[trigger] v@[m].0@ != k@,
        decreases v.len() - i,
    {
        let cand = chars_of(v[i].0.as_str());
        if chars_equal(&cand, &kc) {
            return Some(i);
        }
        i = i + 1;
    }
    None
}

/// Read a list of command-line entries of one kind into a map, in order: a later entry for a
/// key replaces an earlier one, and the first unreadable entry is reported.
fn parse_entries<E: MapEntry>(kind: EntryKind, raws: &[String]) -> (res: Result<Vec<(String, E)>, ConfigError>)
    ensures
        res is Ok <==> all_parse(kind, strings_model(raws@)),
        match res {
            Ok(v) => entries_model(v@) == parsed_map(kind, strings_model(raws@)) && keys_distinct(
                entries_model(v@),
            ),
            Err(e) => reports_first_bad_entry(kind, strings_model(raws@), e),
        },
{
    let ghost rs = strings_model(raws@);
    let ghost ps = rs.map_values(|r: Seq<char>| parsed_pair(kind, r));
    let mut out: Vec<(String, E)> = Vec::new();
    let mut i: usize = 0;
    assert(ps.take(0) =~= Seq::<(Seq<char>, EntryModel)>::empty());
    assert(entries_model(out@) =~= Seq::<(Seq<char>, EntryModel)>::empty());
    while i < raws.len()
        invariant
            i <= raws@.len(),
            rs == strings_model(raws@),
            ps == rs.map_values(|r: Seq<char>| parsed_pair(kind, r)),
            forall|j: int| 0 <= j < i ==> #[trigger] parse_entry(kind, rs[j]) is Parsed,
            entries_model(out@) == assign_all(ps.take(i as int)),
            keys_distinct(entries_model(out@)),
        decreases raws.len() - i,
    {
        let parsed = match kind {
            EntryKind::Volume => parse_volume::<E>(&raws[i]),
            _ => parse_keyed(kind, &raws[i]),
        };
        assert(rs[i as int] == raws@[i as int]@);
        match parsed {
            Ok(pair) => {
                let ghost before = entries_model(out@);
                let ghost p = (pair.0@, pair.1.model());
                assert(ps[i as int] == p);
                assert(ps.take(i + 1).drop_last() =~= ps.take(i as int));
                assert(ps.take(i + 1).last() == p);
                match position_of_key(&out, &pair.0) {
                    Some(j) => {
                        proof {
                            assert(before[j as int].0 == p.0);
                            assert forall|m: int| 0 <= m < before.len() && m != j implies #[trigger] before[m].0 != p.0 by {
                                if m < j {
                                    assert(before[m].0 != before[j as int].0);
                                } else {
                                    assert(before[j as int].0 != before[m].0);
                                }
                            }
                            lemma_without_key_at(before, p.0, j as int);
                        }
                        out.remove(j);
                        assert(entries_model(out@) =~= before.remove(j as int));
                    },
                    None => {
                        proof {
                            assert forall|m: int| 0 <= m < before.len() implies #[trigger] before[m].0 != p.0 by {
                                assert(before[m].0 == out@[m].0@);
                            }
                            lemma_without_key_absent(before, p.0);
                        }
                    },
                }
                let ghost rest = entries_model(out@);
                assert(rest == without_key(before, p.0));
                proof {
                    assert forall|m: int| 0 <= m < rest.len() implies #[trigger] rest[m].0 != p.0 by {
                        assert(rest[m].0 == out@[m].0@);
                    }
                }
                out.push(pair);
                assert(entries_model(out@) =~= rest.push(p));
                proof {
                    let now = entries_model(out@);
                    assert forall|a: int, b: int| 0 <= a < b < now.len() implies #[trigger] now[a].0 != #[trigger] now[b].0 by {
                        if b == now.len() - 1 {
                            assert(now[a] == rest[a]);
                        } else {
                            assert(now[a] == rest[a] && now[b] == rest[b]);
                        }
                    }
                }
            },
            Err(e) => {
                assert(!all_parse(kind, rs));
                return Err(e);
            },
        }
        i = i + 1;
    }
    assert(ps.take(raws.len() as int) =~= ps);
    Ok(out)
}

/// Parse the `--build-arg` arguments: `KEY=value` (split at the first `=`) gives a value,
/// `KEY` alone inherits from the host, and `!KEY` removes. Keys must be valid identifiers.
///
/// Where a key comes twice, the later argument replaces the earlier one.
pub fn parse_cli_build_arguments(raw_build_args: &[String]) -> (res: Result<Vec<(String, BuildArgumentEntry)>, ConfigError>)
    ensures
        res is Ok <==> all_parse(EntryKind::BuildArgument, strings_model(raw_build_args@)),
        match res {
            Ok(v) => entries_model(v@) == parsed_map(EntryKind::BuildArgument, strings_model(raw_build_args@))
                && keys_distinct(entries_model(v@)),
            Err(e) => reports_first_bad_entry(EntryKind::BuildArgument, strings_model(raw_build_args@), e),
        },
{
    parse_entries(EntryKind::BuildArgument, raw_build_args)
}

/// Parse the `--volume` arguments: `host:container` (split at the last `:`) mounts a host
/// path, a bare `/path` mounts the same path, and `!/container` removes.
///
/// The entries are keyed by container path; where a key comes twice, the later argument
/// replaces the earlier one.
pub fn parse_cli_volumes(raw_volumes: &[String]) -> (res: Result<Vec<(String, VolumeEntry)>, ConfigError>)
    ensures
        res is Ok <==> all_parse(EntryKind::Volume, strings_model(raw_volumes@)),
        match res {
            Ok(v) => entries_model(v@) == parsed_map(EntryKind::Volume, strings_model(raw_volumes@))
                && keys_distinct(entries_model(v@)),
            Err(e) => reports_first_bad_entry(EntryKind::Volume, strings_model(raw_volumes@), e),
        },
{
    parse_entries(EntryKind::Volume, raw_volumes)
}

/// Parse the `--env` arguments: `KEY=value` (split at the first `=`) gives a value, `KEY`
/// alone inherits from the host, and `!KEY` removes. Keys must be valid identifiers.
///
/// Where a key comes twice, the later argument replaces the earlier one.
pub fn parse_cli_environment_variables(raw_env_vars: &[String]) -> (res: Result<Vec<(String, EnvironmentVariableEntry)>, ConfigError>)
    ensures
        res is Ok <==> all_parse(EntryKind::EnvironmentVariable, strings_model(raw_env_vars@)),
        match res {
            Ok(v) => entries_model(v@) == parsed_map(EntryKind::EnvironmentVariable, strings_model(raw_env_vars@))
                && keys_distinct(entries_model(v@)),
            Err(e) => reports_first_bad_entry(EntryKind::EnvironmentVariable, strings_model(raw_env_vars@), e),
        },
{
    parse_entries(EntryKind::EnvironmentVariable, raw_env_vars)
}

/// The table pairs read from command-line entries of one kind (each entry in its
/// configuration-source form).
pub open spec fn cli_pairs(kind: EntryKind, raws: Seq<Seq<char>>) -> Seq<(Seq<char>, LeafModel)> {
    parsed_map(kind, raws).map_values(|e: (Seq<char>, EntryModel)| (e.0, entry_leaf_model(e.1)))
}

/// A table entry, present only when the table is not empty.
pub open spec fn table_entry(key: Seq<char>, t: Seq<(Seq<char>, LeafModel)>) -> Seq<(Seq<char>, NodeModel)> {
    if t.len() == 0 {
        Seq::empty()
    } else {
        seq![(key, NodeModel::Table(t))]
    }
}

/// A list entry of strings, present only when the list is not empty.
pub open spec fn list_entry(key: Seq<char>, items: Seq<Seq<char>>) -> Seq<(Seq<char>, NodeModel)> {
    if items.len() == 0 {
        Seq::empty()
    } else {
        seq![(key, NodeModel::List(items.map_values(|x: Seq<char>| LeafModel::Text(x))))]
    }
}

/// A string entry, present only when the value was given.
pub open spec fn text_entry(key: Seq<char>, v: Option<Seq<char>>) -> Seq<(Seq<char>, NodeModel)> {
    match v {
        Some(s) => seq![(key, NodeModel::Scalar(LeafModel::Text(s)))],
        None => Seq::empty(),
    }
}

/// A `true` flag entry, present only when the flag was given.
pub open spec fn flag_entry(key: Seq<char>, b: bool) -> Seq<(Seq<char>, NodeModel)> {
    if b {
        seq![(key, NodeModel::Scalar(LeafModel::Flag(true)))]
    } else {
        Seq::empty()
    }
}

/// The layer that the command line contributes: only what was actually given, so that an
/// absent argument never overrides a lower-priority source.
pub open spec fn cli_layer_model(cli: CliArgs) -> Seq<(Seq<char>, NodeModel)> {
    table_entry("build_arguments"@, cli_pairs(EntryKind::BuildArgument, strings_model(cli.build_arguments@)))
        + table_entry(volumes_key(), cli_pairs(EntryKind::Volume, strings_model(cli.volumes@)))
        + table_entry(
        "environment_variables"@,
        cli_pairs(EntryKind::EnvironmentVariable, strings_model(cli.environment_variables@)),
    ) + list_entry("pre_build"@, strings_model(cli.pre_build@)) + list_entry(
        "pre_run"@,
        strings_model(cli.pre_run@),
    ) + list_entry("post_run"@, strings_model(cli.post_run@)) + text_entry(
        "dockerfile"@,
        option_model(cli.dockerfile),
    ) + text_entry("build_context"@, option_model(cli.build_context)) + text_entry(
        "project_name"@,
        option_model(cli.project_name),
    ) + text_entry("username"@, option_model(cli.username)) + text_entry(
        "target"@,
        option_model(cli.target),
    ) + flag_entry("allow_stale"@, cli.allow_stale) + flag_entry(
        "force_rebuild"@,
        cli.force_rebuild,
    ) + flag_entry("no_build_cache"@, cli.no_build_cache) + flag_entry(
        "no_rebuild"@,
        cli.no_rebuild,
    )
}

/// Whether the command line gives the configuration key `k` a value: a non-empty list of
/// entries or paths, a string, or a set flag.
pub open spec fn cli_sets(cli: CliArgs, k: Seq<char>) -> bool {
    ||| k == "build_arguments"@ && cli.build_arguments@.len() > 0
    ||| k == volumes_key() && cli.volumes@.len() > 0
    ||| k == "environment_variables"@ && cli.environment_variables@.len() > 0
    ||| k == "pre_build"@ && cli.pre_build@.len() > 0
    ||| k == "pre_run"@ && cli.pre_run@.len() > 0
    ||| k == "post_run"@ && cli.post_run@.len() > 0
    ||| k == "dockerfile"@ && cli.dockerfile is Some
    ||| k == "build_context"@ && cli.build_context is Some
    ||| k == "project_name"@ && cli.project_name is Some
    ||| k == "username"@ && cli.username is Some
    ||| k == "target"@ && cli.target is Some
    ||| k == "allow_stale"@ && cli.allow_stale
    ||| k == "force_rebuild"@ && cli.force_rebuild
    ||| k == "no_build_cache"@ && cli.no_build_cache
    ||| k == "no_rebuild"@ && cli.no_rebuild
}

proof fn lemma_lookup_single(key: Seq<char>, v: NodeModel, k: Seq<char>)
    ensures
        lookup(seq![(key, v)], k) == if key == k {
            Some(v)
        } else {
            None::<NodeModel>
        },
{
    let s = seq![(key, v)];
    assert(s.drop_last() =~= Seq::<(Seq<char>, NodeModel)>::empty());
    assert(lookup(Seq::<(Seq<char>, NodeModel)>::empty(), k) is None);
    assert(s.last() == (key, v));
}

proof fn lemma_segment_key(seg: Seq<(Seq<char>, NodeModel)>, key: Seq<char>, given: bool, k: Seq<char>)
    requires
        seg.len() == 0 || (given && seg.len() == 1 && seg[0].0 == key),
    ensures
        lookup(seg, k) is Some ==> given && k == key,
{
    if seg.len() == 1 {
        assert(seg =~= seq![(seg[0].0, seg[0].1)]);
        lemma_lookup_single(seg[0].0, seg[0].1, k);
    } else {
        assert(lookup(seg, k) is None);
    }
}

/// The key of the `j`-th part of the command-line layer (`1 <= j <= 15`), in the order of
/// `cli_layer_model`.
pub open spec fn cli_key(j: int) -> Seq<char> {
    if j == 1 {
        "build_arguments"@
    } else if j == 2 {
        volumes_key()
    } else if j == 3 {
        "environment_variables"@
    } else if j == 4 {
        "pre_build"@
    } else if j == 5 {
        "pre_run"@
    } else if j == 6 {
        "post_run"@
    } else if j == 7 {
        "dockerfile"@
    } else if j == 8 {
        "build_context"@
    } else if j == 9 {
        "project_name"@
    } else if j == 10 {
        "username"@
    } else if j == 11 {
        "target"@
    } else if j == 12 {
        "allow_stale"@
    } else if j == 13 {
        "force_rebuild"@
    } else if j == 14 {
        "no_build_cache"@
    } else {
        "no_rebuild"@
    }
}

/// The `j`-th part of the command-line layer (`1 <= j <= 15`).
pub open spec fn cli_part(cli: CliArgs, j: int) -> Seq<(Seq<char>, NodeModel)> {
    if j == 1 {
        table_entry(cli_key(1), cli_pairs(EntryKind::BuildArgument, strings_model(cli.build_arguments@)))
    } else if j == 2 {
        table_entry(cli_key(2), cli_pairs(EntryKind::Volume, strings_model(cli.volumes@)))
    } else if j == 3 {
        table_entry(
            cli_key(3),
            cli_pairs(EntryKind::EnvironmentVariable, strings_model(cli.environment_variables@)),
        )
    } else if j == 4 {
        list_entry(cli_key(4), strings_model(cli.pre_build@))
    } else if j == 5 {
        list_entry(cli_key(5), strings_model(cli.pre_run@))
    } else if j == 6 {
        list_entry(cli_key(6), strings_model(cli.post_run@))
    } else if j == 7 {
        text_entry(cli_key(7), option_model(cli.dockerfile))
    } else if j == 8 {
        text_entry(cli_key(8), option_model(cli.build_context))
    } else if j == 9 {
        text_entry(cli_key(9), option_model(cli.project_name))
    } else if j == 10 {
        text_entry(cli_key(10), option_model(cli.username))
    } else if j == 11 {
        text_entry(cli_key(11), option_model(cli.target))
    } else if j == 12 {
        flag_entry(cli_key(12), cli.allow_stale)
    } else if j == 13 {
        flag_entry(cli_key(13), cli.force_rebuild)
    } else if j == 14 {
        flag_entry(cli_key(14), cli.no_build_cache)
    } else {
        flag_entry(cli_key(15), cli.no_rebuild)
    }
}

/// A part of the command-line layer holds nothing or one pair, under its own key.
proof fn lemma_cli_part_key(cli: CliArgs, j: int, k: Seq<char>)
    requires
        1 <= j <= 15,
    ensures
        lookup(cli_part(cli, j), k) is Some ==> k == cli_key(j),
{
    let p = cli_part(cli, j);
    if p.len() == 1 {
        assert(p[0].0 == cli_key(j));
    }
    lemma_segment_key(p, cli_key(j), p.len() == 1, k);
}

/// The first `n` parts of the command-line layer, concatenated.
pub open spec fn cli_prefix(cli: CliArgs, n: int) -> Seq<(Seq<char>, NodeModel)>
    decreases n,
{
    if n <= 1 {
        cli_part(cli, 1)
    } else {
        cli_prefix(cli, n - 1) + cli_part(cli, n)
    }
}

proof fn lemma_cli_layer_is_prefix(cli: CliArgs)
    ensures
        cli_layer_model(cli) == cli_prefix(cli, 15),
{
    reveal_with_fuel(cli_prefix, 16);
}

proof fn lemma_cli_prefix_lookup(cli: CliArgs, k: Seq<char>, i: int, n: int)
    requires
        1 <= i <= 15,
        1 <= n <= 15,
        forall|m: int| 1 <= m <= 15 && m != i ==> lookup(#[trigger] cli_part(cli, m), k) is None,
    ensures
        lookup(cli_prefix(cli, n), k) == (if i <= n {
            lookup(cli_part(cli, i), k)
        } else {
            None::<NodeModel>
        }),
    decreases n,
{
    if n > 1 {
        lemma_cli_prefix_lookup(cli, k, i, n - 1);
        lemma_lookup_concat(cli_prefix(cli, n - 1), cli_part(cli, n), k);
    }
}

/// The layer's value for a key that only the `i`-th part can hold is that part's value.
proof fn lemma_cli_lookup_unique(cli: CliArgs, k: Seq<char>, i: int)
    requires
        1 <= i <= 15,
        forall|j: int| 1 <= j <= 15 && j != i ==> k != #[trigger] cli_key(j),
    ensures
        lookup(cli_layer_model(cli), k) == lookup(cli_part(cli, i), k),
{
    assert forall|m: int| 1 <= m <= 15 && m != i implies lookup(#[trigger] cli_part(cli, m), k) is None by {
        lemma_cli_part_key(cli, m, k);
    }
    lemma_cli_prefix_lookup(cli, k, i, 15);
    lemma_cli_layer_is_prefix(cli);
}

/// The keys of the parts of the command-line layer are pairwise distinct.
proof fn lemma_cli_keys_distinct()
    ensures
        forall|i: int, j: int|
            1 <= i <= 15 && 1 <= j <= 15 && i != j ==> #[trigger] cli_key(i) != #[trigger] cli_key(j),
{
    reveal_strlit("build_arguments");
    reveal_strlit("environment_variables");
    reveal_strlit("pre_build");
    reveal_strlit("pre_run");
    reveal_strlit("post_run");
    reveal_strlit("dockerfile");
    reveal_strlit("build_context");
    reveal_strlit("project_name");
    reveal_strlit("username");
    reveal_strlit("target");
    reveal_strlit("allow_stale");
    reveal_strlit("force_rebuild");
    reveal_strlit("no_build_cache");
    reveal_strlit("no_rebuild");
    assert forall|i: int, j: int|
        1 <= i <= 15 && 1 <= j <= 15 && i != j implies #[trigger] cli_key(i) != #[trigger] cli_key(j) by {
        if cli_key(i) == cli_key(j) {
            assert(cli_key(i).len() == cli_key(j).len());
            assert(cli_key(i)[0] == cli_key(j)[0]);
            assert(cli_key(i)[1] == cli_key(j)[1]);
        }
    }
}

/// The value that the command line gives the key of its `i`-th part is the merged value of
/// that key, when that part holds a single value (not a table or a list).
proof fn lemma_cli_part_wins(
    cli: CliArgs,
    lower: Seq<Seq<(Seq<char>, NodeModel)>>,
    home: Seq<char>,
    i: int,
    v: NodeModel,
)
    requires
        7 <= i <= 15,
        cli_part(cli, i) == seq![(cli_key(i), v)],
        !(v is Table),
        !(v is List),
    ensures
        lookup(merged_layers(lower.push(cli_layer_model(cli)), home), cli_key(i)) == Some(v),
{
    lemma_cli_keys_distinct();
    assert(cli_key(i) != cli_key(2));
    lemma_cli_lookup_unique(cli, cli_key(i), i);
    lemma_lookup_single(cli_key(i), v, cli_key(i));
    law_top_layer_scalar_wins(lower, cli_layer_model(cli), home, cli_key(i), v);
}

/// The command line has the highest priority: a string or a flag that it sets is the merged
/// value of its key, whatever the lower-priority sources hold.
pub proof fn law_cli_values_override(
    cli: CliArgs,
    lower: Seq<Seq<(Seq<char>, NodeModel)>>,
    home: Seq<char>,
)
    ensures
        cli.dockerfile matches Some(x) ==> lookup(merged_layers(lower.push(cli_layer_model(cli)), home), "dockerfile"@)
            == Some(NodeModel::Scalar(LeafModel::Text(x@))),
        cli.build_context matches Some(x) ==> lookup(merged_layers(lower.push(cli_layer_model(cli)), home), "build_context"@)
            == Some(NodeModel::Scalar(LeafModel::Text(x@))),
        cli.project_name matches Some(x) ==> lookup(merged_layers(lower.push(cli_layer_model(cli)), home), "project_name"@)
            == Some(NodeModel::Scalar(LeafModel::Text(x@))),
        cli.username matches Some(x) ==> lookup(merged_layers(lower.push(cli_layer_model(cli)), home), "username"@)
            == Some(NodeModel::Scalar(LeafModel::Text(x@))),
        cli.target matches Some(x) ==> lookup(merged_layers(lower.push(cli_layer_model(cli)), home), "target"@)
            == Some(NodeModel::Scalar(LeafModel::Text(x@))),
        cli.allow_stale ==> lookup(merged_layers(lower.push(cli_layer_model(cli)), home), "allow_stale"@)
            == Some(NodeModel::Scalar(LeafModel::Flag(true))),
        cli.force_rebuild ==> lookup(merged_layers(lower.push(cli_layer_model(cli)), home), "force_rebuild"@)
            == Some(NodeModel::Scalar(LeafModel::Flag(true))),
        cli.no_build_cache ==> lookup(merged_layers(lower.push(cli_layer_model(cli)), home), "no_build_cache"@)
            == Some(NodeModel::Scalar(LeafModel::Flag(true))),
        cli.no_rebuild ==> lookup(merged_layers(lower.push(cli_layer_model(cli)), home), "no_rebuild"@)
            == Some(NodeModel::Scalar(LeafModel::Flag(true))),
{
    if let Some(x) = cli.dockerfile {
        lemma_cli_part_wins(cli, lower, home, 7, NodeModel::Scalar(LeafModel::Text(x@)));
    }
    if let Some(x) = cli.build_context {
        lemma_cli_part_wins(cli, lower, home, 8, NodeModel::Scalar(LeafModel::Text(x@)));
    }
    if let Some(x) = cli.project_name {
        lemma_cli_part_wins(cli, lower, home, 9, NodeModel::Scalar(LeafModel::Text(x@)));
    }
    if let Some(x) = cli.username {
        lemma_cli_part_wins(cli, lower, home, 10, NodeModel::Scalar(LeafModel::Text(x@)));
    }
    if let Some(x) = cli.target {
        lemma_cli_part_wins(cli, lower, home, 11, NodeModel::Scalar(LeafModel::Text(x@)));
    }
    if cli.allow_stale {
        lemma_cli_part_wins(cli, lower, home, 12, NodeModel::Scalar(LeafModel::Flag(true)));
    }
    if cli.force_rebuild {
        lemma_cli_part_wins(cli, lower, home, 13, NodeModel::Scalar(LeafModel::Flag(true)));
    }
    if cli.no_build_cache {
        lemma_cli_part_wins(cli, lower, home, 14, NodeModel::Scalar(LeafModel::Flag(true)));
    }
    if cli.no_rebuild {
        lemma_cli_part_wins(cli, lower, home, 15, NodeModel::Scalar(LeafModel::Flag(true)));
    }
}

proof fn lemma_cli_prefix_some(cli: CliArgs, k: Seq<char>, n: int)
    requires
        1 <= n <= 15,
    ensures
        lookup(cli_prefix(cli, n), k) is Some ==> exists|j: int|
            1 <= j <= n && (#[trigger] lookup(cli_part(cli, j), k)) is Some,
    decreases n,
{
    if n > 1 {
        lemma_cli_prefix_some(cli, k, n - 1);
        lemma_lookup_concat(cli_prefix(cli, n - 1), cli_part(cli, n), k);
    }
}

/// Only what the command line sets is in its layer.
proof fn lemma_cli_layer_keys(cli: CliArgs, k: Seq<char>)
    ensures
        lookup(cli_layer_model(cli), k) is Some ==> cli_sets(cli, k),
{
    lemma_cli_layer_is_prefix(cli);
    lemma_cli_prefix_some(cli, k, 15);
    if lookup(cli_layer_model(cli), k) is Some {
        let j = choose|j: int| 1 <= j <= 15 && (#[trigger] lookup(cli_part(cli, j), k)) is Some;
        lemma_cli_part_key(cli, j, k);
        assert(cli_part(cli, j).len() > 0);
    }
}

/// A setting that the command line does not give (an absent string, an unset flag, an empty
/// list or table) keeps the value that the lower-priority sources gave it: the command line
/// only overrides what it actually sets.
pub proof fn law_unset_cli_value_does_not_override(
    cli: CliArgs,
    lower: Seq<Seq<(Seq<char>, NodeModel)>>,
    home: Seq<char>,
    k: Seq<char>,
)
    requires
        !cli_sets(cli, k),
    ensures
        lookup(merged_layers(lower.push(cli_layer_model(cli)), home), k) == lookup(
            merged_layers(lower, home),
            k,
        ),
{
    lemma_cli_layer_keys(cli, k);
    law_layer_without_key_changes_nothing(lower, cli_layer_model(cli), home, k);
}

/// Append the table entry for parsed command-line entries, if there are any.
fn push_table<E: MapEntry>(
    out: &mut Vec<(String, Node)>,
    key: String,
    kind: EntryKind,
    raws: Ghost<Seq<Seq<char>>>,
    parsed: &Vec<(String, E)>,
)
    requires
        entries_model(parsed@) == parsed_map(kind, raws@),
    ensures
        final(out)@.map_values(|e: (String, Node)| crate::layers::node_entry_model(e)) == old(
            out,
        )@.map_values(|e: (String, Node)| crate::layers::node_entry_model(e)) + table_entry(
            key@,
            cli_pairs(kind, raws@),
        ),
{
    let ghost before = out@.map_values(|e: (String, Node)| crate::layers::node_entry_model(e));
    let ghost pairs = cli_pairs(kind, raws@);
    let mut table: Vec<(String, Leaf)> = Vec::new();
    let mut i: usize = 0;
    while i < parsed.len()
        invariant
            i <= parsed@.len(),
            entries_model(parsed@) == parsed_map(kind, raws@),
            pairs == cli_pairs(kind, raws@),
            pairs.len() == parsed@.len(),
            table_model(table@) == pairs.take(i as int),
        decreases parsed.len() - i,
    {
        let k = parsed[i].0.clone();
        let leaf = parsed[i].1.to_leaf();
        let ghost tb = table@;
        table.push((k, leaf));
        proof {
            assert(entries_model(parsed@)[i as int] == (parsed@[i as int].0@, parsed@[i as int].1.model()));
            assert(pairs[i as int] == (parsed@[i as int].0@, entry_leaf_model(parsed@[i as int].1.model())));
            assert(pairs.take(i + 1) =~= pairs.take(i as int).push(pairs[i as int]));
            assert(table_model(table@) =~= table_model(tb).push(
                (parsed@[i as int].0@, entry_leaf_model(parsed@[i as int].1.model())),
            ));
        }
        i = i + 1;
    }
    assert(pairs.take(parsed.len() as int) =~= pairs);
    if parsed.len() > 0 {
        out.push((key, Node::Table(table)));
    }
    assert(out@.map_values(|e: (String, Node)| crate::layers::node_entry_model(e)) =~= before
        + table_entry(key@, pairs));
}

/// Append the list entry for command-line strings, if there are any.
fn push_list(out: &mut Vec<(String, Node)>, key: String, items: &Vec<String>)
    ensures
        final(out)@.map_values(|e: (String, Node)| crate::layers::node_entry_model(e)) == old(
            out,
        )@.map_values(|e: (String, Node)| crate::layers::node_entry_model(e)) + list_entry(
            key@,
            strings_model(items@),
        ),
{
    let ghost before = out@.map_values(|e: (String, Node)| crate::layers::node_entry_model(e));
    let ghost texts = strings_model(items@).map_values(|x: Seq<char>| LeafModel::Text(x));
    let mut list: Vec<Leaf> = Vec::new();
    let mut i: usize = 0;
    while i < items.len()
        invariant
            i <= items@.len(),
            texts == strings_model(items@).map_values(|x: Seq<char>| LeafModel::Text(x)),
            crate::layers::list_model(list@) == texts.take(i as int),
        decreases items.len() - i,
    {
        let ghost lb = list@;
        list.push(Leaf::Text(items[i].clone()));
        assert(texts.take(i + 1) =~= texts.take(i as int).push(LeafModel::Text(items@[i as int]@)));
        assert(crate::layers::list_model(list@) =~= crate::layers::list_model(lb).push(
            LeafModel::Text(items@[i as int]@),
        ));
        i = i + 1;
    }
    assert(texts.take(items.len() as int) =~= texts);
    if items.len() > 0 {
        out.push((key, Node::List(list)));
    }
    assert(out@.map_values(|e: (String, Node)| crate::layers::node_entry_model(e)) =~= before
        + list_entry(key@, strings_model(items@)));
}

/// Append the string entry for a command-line value, if it was given.
fn push_text(out: &mut Vec<(String, Node)>, key: String, value: &Option<String>)
    ensures
        final(out)@.map_values(|e: (String, Node)| crate::layers::node_entry_model(e)) == old(
            out,
        )@.map_values(|e: (String, Node)| crate::layers::node_entry_model(e)) + text_entry(
            key@,
            option_model(*value),
        ),
{
    let ghost before = out@.map_values(|e: (String, Node)| crate::layers::node_entry_model(e));
    match value {
        Some(v) => {
            out.push((key, Node::Scalar(Leaf::Text(v.clone()))));
        },
        None => {},
    }
    assert(out@.map_values(|e: (String, Node)| crate::layers::node_entry_model(e)) =~= before
        + text_entry(key@, option_model(*value)));
}

/// Append the `true` entry for a command-line flag, if it was given.
fn push_flag(out: &mut Vec<(String, Node)>, key: String, flag: bool)
    ensures
        final(out)@.map_values(|e: (String, Node)| crate::layers::node_entry_model(e)) == old(
            out,
        )@.map_values(|e: (String, Node)| crate::layers::node_entry_model(e)) + flag_entry(
            key@,
            flag,
        ),
{
    let ghost before = out@.map_values(|e: (String, Node)| crate::layers::node_entry_model(e));
    if flag {
        out.push((key, Node::Scalar(Leaf::Flag(true))));
    }
    assert(out@.map_values(|e: (String, Node)| crate::layers::node_entry_model(e)) =~= before
        + flag_entry(key@, flag));
}

/// Every `--build-arg`, `--volume` and `--env` argument has an accepted form.
pub open spec fn cli_parses(cli: CliArgs) -> bool {
    &&& all_parse(EntryKind::BuildArgument, strings_model(cli.build_arguments@))
    &&& all_parse(EntryKind::Volume, strings_model(cli.volumes@))
    &&& all_parse(EntryKind::EnvironmentVariable, strings_model(cli.environment_variables@))
}

/// `e` reports the first unreadable command-line entry: build arguments are read first, then
/// volumes, then environment variables.
pub open spec fn cli_error(cli: CliArgs, e: ConfigError) -> bool {
    ||| reports_first_bad_entry(EntryKind::BuildArgument, strings_model(cli.build_arguments@), e)
    ||| all_parse(EntryKind::BuildArgument, strings_model(cli.build_arguments@))
        && reports_first_bad_entry(EntryKind::Volume, strings_model(cli.volumes@), e)
    ||| all_parse(EntryKind::BuildArgument, strings_model(cli.build_arguments@))
        && all_parse(EntryKind::Volume, strings_model(cli.volumes@))
        && reports_first_bad_entry(
        EntryKind::EnvironmentVariable,
        strings_model(cli.environment_variables@),
        e,
    )
}

/// The configuration layer that the command line contributes, at the highest priority.
///
/// `--build-arg`, `--volume` and `--env` arguments are parsed (in that order; the first
/// unreadable argument is reported) into tables; list arguments, strings that were given and
/// flags that were set are added as they are. Nothing that was not given appears, so an absent
/// argument never overrides a lower-priority source.
pub fn cli_layer(cli: &CliArgs) -> (res: Result<Layer, ConfigError>)
    ensures
        res is Ok <==> cli_parses(*cli),
        match res {
            Ok(layer) => layer.model() == cli_layer_model(*cli),
            Err(e) => cli_error(*cli, e),
        },
{
    let build_arguments = parse_cli_build_arguments(cli.build_arguments.as_slice())?;
    let volumes = parse_cli_volumes(cli.volumes.as_slice())?;
    let environment_variables = parse_cli_environment_variables(
        cli.environment_variables.as_slice(),
    )?;
    let mut out: Vec<(String, Node)> = Vec::new();
    assert(out@.map_values(|e: (String, Node)| crate::layers::node_entry_model(e)) =~= Seq::<
        (Seq<char>, NodeModel),
    >::empty());
    push_table(
        &mut out,
        owned("build_arguments"),
        EntryKind::BuildArgument,
        Ghost(strings_model(cli.build_arguments@)),
        &build_arguments,
    );
    let vk = volumes_key_chars();
    push_table(
        &mut out,
        string_of(vk.as_slice()),
        EntryKind::Volume,
        Ghost(strings_model(cli.volumes@)),
        &volumes,
    );
    push_table(
        &mut out,
        owned("environment_variables"),
        EntryKind::EnvironmentVariable,
        Ghost(strings_model(cli.environment_variables@)),
        &environment_variables,
    );
    push_list(&mut out, owned("pre_build"), &cli.pre_build);
    push_list(&mut out, owned("pre_run"), &cli.pre_run);
    push_list(&mut out, owned("post_run"), &cli.post_run);
    push_text(&mut out, owned("dockerfile"), &cli.dockerfile);
    push_text(&mut out, owned("build_context"), &cli.build_context);
    push_text(&mut out, owned("project_name"), &cli.project_name);
    push_text(&mut out, owned("username"), &cli.username);
    push_text(&mut out, owned("target"), &cli.target);
    push_flag(&mut out, owned("allow_stale"), cli.allow_stale);
    push_flag(&mut out, owned("force_rebuild"), cli.force_rebuild);
    push_flag(&mut out, owned("no_build_cache"), cli.no_build_cache);
    push_flag(&mut out, owned("no_rebuild"), cli.no_rebuild);
    let layer = Layer { entries: out };
    assert(layer.model() =~= cli_layer_model(*cli));
    Ok(layer)
}

} // verus!
