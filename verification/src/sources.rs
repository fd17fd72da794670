//! Where configuration comes from: the configuration files, in priority order, and the
//! default project name.

use std::path::Path;
use vstd::prelude::*;
use crate::config::strings_model;
use crate::text::{append_chars, chars_of, owned, string_of};

verus! {

/// What `Path::ancestors` yields for a path: the path itself, then each parent in turn, as the
/// standard library defines them.
pub uninterp spec fn path_ancestors(p: Seq<char>) -> Seq<Seq<char>>;

/// `Path::ancestors`, each ancestor copied into a `String`. The contract names the result and
/// states that it is never empty: as documented, the path itself comes first.
#[verifier::external_body]
fn ancestors_of(p: &str) -> (res: Vec<String>)
    ensures
        strings_model(res@) == path_ancestors(p@),
        res@.len() >= 1,
{
    let mut res = Vec::new();
    for a in Path::new(p).ancestors() {
        res.push(a.to_string_lossy().into_owned());
    }
    res
}

/// What `Path::join` makes of a base path and a relative path.
pub uninterp spec fn joined_path(base: Seq<char>, rel: Seq<char>) -> Seq<char>;

/// `Path::join`, with the joined path copied into a `String`. The contract names the result and
/// states the two cases that `PathBuf::push` documents: an absolute `rel` replaces the base, and
/// a relative `rel` is appended to a base that does not end in `/`, with a `/` between them.
/// Other bases (empty, or ending in `/`) are left to the standard library.
#[verifier::external_body]
fn join_path(base: &str, rel: &str) -> (res: String)
    ensures
        res@ == joined_path(base@, rel@),
        rel@.len() > 0 && rel@[0] == '/' ==> res@ == rel@,
        base@.len() > 0 && base@.last() != '/' && !(rel@.len() > 0 && rel@[0] == '/') ==> res@
            == base@ + seq!['/'] + rel@,
{
    Path::new(base).join(rel).to_string_lossy().into_owned()
}

/// What `Path::file_name` gives for a path: its final component, if it has one.
pub uninterp spec fn path_file_name(p: Seq<char>) -> Option<Seq<char>>;

/// `Path::file_name`, with the name copied into a `String`. The contract only names the result.
#[verifier::external_body]
fn file_name_of(p: &str) -> (res: Option<String>)
    ensures
        match res {
            Some(n) => path_file_name(p@) == Some(n@),
            None => path_file_name(p@) is None,
        },
{
    match Path::new(p).file_name() {
        Some(n) => Some(n.to_string_lossy().into_owned()),
        None => None,
    }
}

/// The project configuration file, relative to a directory.
pub open spec fn project_config_file() -> Seq<char> {
    ".agentcontainer/config.toml"@
}

/// The configuration files of the ancestors of the working directory (excluding the working
/// directory itself), from `/` towards the working directory.
pub open spec fn ancestor_config_files(ancestors: Seq<Seq<char>>) -> Seq<Seq<char>> {
    ancestors.skip(1).reverse().map_values(|a: Seq<char>| joined_path(a, project_config_file()))
}

/// The configuration files, lowest priority first: the XDG file and the home dotfile, the
/// ancestors' project files from `/` down (so a home directory that is an ancestor of the
/// working directory comes again, at a higher priority), the project file and the local project
/// file.
pub open spec fn spec_config_files(home_dir: Seq<char>, cwd: Seq<char>) -> Seq<Seq<char>> {
    seq![
        home_dir + "/.config/agentcontainer/config.toml"@,
        home_dir + "/.agentcontainer/config.toml"@,
    ] + ancestor_config_files(path_ancestors(cwd)) + seq![
        project_config_file(),
        ".agentcontainer/config.local.toml"@,
    ]
}

/// `home_dir` followed by `suffix`.
fn under(home_dir: &str, suffix: &str) -> (res: String)
    ensures
        res@ == home_dir@ + suffix@,
{
    let mut cs = chars_of(home_dir);
    append_chars(&mut cs, chars_of(suffix).as_slice());
    string_of(cs.as_slice())
}

/// The configuration files to read, lowest priority first (see [`spec_config_files`]).
pub fn config_files(home_dir: &str, cwd: &str) -> (res: Vec<String>)
    ensures
        strings_model(res@) == spec_config_files(home_dir@, cwd@),
{
    let mut files: Vec<String> = Vec::new();
    files.push(under(home_dir, "/.config/agentcontainer/config.toml"));
    files.push(under(home_dir, "/.agentcontainer/config.toml"));
    let ghost head = strings_model(files@);
    let ancestors = ancestors_of(cwd);
    let ghost an = path_ancestors(cwd@);
    let ghost wanted = ancestor_config_files(an);
    let mut i: usize = ancestors.len();
    while i > 1
        invariant
            1 <= i <= ancestors@.len(),
            strings_model(ancestors@) == an,
            wanted == ancestor_config_files(an),
            strings_model(files@) == head + wanted.take(ancestors@.len() - i),
        decreases i,
    {
        let ghost before = strings_model(files@);
        let file = join_path(ancestors[i - 1].as_str(), ".agentcontainer/config.toml");
        files.push(file);
        proof {
            let k = ancestors@.len() - i;
            assert(wanted[k] == joined_path(an[i - 1], project_config_file()));
            assert(wanted.take(k + 1) =~= wanted.take(k).push(wanted[k]));
            assert(strings_model(files@) =~= before.push(file@));
        }
        i = i - 1;
    }
    assert(wanted.len() == an.len() - 1);
    assert(wanted.take(wanted.len() as int) =~= wanted);
    let ghost middle = strings_model(files@);
    files.push(owned(".agentcontainer/config.toml"));
    files.push(owned(".agentcontainer/config.local.toml"));
    assert(strings_model(files@) =~= middle + seq![
        project_config_file(),
        ".agentcontainer/config.local.toml"@,
    ]);
    files
}

/// The default project name: the last component of the working directory, or `unknown` when
/// the working directory is not known or has no last component.
pub open spec fn spec_default_project_name(cwd: Option<Seq<char>>) -> Seq<char> {
    match cwd {
        Some(c) => match path_file_name(c) {
            Some(n) => n,
            None => "unknown"@,
        },
        None => "unknown"@,
    }
}

/// The default project name (see [`spec_default_project_name`]).
pub fn default_project_name(cwd: Option<&str>) -> (res: String)
    ensures
        res@ == spec_default_project_name(
            match cwd {
                Some(c) => Some(c@),
                None => None,
            },
        ),
{
    match cwd {
        Some(c) => match file_name_of(c) {
            Some(n) => n,
            None => owned("unknown"),
        },
        None => owned("unknown"),
    }
}

} // verus!
