//! The resolved application configuration and the names derived from it.

use vstd::prelude::*;
use crate::entries::{
    entries_model, keys_distinct, BuildArgumentEntry, EntryModel, EnvironmentVariableEntry,
    VolumeEntry,
};
use crate::slugify::{lemma_trim_trailing, lowercase_of, slugify, spec_slug, trim_trailing_underscores};
use crate::text::{append_chars, chars_of, decimal, decimal_chars, lemma_decimal_len, string_of};

verus! {

/// Application configuration.
///
/// The three entry maps are held as pairs in which each key occurs at most once
/// ([`maps_well_formed`]); the steps of configuration loading keep it so.
#[derive(Debug)]
pub struct Config {
    /// Path to the Dockerfile.
    pub dockerfile: String,
    /// Directory used as the Docker build context.
    pub build_context: String,
    /// Extra build arguments to pass to `docker build`, keyed by name.
    pub build_arguments: Vec<(String, BuildArgumentEntry)>,
    /// Executables run before `docker build`; their output is the final `docker build`
    /// hookable arguments.
    pub pre_build: Vec<String>,
    /// Project name used in the Docker image tag.
    pub project_name: String,
    /// Username for the image tag.
    pub username: String,
    /// Docker build `--target`; also appended to the image name when set.
    pub target: Option<String>,
    /// Use a stale image if the build fails.
    pub allow_stale: bool,
    /// Force rebuild regardless of staleness.
    pub force_rebuild: bool,
    /// Pass `--no-cache` to `docker build`.
    pub no_build_cache: bool,
    /// Skip rebuild; error if no image exists.
    pub no_rebuild: bool,
    /// Volumes to set up in the container, keyed by container path.
    pub volumes: Vec<(String, VolumeEntry)>,
    /// Environment variables to pass to the container, keyed by name.
    pub environment_variables: Vec<(String, EnvironmentVariableEntry)>,
    /// Executables run before `docker run`; their output is the final `docker run` hookable
    /// arguments.
    pub pre_run: Vec<String>,
    /// Executables run after `docker run`, each transforming the output of the previous stage.
    pub post_run: Vec<String>,
}

/// The model of a [`Config`]: every string as its characters, every entry by its shape.
pub struct ConfigModel {
    pub dockerfile: Seq<char>,
    pub build_context: Seq<char>,
    pub build_arguments: Seq<(Seq<char>, EntryModel)>,
    pub pre_build: Seq<Seq<char>>,
    pub project_name: Seq<char>,
    pub username: Seq<char>,
    pub target: Option<Seq<char>>,
    pub allow_stale: bool,
    pub force_rebuild: bool,
    pub no_build_cache: bool,
    pub no_rebuild: bool,
    pub volumes: Seq<(Seq<char>, EntryModel)>,
    pub environment_variables: Seq<(Seq<char>, EntryModel)>,
    pub pre_run: Seq<Seq<char>>,
    pub post_run: Seq<Seq<char>>,
}

/// The entry maps of `m` are maps: no key occurs twice in any of them.
pub open spec fn maps_well_formed(m: ConfigModel) -> bool {
    &&& keys_distinct(m.build_arguments)
    &&& keys_distinct(m.volumes)
    &&& keys_distinct(m.environment_variables)
}

/// Model of a list of strings.
pub open spec fn strings_model(v: Seq<String>) -> Seq<Seq<char>> {
    v.map_values(|s: String| s@)
}

/// Model of an optional string.
pub open spec fn option_model(o: Option<String>) -> Option<Seq<char>> {
    match o {
        Some(s) => Some(s@),
        None => None,
    }
}

impl Config {
    pub open spec fn model(&self) -> ConfigModel {
        ConfigModel {
            dockerfile: self.dockerfile@,
            build_context: self.build_context@,
            build_arguments: entries_model(self.build_arguments@),
            pre_build: strings_model(self.pre_build@),
            project_name: self.project_name@,
            username: self.username@,
            target: option_model(self.target),
            allow_stale: self.allow_stale,
            force_rebuild: self.force_rebuild,
            no_build_cache: self.no_build_cache,
            no_rebuild: self.no_rebuild,
            volumes: entries_model(self.volumes@),
            environment_variables: entries_model(self.environment_variables@),
            pre_run: strings_model(self.pre_run@),
            post_run: strings_model(self.post_run@),
        }
    }
}

/// The slug of a raw name.
pub open spec fn slug_of(s: Seq<char>) -> Seq<char> {
    spec_slug(lowercase_of(s))
}

/// `agentcontainer_<username>_<project_name>[_<target>]:latest`, each part slugified.
pub open spec fn spec_image_name(m: ConfigModel) -> Seq<char> {
    let base = "agentcontainer_"@ + slug_of(m.username) + seq!['_'] + slug_of(m.project_name);
    match m.target {
        None => base + ":latest"@,
        Some(t) => base + seq!['_'] + slug_of(t) + ":latest"@,
    }
}

/// A slug cut to at most 41 characters, without trailing `_` after the cut.
pub open spec fn truncated_slug(s: Seq<char>) -> Seq<char> {
    trim_trailing_underscores(if s.len() > 41 { s.take(41) } else { s })
}

/// `agentcontainer_<name>_<suffix>`, where `<name>` is the truncated slug of the project name.
pub open spec fn spec_container_name(project_name: Seq<char>, suffix: nat) -> Seq<char> {
    "agentcontainer_"@ + truncated_slug(slug_of(project_name)) + seq!['_'] + decimal(suffix)
}

/// Default path to the Dockerfile.
pub fn default_dockerfile() -> (res: String)
    ensures
        res@ == ".agentcontainer/Dockerfile"@,
{
    let cs = chars_of(".agentcontainer/Dockerfile");
    string_of(cs.as_slice())
}

/// Default Docker build context directory.
pub fn default_build_context() -> (res: String)
    ensures
        res@ == "."@,
{
    let cs = chars_of(".");
    string_of(cs.as_slice())
}

impl Config {
    /// Return the Docker image name for this configuration.
    ///
    /// `username`, `project_name` and `target` are slugified before being embedded in the tag.
    pub fn get_image_name(&self) -> (res: String)
        ensures
            res@ == spec_image_name(self.model()),
    {
        let mut out = chars_of("agentcontainer_");
        let user = slugify(self.username.as_str());
        append_chars(&mut out, chars_of(user.as_str()).as_slice());
        out.push('_');
        let project = slugify(self.project_name.as_str());
        append_chars(&mut out, chars_of(project.as_str()).as_slice());
        match &self.target {
            Some(t) => {
                out.push('_');
                let target = slugify(t.as_str());
                append_chars(&mut out, chars_of(target.as_str()).as_slice());
            },
            None => {},
        }
        append_chars(&mut out, chars_of(":latest").as_slice());
        let ghost m = self.model();
        proof {
            match &self.target {
                Some(t) => {
                    assert(out@ =~= "agentcontainer_"@ + slug_of(m.username) + seq!['_'] + slug_of(
                        m.project_name,
                    ) + seq!['_'] + slug_of(t@) + ":latest"@);
                },
                None => {
                    assert(out@ =~= "agentcontainer_"@ + slug_of(m.username) + seq!['_'] + slug_of(
                        m.project_name,
                    ) + ":latest"@);
                },
            }
        }
        string_of(out.as_slice())
    }

    /// Generate a container name from the project name and a random suffix.
    ///
    /// The project name is slugified and cut to 41 characters, any trailing `_` left by the cut
    /// is removed, and the result is `agentcontainer_{name}_{suffix}`.
    pub fn get_container_name(&self, random_suffix: u32) -> (res: String)
        ensures
            res@ == spec_container_name(self.project_name@, random_suffix as nat),
    {
        let slug = slugify(self.project_name.as_str());
        let mut name = chars_of(slug.as_str());
        let ghost full = name@;
        if name.len() > 41 {
            name.truncate(41);
        }
        let ghost cut = name@;
        assert(cut == if full.len() > 41 { full.take(41) } else { full });
        while name.len() > 0 && name[name.len() - 1] == '_'
            invariant
                trim_trailing_underscores(name@) == trim_trailing_underscores(cut),
            decreases name.len(),
        {
            name.pop();
        }
        let mut out = chars_of("agentcontainer_");
        append_chars(&mut out, name.as_slice());
        out.push('_');
        let digits = decimal_chars(random_suffix);
        append_chars(&mut out, digits.as_slice());
        assert(out@ =~= "agentcontainer_"@ + name@ + seq!['_'] + decimal(random_suffix as nat));
        string_of(out.as_slice())
    }
}

/// A container name never exceeds Docker's 63-character limit: the project slug is cut to 41
/// characters and a suffix has at most six digits.
pub proof fn law_container_name_fits(project_name: Seq<char>, suffix: nat)
    requires
        suffix <= 999_999,
    ensures
        spec_container_name(project_name, suffix).len() <= 63,
{
    reveal_strlit("agentcontainer_");
    let slug = slug_of(project_name);
    let cut = if slug.len() > 41 { slug.take(41) } else { slug };
    lemma_trim_trailing(cut);
    let m = choose|m: int| 0 <= m <= cut.len() && trim_trailing_underscores(cut) == cut.take(m) && (forall|j: int| m <= j < cut.len() ==> cut[j] == '_');
    assert(truncated_slug(slug) == cut.take(m));
    lemma_decimal_len(suffix);
}

} // verus!
