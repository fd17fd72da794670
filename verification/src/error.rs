//! Errors returned while resolving the configuration.

use vstd::prelude::*;

verus! {

/// Errors found in the command-line arguments or in the merged configuration.
#[derive(Debug)]
pub enum ConfigError {
    /// The `dockerfile` path is empty.
    EmptyDockerfile,
    /// The `build_context` path is empty.
    EmptyBuildContext,
    /// A build argument CLI argument could not be parsed.
    InvalidBuildArgument { value: String },
    /// A build argument key is not a valid identifier.
    InvalidBuildArgumentKey { key: String },
    /// A `pre_build` entry is an empty string.
    EmptyPreBuild,
    /// The project name contains no alphanumeric characters and has an empty slug.
    InvalidProjectName { project_name: String },
    /// The username contains no alphanumeric characters and has an empty slug.
    InvalidUsername { username: String },
    /// The `target` value is empty.
    EmptyTarget,
    /// The `target` value contains no alphanumeric characters and has an empty slug.
    InvalidTarget { target: String },
    /// `force_rebuild` and `no_rebuild` were both set.
    ConflictingRebuildFlags,
    /// A volume CLI argument could not be parsed.
    InvalidVolume { value: String },
    /// A volume container path is not absolute.
    InvalidVolumePath { path: String },
    /// An environment variable CLI argument could not be parsed.
    InvalidEnvironmentVariable { value: String },
    /// An environment variable key is not a valid identifier.
    InvalidEnvironmentVariableKey { key: String },
    /// A `pre_run` entry is an empty string.
    EmptyPreRun,
    /// A `post_run` entry is an empty string.
    EmptyPostRun,
}

} // verus!
