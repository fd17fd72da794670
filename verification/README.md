# agentcontainer

A standard way to declare and run agent containers for your projects: configuration is read
from TOML files, `AGENTCONTAINER_*` environment variables and command-line flags, merged by
priority, validated, and turned into `docker build` and `docker run` invocations.

## Layout

- `src/` is the library, verified with Verus. Each function states in its contract what it
  returns; the laws (public `law_*` proof functions) state properties across functions.
  - `layers.rs`: configuration layers and their controlled-depth merge (tables unioned, lists
    concatenated, everything else replaced by the higher-priority source).
  - `cli.rs`: command-line entries and the layer the command line contributes.
  - `sources.rs`: the configuration files and their priority order; the default project name.
  - `load.rs`: loading the configuration: the order of the steps, with reading and extraction
    handed in by the caller.
  - `entries.rs`, `config.rs`, `error.rs`: the configuration, its entry types, image and
    container names.
  - `resolve.rs`: removal sentinels, validation, tilde expansion and path resolution.
  - `paths.rs`, `slugify.rs`, `text.rs`: lexical paths, slugs and character helpers.
  - `docker_build.rs`, `run.rs`, `hooks.rs`, `git.rs`, `random.rs`: the build decisions, the
    `docker build` and `docker run` argument lists, hook pipelines, worktree detection from
    `git worktree list --porcelain`, and container name suffixes.
- `app/` is the command-line program around the library: argument parsing (clap), reading the
  configuration sources (figment), serialization (serde, toml), processes, the filesystem, the
  clock and logging.
- `tests/` exercises the library on concrete values.
