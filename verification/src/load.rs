//! Loading the configuration from all its sources.
//!
//! Sources are merged from lowest to highest priority: the configuration files (in the order
//! that [`config_files`] gives), the sources that the caller reads after them (the
//! `AGENTCONTAINER_*` environment variables), and the command line. Reading a source and
//! extracting a configuration from the merged layer are the caller's work, handed in as
//! closures; the order of the steps and what follows from each result are decided here.

use vstd::prelude::*;
use crate::cli::{cli_error, cli_layer, cli_layer_model, cli_parses, CliArgs, Command};
use crate::config::{strings_model, Config};
use crate::error::ConfigError;
use crate::layers::{merge_layers, merged_layers, Layer};
use crate::resolve::{
    cleaned, config_is_valid, expanded, finalize_config, is_resolved, reports_first_failure,
};
use crate::sources::{config_files, spec_config_files};

verus! {

/// Why loading the configuration failed.
#[derive(Debug)]
pub enum LoadError<X> {
    /// The command line or the merged configuration is invalid.
    Config(ConfigError),
    /// Reading a source, or extracting the configuration from the merged sources, failed.
    Sources(X),
}

/// What loading returns once the merged sources were extracted into `raw`: the configuration
/// with removal sentinels stripped, validated, and with its paths resolved.
pub open spec fn finalized<X>(
    raw: Config,
    home: Seq<char>,
    cwd: Seq<char>,
    res: Result<Config, LoadError<X>>,
) -> bool {
    match res {
        Ok(c) => config_is_valid(cleaned(raw.model())) && c.model() == expanded(
            cleaned(raw.model()),
            home,
            cwd,
        ) && is_resolved(c.model()),
        Err(LoadError::Config(e)) => !config_is_valid(cleaned(raw.model())) && reports_first_failure(
            cleaned(raw.model()),
            e,
        ),
        Err(LoadError::Sources(_)) => false,
    }
}

/// What loading returns once the sources were read, with the result `read`: the layers read,
/// with the command line on top, are merged and extracted.
pub open spec fn loaded_after_reading<X, FE: Fn(Layer) -> Result<Config, X>>(
    home: Seq<char>,
    cwd: Seq<char>,
    cli: CliArgs,
    read: Result<Vec<Layer>, X>,
    extract: FE,
    res: Result<Config, LoadError<X>>,
) -> bool {
    match read {
        Err(x) => res == Err::<Config, LoadError<X>>(LoadError::Sources(x)),
        Ok(layers) => exists|merged: Layer, got: Result<Config, X>|
            #![trigger extract.ensures((merged,), got)]
            merged.model() == merged_layers(
                layers@.map_values(|l: Layer| l.model()).push(cli_layer_model(cli)),
                home,
            ) && extract.ensures((merged,), got) && match got {
                Err(x) => res == Err::<Config, LoadError<X>>(LoadError::Sources(x)),
                Ok(raw) => finalized(raw, home, cwd, res),
            },
    }
}

/// What loading the configuration returns: an unreadable command-line entry is reported
/// first; otherwise the configuration files are read, then merged with the command line on
/// top, extracted and finalized.
pub open spec fn loaded<X, FR: Fn(&Vec<String>) -> Result<Vec<Layer>, X>, FE: Fn(Layer) -> Result<Config, X>>(
    home: Seq<char>,
    cwd: Seq<char>,
    cli: CliArgs,
    read_sources: FR,
    extract: FE,
    res: Result<Config, LoadError<X>>,
) -> bool {
    if !cli_parses(cli) {
        res matches Err(LoadError::Config(e)) && cli_error(cli, e)
    } else {
        exists|files: Vec<String>, read: Result<Vec<Layer>, X>|
            #![trigger read_sources.ensures((&files,), read)]
            strings_model(files@) == spec_config_files(home, cwd) && read_sources.ensures(
                (&files,),
                read,
            ) && loaded_after_reading(home, cwd, cli, read, extract, res)
    }
}

/// Get the configuration from all sources and the command to execute.
///
/// The command line is read first, so that an unreadable `--build-arg`, `--volume` or `--env`
/// argument is reported before any file is read. `read_sources` is given the configuration
/// files, lowest priority first, and returns the layers of all sources below the command line,
/// lowest priority first (the files that exist, then the environment). The layers are merged
/// with the command line on top, `extract` turns the merged layer into a configuration, which is
/// then stripped of removal sentinels, validated and resolved against `home_dir` and `cwd`.
pub fn get_config<'a, X, FR, FE>(
    home_dir: &str,
    cwd: &str,
    cli_args: &'a CliArgs,
    read_sources: FR,
    extract: FE,
) -> (res: Result<(&'a Command, Config), LoadError<X>>) where
    FR: Fn(&Vec<String>) -> Result<Vec<Layer>, X>,
    FE: Fn(Layer) -> Result<Config, X>,

    requires
        forall|f: &Vec<String>| #[trigger] read_sources.requires((f,)),
        forall|l: Layer| #[trigger] extract.requires((l,)),
    ensures
        loaded(
            home_dir@,
            cwd@,
            *cli_args,
            read_sources,
            extract,
            match res {
                Ok((_, c)) => Ok(c),
                Err(e) => Err(e),
            },
        ),
        res matches Ok((command, _)) ==> command == &cli_args.command,
{
    let cli = match cli_layer(cli_args) {
        Ok(layer) => layer,
        Err(e) => {
            return Err(LoadError::Config(e));
        },
    };
    let files = config_files(home_dir, cwd);
    let read = read_sources(&files);
    let ghost rd = read;
    assert(read_sources.ensures((&files,), rd));
    let mut layers = match read {
        Ok(layers) => layers,
        Err(x) => {
            return Err(LoadError::Sources(x));
        },
    };
    let ghost below = layers@.map_values(|l: Layer| l.model());
    layers.push(cli);
    assert(layers@.map_values(|l: Layer| l.model()) =~= below.push(cli_layer_model(*cli_args)));
    let merged = merge_layers(layers, home_dir);
    let ghost mg = merged;
    let got = extract(merged);
    let ghost gt = got;
    assert(extract.ensures((mg,), gt));
    let raw = match got {
        Ok(raw) => raw,
        Err(x) => {
            return Err(LoadError::Sources(x));
        },
    };
    let ghost raw_model = raw;
    match finalize_config(raw, home_dir, cwd) {
        Ok(config) => {
            assert(finalized::<X>(raw_model, home_dir@, cwd@, Ok(config)));
            Ok((&cli_args.command, config))
        },
        Err(e) => {
            assert(finalized::<X>(raw_model, home_dir@, cwd@, Err(LoadError::Config(e))));
            Err(LoadError::Config(e))
        },
    }
}

} // verus!
