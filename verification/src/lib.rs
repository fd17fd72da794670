//! Verified core of `agentcontainer`: configuration layering, validation, path handling and
//! Docker argument assembly.

pub mod text;
pub mod paths;
pub mod slugify;
pub mod random;
pub mod entries;
pub mod layers;
pub mod error;
pub mod config;
pub mod cli;
pub mod resolve;
pub mod docker_build;
pub mod run;
pub mod hooks;
pub mod git;
pub mod sources;
pub mod load;
