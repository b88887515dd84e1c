//! The configuration model of prek, a git hook manager compatible with
//! `pre-commit`, and the decisions `prek run` makes while it installs and runs
//! hooks.
//!
//! - `config`: languages, hook types, stages, repository locations and meta
//!   hook ids, with their names.
//! - `hooks`: hook options and their overriding, remote, manifest and meta hooks.
//! - `repos`: repositories, the configuration and manifest files, and the
//!   checks made while reading a configuration.
//! - `regex`, `version`: file patterns and semantic versions as the
//!   configuration holds them.
//! - `partition`: grouping hooks for installation and ordering projects.
//! - `printer`: the aligned status lines of a run.
//! - `report`: the details of a hook's run and the run's own messages.
//! - `tags`: the known file type tags.
//! - `run`: the outcome of hooks, projects and whole runs, and what a run
//!   hands to its hooks.

pub mod config;
pub mod hooks;
pub mod partition;
pub mod printer;
pub mod regex;
pub mod report;
pub mod repos;
pub mod run;
pub mod style;
pub mod tags;
pub mod text;
pub mod version;
