# prek

The configuration model of prek, a git hook manager compatible with
`pre-commit`, and the decisions `prek run` makes while it installs and runs
hooks, written in Verus: each function states what it does in `requires` /
`ensures`, and Verus proves it.

## Layout

- `src/` is the verified library.
  - `config.rs`: languages, hook types, stages, repository locations and meta
    hook ids, with their names and the round trips between names and values.
  - `hooks.rs`: hook options and how one set overrides another, remote,
    manifest and meta hooks.
  - `repos.rs`: repositories, the configuration and manifest, and the checks
    made while reading a configuration (mutable revisions, ignored keys, type
    tags).
  - `regex.rs`, `version.rs`: file patterns and semantic versions as the
    configuration holds them, through `fancy-regex` and `semver`.
  - `partition.rs`: grouping hooks for installation and ordering projects.
  - `printer.rs`, `style.rs`, `report.rs`: the status lines, colors, details
    and messages of a run.
  - `run.rs`: the outcome of hooks, projects and whole runs, and what a run
    hands to its hooks.
  - `tags.rs`: the known file type tags.
  - `text.rs`: small string helpers.
- `tests/` runs the library on concrete values.
- `app/` is the unverified rim: reading YAML files with `serde`, the copies of
  the library's types that carry `serde` and `clap` derives, and setting the
  environment of a run.

Calls into outside crates go through small trusted functions whose doc
comments say what their contracts claim of the outside code.
