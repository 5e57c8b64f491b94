//! devcontainerex: the verified core of a wrapper around `devcontainer exec`.
//!
//! Containers that the VS Code Dev Containers extension creates may record a
//! Windows-style path in their `devcontainer.local_folder` label, so the CLI
//! cannot find them by the POSIX path of the workspace. For an `exec` call the
//! wrapper reads the label that the one running container of the workspace
//! carries and adds it as `--id-label`; every other call is handed on unchanged.
//!
//! - `args`: reading the command line.
//! - `docker`: reading what `docker ps -q` and `docker inspect` print.
//! - `plan`: choosing the container and building the command line handed on.
//! - `locate`: the order of the lookups for the workspace and the real CLI.
//! - `error`: the errors and the text reported for each.
//! - `json`: JSON documents, parsed by serde_json.
//! - `text`: character-level string helpers.
pub mod args;
pub mod docker;
pub mod error;
pub mod json;
pub mod locate;
pub mod plan;
pub mod text;
