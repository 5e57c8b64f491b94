//! The errors of the wrapper and the text it reports for each.
use vstd::prelude::*;
use vstd::string::StringExecFns;

use crate::text::{trim_end, trim_end_spec};

verus! {

/// Why the wrapper could not hand the call on. Errors that come from the
/// operating system or from serde_json carry their text.
#[derive(Debug)]
pub enum DevContainerExError {
    /// The workspace path could not be resolved.
    Workspace { path: String, source: String },
    /// The current directory could not be read.
    CurrentDir(String),
    /// `docker` could not be started.
    DockerSpawn(String),
    /// `docker` exited with a failure.
    DockerFailed { command: &'static str, stderr: String },
    /// The output of `docker inspect` is no JSON.
    DockerParse(String),
    /// No running container belongs to the workspace.
    ContainerNotFound { workspace: String },
    /// Several running containers belong to the workspace: their names and
    /// configuration files.
    AmbiguousContainers(Vec<(String, String)>),
    /// The devcontainer CLI was not found.
    CliNotFound,
}

/// One line per candidate: a line break, two spaces, the name, two spaces
/// and the configuration file in parentheses.
pub open spec fn candidate_lines(cs: Seq<(String, String)>) -> Seq<char>
    decreases cs.len(),
{
    if cs.len() == 0 {
        Seq::empty()
    } else {
        candidate_lines(cs.drop_last()) + "\n  "@ + cs.last().0@ + "  ("@ + cs.last().1@ + ")"@
    }
}

/// The text reported for `e`.
pub open spec fn message_of(e: DevContainerExError) -> Seq<char> {
    match e {
        DevContainerExError::Workspace { path, source } => "failed to resolve workspace path "@
            + path@ + ": "@ + source@,
        DevContainerExError::CurrentDir(source) => "failed to get the current directory: "@
            + source@,
        DevContainerExError::DockerSpawn(source) => "failed to run docker: "@ + source@,
        DevContainerExError::DockerFailed { command, stderr } => {
            let t = trim_end_spec(stderr@);
            if t.len() == 0 {
                command@ + " failed."@
            } else {
                command@ + " failed."@ + "\n"@ + t
            }
        },
        DevContainerExError::DockerParse(source) => "failed to parse docker inspect output: "@
            + source@,
        DevContainerExError::ContainerNotFound { workspace } =>
            "no matching dev container found.\nStart one first:\n  devcontainer up --workspace-folder "@
            + workspace@,
        DevContainerExError::AmbiguousContainers(candidates) =>
            "multiple candidate containers found; cannot determine which one to enter."@
            + candidate_lines(candidates@),
        DevContainerExError::CliNotFound =>
            "devcontainer CLI not found.\nSet the DEVCONTAINEREX_DEVCONTAINER_BIN environment variable to the path of the executable.\nExample: export DEVCONTAINEREX_DEVCONTAINER_BIN=/path/to/devcontainer"@,
    }
}

impl DevContainerExError {
    /// The text reported for this error.
    pub fn message(&self) -> (res: String)
        ensures
            res@ == message_of(*self),
    {
        match self {
            DevContainerExError::Workspace { path, source } => {
                let mut s = "failed to resolve workspace path ".to_owned();
                s.append(path.as_str());
                s.append(": ");
                s.append(source.as_str());
                s
            },
            DevContainerExError::CurrentDir(source) => {
                let mut s = "failed to get the current directory: ".to_owned();
                s.append(source.as_str());
                s
            },
            DevContainerExError::DockerSpawn(source) => {
                let mut s = "failed to run docker: ".to_owned();
                s.append(source.as_str());
                s
            },
            DevContainerExError::DockerFailed { command, stderr } => {
                let mut s = (*command).to_owned();
                s.append(" failed.");
                let t = trim_end(stderr.as_str());
                if t.as_str().unicode_len() != 0 {
                    s.append("\n");
                    s.append(t.as_str());
                }
                s
            },
            DevContainerExError::DockerParse(source) => {
                let mut s = "failed to parse docker inspect output: ".to_owned();
                s.append(source.as_str());
                s
            },
            DevContainerExError::ContainerNotFound { workspace } => {
                let mut s =
                    "no matching dev container found.\nStart one first:\n  devcontainer up --workspace-folder ".to_owned();
                s.append(workspace.as_str());
                s
            },
            DevContainerExError::AmbiguousContainers(candidates) => {
                let mut s =
                    "multiple candidate containers found; cannot determine which one to enter.".to_owned();
                let ghost header = s@;
                let mut i: usize = 0;
                while i < candidates.len()
                    invariant
                        i <= candidates@.len(),
                        s@ == header + candidate_lines(candidates@.take(i as int)),
                    decreases candidates@.len() - i,
                {
                    s.append("\n  ");
                    s.append(candidates[i].0.as_str());
                    s.append("  (");
                    s.append(candidates[i].1.as_str());
                    s.append(")");
                    assert(candidates@.take(i + 1).drop_last() == candidates@.take(i as int));
                    i = i + 1;
                }
                assert(candidates@.take(candidates@.len() as int) == candidates@);
                s
            },
            DevContainerExError::CliNotFound => {
                "devcontainer CLI not found.\nSet the DEVCONTAINEREX_DEVCONTAINER_BIN environment variable to the path of the executable.\nExample: export DEVCONTAINEREX_DEVCONTAINER_BIN=/path/to/devcontainer".to_owned()
            },
        }
    }
}

} // verus!
