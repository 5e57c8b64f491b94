//! The decisions between the lookups that find the workspace and the real
//! devcontainer CLI. Each function takes what the lookups so far returned and
//! says which lookup comes next, or what the answer is.
use vstd::prelude::*;

use crate::error::DevContainerExError;

verus! {

/// An optional path by its bytes.
pub open spec fn opt_bytes(o: Option<Vec<u8>>) -> Option<Seq<u8>> {
    match o {
        Some(v) => Some(v@),
        None => None,
    }
}

/// What to do next to find the workspace.
pub enum WorkspaceNext {
    /// The workspace path (still to be canonicalized).
    Use(String),
    /// Ask `git rev-parse --show-toplevel`.
    AskGit,
    /// Take the current directory.
    AskCurrentDir,
}

/// The workspace is, in this order: the value of `--workspace-folder` / `-w`,
/// else the top level of the git repository, else the current directory.
/// `git_top` is none while git has not been asked, and holds git's answer
/// (none outside a repository) once it has.
pub fn workspace_next(flag: Option<String>, git_top: Option<Option<String>>) -> (res: WorkspaceNext)
    ensures
        flag matches Some(p) ==> res == WorkspaceNext::Use(p),
        flag is None && git_top is None ==> res is AskGit,
        flag is None ==> (git_top matches Some(Some(t)) ==> res == WorkspaceNext::Use(t)),
        flag is None ==> (git_top matches Some(None) ==> res is AskCurrentDir),
{
    match flag {
        Some(p) => WorkspaceNext::Use(p),
        None => match git_top {
            None => WorkspaceNext::AskGit,
            Some(Some(t)) => WorkspaceNext::Use(t),
            Some(None) => WorkspaceNext::AskCurrentDir,
        },
    }
}

/// What to do next to find the real devcontainer CLI.
pub enum CliNext {
    /// The CLI's path.
    Use(Vec<u8>),
    /// Search the directories of `PATH`.
    SearchPath,
}

/// The CLI is the path in `DEVCONTAINEREX_DEVCONTAINER_BIN` when that is set,
/// else the first real CLI found on `PATH`; `CliNotFound` when there is none.
/// `on_path` is none while `PATH` has not been searched, and holds the result
/// of the search once it has.
pub fn cli_next(env_bin: Option<Vec<u8>>, on_path: Option<Option<Vec<u8>>>) -> (res: Result<
    CliNext,
    DevContainerExError,
>)
    ensures
        env_bin matches Some(b) ==> (res matches Ok(CliNext::Use(p)) && p@ == b@),
        env_bin is None && on_path is None ==> res matches Ok(CliNext::SearchPath),
        env_bin is None ==> (on_path matches Some(Some(c)) ==> (res matches Ok(CliNext::Use(p))
            && p@ == c@)),
        env_bin is None ==> (on_path matches Some(None) ==> (res matches Err(
            DevContainerExError::CliNotFound,
        ))),
{
    match env_bin {
        Some(b) => Ok(CliNext::Use(b)),
        None => match on_path {
            None => Ok(CliNext::SearchPath),
            Some(Some(c)) => Ok(CliNext::Use(c)),
            Some(None) => Err(DevContainerExError::CliNotFound),
        },
    }
}

/// Whether two byte strings are equal.
fn bytes_eq(a: &Vec<u8>, b: &Vec<u8>) -> (res: bool)
    ensures
        res == (a@ == b@),
{
    if a.len() != b.len() {
        return false;
    }
    let mut i: usize = 0;
    while i < a.len()
        invariant
            i <= a@.len(),
            a@.len() == b@.len(),
            forall|j: int| 0 <= j < i ==> a@[j] == b@[j],
        decreases a@.len() - i,
    {
        if a[i] != b[i] {
            return false;
        }
        i = i + 1;
    }
    assert(a@ == b@);
    true
}

/// Whether a `devcontainer` found in a `PATH` directory is the real CLI: it
/// is a file, its canonical path could be read, and that path is not this
/// program's own (so that `alias devcontainer=devcontainerex` does not recurse).
pub fn is_real_cli(is_file: bool, canonical: Option<Vec<u8>>, self_exe: Option<Vec<u8>>) -> (res:
    bool)
    ensures
        res == (is_file && canonical is Some && opt_bytes(canonical) != opt_bytes(self_exe)),
{
    if !is_file {
        return false;
    }
    match (&canonical, &self_exe) {
        (Some(c), Some(s)) => !bytes_eq(c, s),
        (Some(_), None) => true,
        (None, _) => false,
    }
}

} // verus!
