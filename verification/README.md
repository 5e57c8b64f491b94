# devcontainerex

A wrapper for `devcontainer exec`. Containers created by the VS Code Dev
Containers extension may record a Windows-style UNC path in their
`devcontainer.local_folder` label, while the CLI looks containers up by the
POSIX path of the workspace. For an `exec` call the wrapper finds the one
running container whose `devcontainer.config_file` lies inside the workspace,
reads its label and adds it as `--id-label` (and `--workspace-folder` when the
call names none) right after `exec`. Every other call is handed on unchanged.

- `src/` is the library, verified with Verus: command-line reading (`args`),
  reading docker's output (`docker`, `json`), choosing the container and
  building the command line (`plan`), and the error messages (`error`).
- `app/` is the program around it: running `git` and `docker`, resolving the
  workspace path and the real CLI, and replacing the process with it.
- `tests/` holds the tests of the library.
