use devcontainerex::error::DevContainerExError;
use devcontainerex::locate::{cli_next, is_real_cli, workspace_next, CliNext, WorkspaceNext};

fn b(s: &str) -> Vec<u8> {
    s.as_bytes().to_vec()
}

#[test]
fn workspace_order() {
    let s = |x: &str| x.to_string();
    assert!(matches!(workspace_next(Some(s("/p")), None), WorkspaceNext::Use(p) if p == "/p"));
    assert!(matches!(
        workspace_next(Some(s("/p")), Some(Some(s("/g")))),
        WorkspaceNext::Use(p) if p == "/p"
    ));
    assert!(matches!(workspace_next(None, None), WorkspaceNext::AskGit));
    assert!(matches!(workspace_next(None, Some(Some(s("/g")))), WorkspaceNext::Use(p) if p == "/g"));
    assert!(matches!(workspace_next(None, Some(None)), WorkspaceNext::AskCurrentDir));
}

#[test]
fn cli_order() {
    assert!(matches!(cli_next(Some(b("/x/dc")), None), Ok(CliNext::Use(p)) if p == b("/x/dc")));
    assert!(matches!(
        cli_next(Some(b("/x/dc")), Some(None)),
        Ok(CliNext::Use(p)) if p == b("/x/dc")
    ));
    assert!(matches!(cli_next(None, None), Ok(CliNext::SearchPath)));
    assert!(matches!(cli_next(None, Some(Some(b("/usr/bin/dc")))), Ok(CliNext::Use(p)) if p == b("/usr/bin/dc")));
    assert!(matches!(cli_next(None, Some(None)), Err(DevContainerExError::CliNotFound)));
}

#[test]
fn own_executable_is_not_the_cli() {
    let me = Some(b("/home/u/.local/bin/devcontainerex"));
    assert!(!is_real_cli(true, Some(b("/home/u/.local/bin/devcontainerex")), me.clone()));
    assert!(is_real_cli(true, Some(b("/usr/bin/devcontainer")), me.clone()));
    assert!(!is_real_cli(false, Some(b("/usr/bin/devcontainer")), me.clone()));
    assert!(!is_real_cli(true, None, me));
    assert!(is_real_cli(true, Some(b("/usr/bin/devcontainer")), None));
}
