use devcontainerex::error::DevContainerExError;

#[test]
fn docker_failed_appends_trimmed_stderr() {
    let e = DevContainerExError::DockerFailed {
        command: "docker ps",
        stderr: "boom\n".to_string(),
    };
    assert_eq!(e.message(), "docker ps failed.\nboom");

    let e = DevContainerExError::DockerFailed {
        command: "docker ps",
        stderr: String::new(),
    };
    assert_eq!(e.message(), "docker ps failed.");
}

#[test]
fn ambiguous_containers_lists_candidates() {
    let e = DevContainerExError::AmbiguousContainers(vec![
        (
            "svc-api".to_string(),
            "/ws/.devcontainer/api/devcontainer.json".to_string(),
        ),
        (
            "svc-web".to_string(),
            "/ws/.devcontainer/web/devcontainer.json".to_string(),
        ),
    ]);
    let s = e.message();
    assert!(s.contains("svc-api  (/ws/.devcontainer/api/devcontainer.json)"));
    assert!(s.contains("svc-web  (/ws/.devcontainer/web/devcontainer.json)"));
}

// Further cases.

#[test]
fn docker_failed_whitespace_only_stderr() {
    let e = DevContainerExError::DockerFailed {
        command: "docker inspect",
        stderr: " \t\r\n\u{3000}".to_string(),
    };
    assert_eq!(e.message(), "docker inspect failed.");
    let e = DevContainerExError::DockerFailed {
        command: "docker inspect",
        stderr: "  a\n b \n\n".to_string(),
    };
    assert_eq!(e.message(), "docker inspect failed.\n  a\n b");
}

#[test]
fn ambiguous_message_exact() {
    let e = DevContainerExError::AmbiguousContainers(vec![(
        "n".to_string(),
        "/c".to_string(),
    )]);
    assert_eq!(
        e.message(),
        "multiple candidate containers found; cannot determine which one to enter.\n  n  (/c)"
    );
    let e = DevContainerExError::AmbiguousContainers(Vec::new());
    assert_eq!(
        e.message(),
        "multiple candidate containers found; cannot determine which one to enter."
    );
}

#[test]
fn other_messages() {
    assert_eq!(
        DevContainerExError::Workspace { path: "/x".to_string(), source: "gone".to_string() }
            .message(),
        "failed to resolve workspace path /x: gone"
    );
    assert_eq!(
        DevContainerExError::CurrentDir("denied".to_string()).message(),
        "failed to get the current directory: denied"
    );
    assert_eq!(
        DevContainerExError::DockerSpawn("not found".to_string()).message(),
        "failed to run docker: not found"
    );
    assert_eq!(
        DevContainerExError::DockerParse("EOF".to_string()).message(),
        "failed to parse docker inspect output: EOF"
    );
    assert_eq!(
        DevContainerExError::ContainerNotFound { workspace: "/ws".to_string() }.message(),
        "no matching dev container found.\nStart one first:\n  devcontainer up --workspace-folder /ws"
    );
    assert_eq!(
        DevContainerExError::CliNotFound.message(),
        "devcontainer CLI not found.\nSet the DEVCONTAINEREX_DEVCONTAINER_BIN environment variable to the path of the executable.\nExample: export DEVCONTAINEREX_DEVCONTAINER_BIN=/path/to/devcontainer"
    );
}
