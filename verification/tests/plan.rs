use devcontainerex::args::{Args, ExecArgs};
use devcontainerex::docker::Container;
use devcontainerex::error::DevContainerExError;
use devcontainerex::plan::{exec_step, is_under_workspace, run_exec, toplevel_from_git_output, ExecStep};

fn v(args: &[&str]) -> Vec<String> {
    args.iter().map(|s| s.to_string()).collect()
}

fn parse_exec(args: &[&str]) -> ExecArgs {
    match Args::parse(v(args)) {
        Args::Exec(e) => e,
        Args::Passthrough(_) => panic!("expected Exec"),
    }
}

fn container(name: &str, config_file: &str, local_folder: Option<&str>) -> Container {
    Container {
        name: name.to_string(),
        config_file: config_file.to_string(),
        local_folder: local_folder.map(|s| s.to_string()),
    }
}

#[test]
fn config_file_under_workspace() {
    let ws = "/home/user/projects/foo";
    assert!(is_under_workspace(
        "/home/user/projects/foo/.devcontainer/devcontainer.json",
        ws
    ));
    assert!(is_under_workspace(
        "/home/user/projects/foo/.devcontainer/api/devcontainer.json",
        ws
    ));
    assert!(is_under_workspace(
        "/home/user/projects/foo/devcontainer.json",
        ws
    ));
}

#[test]
fn sibling_directory_is_not_matched() {
    let ws = "/home/user/projects/foo";
    assert!(!is_under_workspace(
        "/home/user/projects/foobar/.devcontainer/devcontainer.json",
        ws
    ));
    assert!(!is_under_workspace(
        "/home/user/projects/bar/.devcontainer/devcontainer.json",
        ws
    ));
}

// Further cases.

#[test]
fn trailing_slash_of_workspace_is_ignored() {
    let c = "/home/user/projects/foo/.devcontainer/devcontainer.json";
    assert!(is_under_workspace(c, "/home/user/projects/foo/"));
    assert!(is_under_workspace(c, "/home/user/projects/foo//"));
    assert!(!is_under_workspace("/home/user/projects/foo", "/home/user/projects/foo/"));
    // the root directory holds everything absolute
    assert!(is_under_workspace("/x/devcontainer.json", "/"));
}

#[test]
fn single_container_gets_label_and_workspace() {
    let a = parse_exec(&["--log-level", "trace", "exec", "bash"]);
    let cs = vec![
        container("other", "/elsewhere/.devcontainer/devcontainer.json", Some("x")),
        container("svc", "/ws/.devcontainer/devcontainer.json", Some("\\\\wsl.localhost\\u\\ws")),
        container("nolabel", "/ws/.devcontainer/b/devcontainer.json", None),
    ];
    let argv = run_exec(a, "/ws", &cs).ok().unwrap();
    assert_eq!(
        argv,
        v(&[
            "--log-level",
            "trace",
            "exec",
            "--id-label",
            "devcontainer.local_folder=\\\\wsl.localhost\\u\\ws",
            "--workspace-folder",
            "/ws",
            "bash"
        ])
    );
}

#[test]
fn given_options_are_not_added_again() {
    let a = parse_exec(&["exec", "--id-label", "a=b", "-w", "/ws", "bash"]);
    let cs = vec![container("svc", "/ws/devcontainer.json", Some("L"))];
    let argv = run_exec(a, "/ws", &cs).ok().unwrap();
    assert_eq!(argv, v(&["exec", "--id-label", "a=b", "-w", "/ws", "bash"]));

    let a = parse_exec(&["exec", "--workspace-folder=/ws", "bash"]);
    let argv = run_exec(a, "/ws", &cs).ok().unwrap();
    assert_eq!(
        argv,
        v(&["exec", "--id-label", "devcontainer.local_folder=L", "--workspace-folder=/ws", "bash"])
    );
}

#[test]
fn no_container_is_not_found() {
    let a = parse_exec(&["exec", "bash"]);
    let cs = vec![container("svc", "/wsx/devcontainer.json", Some("L"))];
    match run_exec(a, "/ws", &cs) {
        Err(DevContainerExError::ContainerNotFound { workspace }) => assert_eq!(workspace, "/ws"),
        _ => panic!("expected ContainerNotFound"),
    }
}

#[test]
fn several_containers_are_ambiguous() {
    let a = parse_exec(&["exec", "bash"]);
    let cs = vec![
        container("svc-api", "/ws/.devcontainer/api/devcontainer.json", Some("L")),
        container("skip", "/ws/.devcontainer/x/devcontainer.json", None),
        container("svc-web", "/ws/.devcontainer/web/devcontainer.json", Some("L")),
    ];
    match run_exec(a, "/ws", &cs) {
        Err(DevContainerExError::AmbiguousContainers(list)) => assert_eq!(
            list,
            vec![
                ("svc-api".to_string(), "/ws/.devcontainer/api/devcontainer.json".to_string()),
                ("svc-web".to_string(), "/ws/.devcontainer/web/devcontainer.json".to_string()),
            ]
        ),
        _ => panic!("expected AmbiguousContainers"),
    }
}

#[test]
fn git_toplevel_output() {
    assert_eq!(toplevel_from_git_output("/repo\n").as_deref(), Some("/repo"));
    assert_eq!(toplevel_from_git_output("  /a b \r\n").as_deref(), Some("/a b"));
    assert_eq!(toplevel_from_git_output(" \n"), None);
    assert_eq!(toplevel_from_git_output(""), None);
}

#[test]
fn help_call_is_handed_on_without_container() {
    let argv = v(&["exec", "--help"]);
    let a = parse_exec(&["exec", "--help"]);
    assert_eq!(run_exec(a, "/ws", &Vec::new()).ok().unwrap(), argv);
    let cs = vec![container("svc", "/ws/devcontainer.json", Some("L"))];
    let a = parse_exec(&["exec", "--version"]);
    assert_eq!(run_exec(a, "/ws", &cs).ok().unwrap(), v(&["exec", "--version"]));
}

#[test]
fn exec_step_hands_help_calls_on() {
    match exec_step(parse_exec(&["--log-level", "x", "exec", "--help"])) {
        ExecStep::Handoff(argv) => assert_eq!(argv, v(&["--log-level", "x", "exec", "--help"])),
        ExecStep::FindContainer(_) => panic!("expected Handoff"),
    }
    match exec_step(parse_exec(&["exec", "bash"])) {
        ExecStep::FindContainer(a) => assert_eq!(a.post, v(&["bash"])),
        ExecStep::Handoff(_) => panic!("expected FindContainer"),
    }
}
