use devcontainerex::args::{find_exec_token, Args, ExecArgs};

fn v(args: &[&str]) -> Vec<String> {
    args.iter().map(|s| s.to_string()).collect()
}

fn parse_exec(args: &[&str]) -> ExecArgs {
    match Args::parse(v(args)) {
        Args::Exec(e) => e,
        Args::Passthrough(_) => panic!("expected Exec"),
    }
}

#[test]
fn no_args_is_passthrough() {
    assert!(matches!(Args::parse(Vec::new()), Args::Passthrough(_)));
}

#[test]
fn exec_without_command_is_kept_as_is() {
    let e = parse_exec(&["exec"]);
    assert_eq!(e.into_argv(Vec::new()), v(&["exec"]));
}

#[test]
fn exec_as_first_arg() {
    assert_eq!(find_exec_token(&v(&["exec", "bash"])), Some(0));
}

#[test]
fn exec_after_options() {
    assert_eq!(
        find_exec_token(&v(&["--log-level", "trace", "exec", "bash"])),
        Some(2)
    );
}

#[test]
fn other_subcommands_are_passthrough() {
    assert!(matches!(
        Args::parse(v(&["up", "--workspace-folder", "."])),
        Args::Passthrough(_)
    ));
    assert!(matches!(
        Args::parse(v(&["features", "test"])),
        Args::Passthrough(_)
    ));
}

#[test]
fn exec_after_double_dash_is_ignored() {
    assert!(matches!(
        Args::parse(v(&["up", "--", "exec"])),
        Args::Passthrough(_)
    ));
}

#[test]
fn help_before_exec_is_passthrough() {
    assert!(matches!(
        Args::parse(v(&["--help", "exec", "bash"])),
        Args::Passthrough(_)
    ));
}

#[test]
fn help_after_exec_is_detected() {
    assert!(parse_exec(&["exec", "--help"]).help_requested);
    assert!(!parse_exec(&["exec", "bash"]).help_requested);
}

#[test]
fn help_after_double_dash_is_container_side() {
    assert!(!parse_exec(&["exec", "--", "somecmd", "--help"]).help_requested);
}

#[test]
fn insert_goes_right_after_exec_token() {
    let e = parse_exec(&["--log-level", "trace", "exec", "bash"]);
    assert_eq!(
        e.into_argv(v(&["--id-label", "a=b"])),
        v(&["--log-level", "trace", "exec", "--id-label", "a=b", "bash"])
    );
}

#[test]
fn workspace_space_form() {
    let e = parse_exec(&["exec", "--workspace-folder", "/p", "bash"]);
    assert_eq!(e.workspace_folder.as_deref(), Some("/p"));
    assert!(e.has_workspace_flag);
}

#[test]
fn workspace_equals_form() {
    let e = parse_exec(&["exec", "--workspace-folder=/p", "bash"]);
    assert_eq!(e.workspace_folder.as_deref(), Some("/p"));
}

#[test]
fn workspace_short_form() {
    assert_eq!(
        parse_exec(&["exec", "-w", "/p"])
            .workspace_folder
            .as_deref(),
        Some("/p")
    );
    assert_eq!(
        parse_exec(&["exec", "-w=/p"]).workspace_folder.as_deref(),
        Some("/p")
    );
}

#[test]
fn workspace_before_exec_token() {
    let e = parse_exec(&["--workspace-folder", "/p", "exec", "bash"]);
    assert_eq!(e.workspace_folder.as_deref(), Some("/p"));
    assert!(e.has_workspace_flag);
}

#[test]
fn workspace_none() {
    let e = parse_exec(&["exec", "bash"]);
    assert_eq!(e.workspace_folder, None);
    assert!(!e.has_workspace_flag);
}

#[test]
fn workspace_not_peeked_after_double_dash() {
    let e = parse_exec(&["exec", "--", "somecmd", "--workspace-folder", "/x"]);
    assert_eq!(e.workspace_folder, None);
}

#[test]
fn id_label_both_forms() {
    assert!(parse_exec(&["exec", "--id-label", "a=b"]).has_id_label);
    assert!(parse_exec(&["exec", "--id-label=a=b"]).has_id_label);
    assert!(parse_exec(&["--id-label", "a=b", "exec"]).has_id_label);
    assert!(!parse_exec(&["exec", "--id-labelx"]).has_id_label);
    assert!(!parse_exec(&["exec", "bash"]).has_id_label);
    assert!(!parse_exec(&["exec", "--", "--id-label"]).has_id_label);
}

// Further cases.

#[test]
fn passthrough_keeps_the_call_unchanged() {
    let argv = v(&["up", "--workspace-folder", ".", "--", "exec"]);
    match Args::parse(argv.clone()) {
        Args::Passthrough(p) => assert_eq!(p, argv),
        Args::Exec(_) => panic!("expected Passthrough"),
    }
}

#[test]
fn exec_split_rebuilds_call() {
    let argv = v(&["--log-level", "trace", "exec", "-w", "/p", "--", "ls", "--help"]);
    let e = parse_exec(&["--log-level", "trace", "exec", "-w", "/p", "--", "ls", "--help"]);
    assert_eq!(e.pre, v(&["--log-level", "trace"]));
    assert_eq!(e.post, v(&["-w", "/p", "--", "ls", "--help"]));
    assert!(!e.help_requested);
    assert_eq!(e.into_argv(Vec::new()), argv);
}

#[test]
fn help_between_exec_and_double_dash_passes_through_whole() {
    let argv = v(&["exec", "--version", "--", "x"]);
    let e = parse_exec(&["exec", "--version", "--", "x"]);
    assert!(e.help_requested);
    assert_eq!(e.into_argv(Vec::new()), argv);
}

#[test]
fn exec_after_help_after_double_dash_is_exec() {
    // `--help` behind `--` does not stop the call from being an exec call
    assert!(matches!(Args::parse(v(&["exec", "--", "--help"])), Args::Exec(_)));
}

#[test]
fn exec_token_absent() {
    assert_eq!(find_exec_token(&v(&["up", "--", "exec"])), None);
    assert_eq!(find_exec_token(&v(&[])), None);
    assert_eq!(find_exec_token(&v(&["--", "exec", "exec"])), None);
}

#[test]
fn first_workspace_option_wins_and_pre_before_post() {
    let e = parse_exec(&["-w=/a", "--workspace-folder", "/b", "exec", "-w", "/c"]);
    assert_eq!(e.workspace_folder.as_deref(), Some("/a"));
    let e = parse_exec(&["--log-level", "x", "exec", "-w", "/c"]);
    assert_eq!(e.workspace_folder.as_deref(), Some("/c"));
}

#[test]
fn workspace_flag_without_value() {
    let e = parse_exec(&["exec", "-w"]);
    assert_eq!(e.workspace_folder, None);
    assert!(e.has_workspace_flag);
    let e = parse_exec(&["exec", "--workspace-folder=", "bash"]);
    assert_eq!(e.workspace_folder.as_deref(), Some(""));
}

#[test]
fn workspace_value_taken_even_when_it_is_double_dash() {
    let e = parse_exec(&["exec", "-w", "--", "x"]);
    assert_eq!(e.workspace_folder.as_deref(), Some("--"));
}

#[test]
fn workspace_flag_prefix_without_equals_is_no_flag() {
    let e = parse_exec(&["exec", "-wx", "--workspace-folderx"]);
    assert_eq!(e.workspace_folder, None);
    assert!(!e.has_workspace_flag);
}

#[test]
fn non_ascii_arguments() {
    let e = parse_exec(&["exec", "-w=/データ/ü", "bash"]);
    assert_eq!(e.workspace_folder.as_deref(), Some("/データ/ü"));
}
