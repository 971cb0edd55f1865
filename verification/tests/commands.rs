use agency::command::{expand_argv, expand_vars_in_argv, replace_root, split_program, CmdCtx, Command, CommandError};
use agency::config::AgentConfig;

fn env(pairs: &[(&str, &str)]) -> Vec<(String, String)> {
    pairs.iter().map(|(k, v)| (k.to_string(), v.to_string())).collect()
}

#[test]
fn command_new_errors_on_empty() {
    let argv: Vec<String> = vec![];
    let err = Command::new(&argv, ".").err().expect("should error on empty argv");
    let msg = err.message();
    assert!(msg.contains("empty"), "error message should mention empty: {msg}");
}

#[test]
fn command_new_parses_single_program() {
    let argv = vec!["sh".to_string()];
    let cmd = Command::new(&argv, ".").ok().unwrap();
    assert_eq!(cmd.program, "sh");
    assert!(cmd.args.is_empty());
}

#[test]
fn command_new_parses_with_args() {
    let argv = vec!["sh".to_string(), "-c".to_string(), "echo hi".to_string()];
    let cmd = Command::new(&argv, ".").ok().unwrap();
    assert_eq!(cmd.program, "sh");
    assert_eq!(cmd.args, vec!["-c", "echo hi"]);
}

#[test]
fn command_new_rejects_blank_program() {
    let argv = vec!["  ".to_string(), "x".to_string()];
    assert_eq!(Command::new(&argv, ".").err(), Some(CommandError::EmptyProgram));
    assert_eq!(CommandError::EmptyProgram.message(), "command program is empty");
}

#[test]
fn agent_config_get_cmd_success() {
    let ac = AgentConfig { cmd: vec!["echo".to_string(), "hello".to_string()] };
    let cmd = ac.get_cmd("echo-agent", "/w").ok().unwrap();
    assert_eq!(cmd.program, "echo");
    assert_eq!(cmd.args, vec!["hello"]);
    assert_eq!(cmd.cwd, "/w");
}

#[test]
fn agent_config_get_cmd_errors_on_empty() {
    let ac = AgentConfig { cmd: vec![] };
    let err = ac.get_cmd("x", ".").err().expect("should fail");
    let msg = err.message();
    assert!(msg.contains("not defined"));
}

#[test]
fn expands_root_placeholder() {
    let ctx = CmdCtx::with_env("/repo", Vec::new());
    let out = expand_argv(&vec!["echo".into(), "<root>".into()], &ctx);
    assert_eq!(out, vec!["echo", "/repo"]);
}

#[test]
fn expands_vars_in_tokens() {
    let ctx = CmdCtx::with_env("/r", env(&[("FOO", "bar")]));
    let out = expand_argv(&vec!["echo".into(), "$FOO".into()], &ctx);
    assert_eq!(out, vec!["echo", "bar"]);
}

#[test]
fn mixed_text_expands_inline_and_root() {
    let ctx = CmdCtx::with_env("/root", env(&[("X", "1")]));
    let out = expand_argv(&vec!["echo".into(), "pre-<root>-$X".into()], &ctx);
    assert_eq!(out, vec!["echo", "pre-/root-1"]);
}

#[test]
fn unknown_var_becomes_empty() {
    let ctx = CmdCtx::with_env("/r", Vec::new());
    let out = expand_argv(&vec!["echo".into(), "$NOPE".into()], &ctx);
    assert_eq!(out, vec!["echo", ""]);
}

#[test]
fn expand_vars_in_argv_supports_sh_dash_c_with_task() {
    let e = env(&[("AGENCY_TASK", "Do something")]);
    let argv = vec!["sh".to_string(), "-c".to_string(), "echo Task: $AGENCY_TASK".to_string()];
    let expanded = expand_vars_in_argv(&argv, &e);
    assert_eq!(expanded[0], "sh");
    assert_eq!(expanded[1], "-c");
    assert_eq!(expanded[2], "echo Task: Do something");
}

#[test]
fn expand_vars_in_argv_unknown_var_becomes_empty_string() {
    let argv = vec!["echo".to_string(), "$UNKNOWN".to_string()];
    assert_eq!(expand_vars_in_argv(&argv, &[]), vec!["echo", ""]);
}

#[test]
fn expand_vars_in_argv_mixed_text_expands_inline() {
    let e = env(&[("AGENCY_TASK", "X")]);
    let argv = vec!["echo".to_string(), "pre-$AGENCY_TASK-post".to_string()];
    assert_eq!(expand_vars_in_argv(&argv, &e), vec!["echo", "pre-X-post"]);
}

#[test]
fn later_environment_entries_win() {
    let e = env(&[("A", "old"), ("A", "new")]);
    assert_eq!(expand_vars_in_argv(&vec!["$A".to_string()], &e), vec!["new"]);
}

#[test]
fn replace_root_replaces_every_occurrence() {
    assert_eq!(replace_root("<root>/a:<root>", "/r"), "/r/a:/r");
    assert_eq!(replace_root("<roo<root>", "X"), "<rooX");
    assert_eq!(replace_root("none", "X"), "none");
}

#[test]
fn split_program_takes_first_word() {
    let (p, a) = split_program(&vec!["coder".to_string(), "--x".to_string()]).unwrap();
    assert_eq!(p, "coder");
    assert_eq!(a, vec!["--x"]);
    assert!(split_program(&[]).is_none());
}
