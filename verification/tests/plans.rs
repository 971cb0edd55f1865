use agency::bootstrap::{
    bootstrap_worktree, candidate_root_files, dir_file_copied, is_excluded, parse_ignored, run_bootstrap_in_worktree,
    sync_copy_small_gitignored_files, BootstrapConfig, RootEntry, MAX_BOOTSTRAP_FILE_BYTES,
};
use agency::colors::{ansi_segments, segments, AnsiEvent, SegmentStyle};
use agency::config::{AgencyConfig, AgentConfig, AgentEntry};
use agency::git::{
    git_failure_message, hard_reset_to_head_at, is_in_worktree, prune_worktree_if_exists_at, rebase_onto,
    update_branch_ref_at,
};
use agency::paths::starts_with_path;
use agency::command::{expand_argv, CmdCtx};
use agency::session::{
    agent_command, build_session_plan, override_env, plan_session, resolve_shell_argv, shell_program, task_env_entries,
    PlanError,
};
use agency::task::{TaskFrontmatter, TaskRef};
use agency::tmux::parse_session_line;
use agency::tui::app::{dispatch_plan, Dispatch, TaskCommand};
use agency::tui::task_table::Action;
use agency::wizard::{default_index, select_from_reply, text_from_reply, Choice, Wizard, WizardError};

fn s(v: &[&str]) -> Vec<String> {
    v.iter().map(|x| x.to_string()).collect()
}

fn print(text: &str) -> Vec<AnsiEvent> {
    text.chars().map(AnsiEvent::Print).collect()
}

fn sgr(p: u16) -> AnsiEvent {
    AnsiEvent::Csi { params: vec![vec![p]], action: b'm' }
}

#[test]
fn parse_basic_color_sequences() {
    let mut events = vec![sgr(31)];
    events.extend(print("red"));
    events.push(sgr(0));
    events.extend(print(" plain"));
    let segs = segments(&events);
    assert!(segs.len() >= 2);
    assert_eq!(segs[0].0, "red");
    assert_eq!(segs[0].1.fg, Some(1));
    assert_eq!(segs[1].0, " plain");
    assert_eq!(segs[1].1, SegmentStyle { fg: None, bold: false, italic: false, underline: false });
}

#[test]
fn segments_follow_effects_and_bright_colors() {
    let mut events = print("a");
    events.push(AnsiEvent::Csi { params: vec![vec![1], vec![94]], action: b'm' });
    events.extend(print("b"));
    events.push(AnsiEvent::Csi { params: vec![vec![2]], action: b'J' });
    events.extend(print("c"));
    events.push(sgr(39));
    let segs = segments(&events);
    assert_eq!(segs.len(), 2);
    assert_eq!(segs[0].0, "a");
    assert_eq!(segs[1].0, "bc");
    assert!(segs[1].1.bold);
    assert_eq!(segs[1].1.fg, Some(12));
    assert!(segments(&Vec::new()).is_empty());
}

fn entry(name: &str, is_file: bool, size: u64, exists: bool) -> RootEntry {
    RootEntry { name: name.to_string(), is_file, is_dir: !is_file, size, exists_in_worktree: exists }
}

#[test]
fn bootstrap_picks_ignored_small_files_and_included_dirs() {
    let cfg = BootstrapConfig { included_dirs: s(&["node_modules"]), exclude: s(&["secret.env"]), cmd: Vec::new() };
    let entries = vec![
        entry(".env", true, 100, false),
        entry("big.bin", true, 200_000, false),
        entry("huge.bin", true, MAX_BOOTSTRAP_FILE_BYTES + 1, false),
        entry("secret.env", true, 10, false),
        entry("copied.txt", true, 10, true),
        entry("tracked.rs", true, 10, false),
        entry("node_modules", false, 0, false),
        entry("target", false, 0, false),
        entry(".git", false, 0, false),
    ];
    let ignored = parse_ignored(".env\nbig.bin\nhuge.bin\nsecret.env\ncopied.txt\n\nnode_modules\n");
    assert_eq!(ignored, s(&[".env", "big.bin", "huge.bin", "secret.env", "copied.txt", "node_modules"]));
    assert_eq!(candidate_root_files(&entries, &cfg), s(&[".env", "big.bin", "huge.bin", "copied.txt", "tracked.rs"]));
    assert_eq!(sync_copy_small_gitignored_files(&entries, &cfg, &ignored), s(&[".env"]));
    let (files, dirs) = bootstrap_worktree(&entries, &cfg, &ignored);
    assert_eq!(files, s(&[".env", "big.bin"]));
    assert_eq!(dirs, s(&["node_modules"]));
    assert!(is_excluded(".agency", &cfg));
    assert!(!is_excluded("src", &cfg));
    assert!(dir_file_copied(5, false));
    assert!(!dir_file_copied(5, true));
}

#[test]
fn bootstrap_command_plan() {
    let none = BootstrapConfig { included_dirs: Vec::new(), exclude: Vec::new(), cmd: Vec::new() };
    assert!(run_bootstrap_in_worktree(&none, "/r", &[], true).is_none());
    let default = BootstrapConfig { included_dirs: Vec::new(), exclude: Vec::new(), cmd: s(&["<root>/.agency/setup.sh"]) };
    assert!(run_bootstrap_in_worktree(&default, "/r", &[], false).is_none());
    assert_eq!(run_bootstrap_in_worktree(&default, "/r", &[], true).unwrap(), s(&["/r/.agency/setup.sh"]));
    let custom = BootstrapConfig { included_dirs: Vec::new(), exclude: Vec::new(), cmd: s(&["make", "$TARGET"]) };
    let env = vec![("TARGET".to_string(), "deps".to_string())];
    assert_eq!(run_bootstrap_in_worktree(&custom, "/r", &env, false).unwrap(), s(&["make", "deps"]));
}

#[test]
fn git_arguments_and_messages() {
    assert_eq!(update_branch_ref_at("agency/1-a", "abc"), s(&["update-ref", "refs/heads/agency/1-a", "abc"]));
    assert_eq!(rebase_onto("main"), s(&["rebase", "main"]));
    assert_eq!(hard_reset_to_head_at(), s(&["reset", "--hard"]));
    let (remove, prune) = prune_worktree_if_exists_at("/w/1-a");
    assert_eq!(remove, s(&["worktree", "remove", "--force", "/w/1-a"]));
    assert_eq!(prune, s(&["worktree", "prune"]));
    assert_eq!(git_failure_message(&s(&["rebase", "main"]), "exit status: 1"), "git rebase main exited with status exit status: 1");
}

#[test]
fn worktree_detection_by_path_components() {
    assert!(starts_with_path("/p/.agency/worktrees/1-a/src", "/p/.agency/worktrees"));
    assert!(!starts_with_path("/p/.agency/worktrees-old", "/p/.agency/worktrees"));
    assert!(starts_with_path("/p//x/./y", "/p/x"));
    assert!(is_in_worktree(true, false, None, None));
    assert!(!is_in_worktree(false, false, Some("/w/a"), Some("/w")));
    assert!(is_in_worktree(false, true, Some("/w/a"), Some("/w")));
    assert!(!is_in_worktree(false, true, None, Some("/w")));
}

#[test]
fn session_environment_and_plan() {
    let env = task_env_entries(7, "Do it", "/repo", true);
    assert_eq!(env[0].0, "AGENCY_TASK");
    assert!(env[0].1.starts_with("Do it\n\n<agency>\n"));
    assert_eq!(env[1], ("AGENCY_ROOT".to_string(), "/repo".to_string()));
    assert_eq!(env[2], ("AGENCY_TASK_ID".to_string(), "7".to_string()));
    assert_eq!(task_env_entries(7, "  ", "/repo", true)[0].1, "  ");
    let task = TaskRef { id: 7, slug: "a".to_string() };
    let plan = build_session_plan(&task, "/repo", "/w", env, &s(&["agent", "--fast"]), s(&["zsh", "-l"])).unwrap();
    assert_eq!(plan.agent_program, "agent");
    assert_eq!(plan.agent_args, s(&["--fast"]));
    assert_eq!(plan.task_meta.id, 7);
    assert_eq!(build_session_plan(&task, "/r", "/w", Vec::new(), &[], Vec::new()).err(), Some(PlanError::EmptyArgv));
    assert_eq!(shell_program(&[]), ("/bin/sh".to_string(), Vec::new()));
    assert_eq!(shell_program(&s(&["zsh", "-l"])), ("zsh".to_string(), s(&["-l"])));
}

#[test]
fn agent_lookup() {
    let mut cfg = AgencyConfig::empty();
    cfg.agents = vec![
        AgentEntry { name: "one".to_string(), config: AgentConfig { cmd: s(&["one-cli"]) } },
        AgentEntry { name: "two".to_string(), config: AgentConfig { cmd: s(&["two-cli", "-x"]) } },
    ];
    assert_eq!(agent_command(&cfg, None).err(), Some(PlanError::NoAgent { known: s(&["one", "two"]) }));
    let fm = TaskFrontmatter { agent: Some("two".to_string()), base_branch: None };
    assert_eq!(agent_command(&cfg, Some(&fm)).ok(), Some(("two".to_string(), s(&["two-cli", "-x"]))));
    cfg.agent = Some("three".to_string());
    assert_eq!(agent_command(&cfg, None).err(), Some(PlanError::UnknownAgent { name: "three".to_string() }));
}

#[test]
fn session_listing_lines() {
    let line = "agency-3-fix-bug\t$12\t1700000000\t/repo\t2";
    let l = parse_session_line(line, "/repo").unwrap();
    assert_eq!((l.task_id, l.slug.as_str()), (3, "fix-bug"));
    assert_eq!(l.session_id, 12);
    assert_eq!(l.created_at_ms, 1_700_000_000_000);
    assert_eq!(l.clients, 2);
    assert_eq!(l.name, "agency-3-fix-bug");
    assert!(parse_session_line(line, "/other").is_none());
    assert!(parse_session_line("agency-3-x\t$1\t5\t/repo", "/repo").is_none());
    assert!(parse_session_line("misc\t$1\t5\t/repo\t0", "/repo").is_none());
    let odd = parse_session_line("agency-1-a\tx\ty\t/repo\tz", "/repo").unwrap();
    assert_eq!((odd.session_id, odd.created_at_ms, odd.clients), (0, 0, 0));
}

#[test]
fn dispatch_logs_task_commands() {
    assert_eq!(dispatch_plan(Action::Noop), Dispatch::Idle);
    assert_eq!(dispatch_plan(Action::SelectionChanged { id: 4 }), Dispatch::FocusChanged { id: 4 });
    assert_eq!(
        dispatch_plan(Action::StartTask { id: 4 }),
        Dispatch::Run { command: TaskCommand::Start, id: 4, log_line: Some("agency start --no-attach 4".to_string()), mark_pending_delete: false }
    );
    assert_eq!(
        dispatch_plan(Action::DeleteTask { id: 9 }),
        Dispatch::Run { command: TaskCommand::Remove, id: 9, log_line: Some("agency rm 9".to_string()), mark_pending_delete: true }
    );
    assert_eq!(
        dispatch_plan(Action::OpenTask { id: 2 }),
        Dispatch::Run { command: TaskCommand::Open, id: 2, log_line: None, mark_pending_delete: false }
    );
    assert_eq!(dispatch_plan(Action::NewTask { start_and_attach: true }), Dispatch::OpenNewTask { start_and_attach: true });
}

fn choices() -> Vec<Choice> {
    vec![
        Choice { value: "a".to_string(), label: "Alpha".to_string(), detail: None },
        Choice { value: "b".to_string(), label: "Beta".to_string(), detail: Some("second".to_string()) },
    ]
}

#[test]
fn wizard_reads_replies() {
    let c = choices();
    assert_eq!(default_index(&c, Some("b")), 1);
    assert_eq!(default_index(&c, Some("z")), 0);
    assert_eq!(select_from_reply(&c, Some("b"), "  \n").unwrap(), "b");
    assert_eq!(select_from_reply(&c, None, "").unwrap(), "a");
    assert_eq!(select_from_reply(&c, None, "2").unwrap(), "b");
    assert_eq!(select_from_reply(&c, None, "BETA").unwrap(), "b");
    assert_eq!(select_from_reply(&c, None, "3").unwrap_err(), WizardError::InvalidSelection);
    assert_eq!(select_from_reply(&[], None, "1").unwrap_err(), WizardError::NoOptions);
    assert_eq!(text_from_reply("  x  ", "d"), "x");
    assert_eq!(text_from_reply("   ", "d"), "d");
    assert_eq!(Wizard::info_lines(&s(&["one", ""])), s(&["one", ""]));
    assert!(Wizard::with_tty(true).is_tty);
}

#[test]
fn typed_commands_split_like_a_shell() {
    let w = Wizard::with_tty(false);
    let words = w.shell_words("coder --model \"big one\" 'x y' z\\ w").unwrap();
    assert_eq!(words, vec!["coder", "--model", "big one", "x y", "z w"]);
    assert_eq!(w.shell_words("echo 'unclosed"), Err(WizardError::InvalidShellCommand));
    assert_eq!(w.shell_words("   ").unwrap(), Vec::<String>::new());
}

#[test]
fn command_default_joins_words_with_spaces() {
    let argv = vec!["coder".to_string(), "--yes".to_string()];
    assert_eq!(Wizard::command_default(&argv), "coder --yes");
    assert_eq!(Wizard::command_default(&[]), "");
}

#[test]
fn plan_error_messages() {
    let e = PlanError::NoAgent { known: vec!["coder".to_string(), "helper".to_string()] };
    assert_eq!(
        e.message(),
        "no agent selected. Set `agent` in config or add YAML front matter. Known agents: coder, helper"
    );
    assert_eq!(PlanError::NoAgent { known: vec![] }.message(), "no agent selected. Set `agent` in config or add YAML front matter. Known agents: ");
    assert_eq!(PlanError::UnknownAgent { name: "x".to_string() }.message(), "unknown agent: x");
    assert_eq!(PlanError::EmptyArgv.message(), "expanded agent argv is empty");
}

#[test]
fn prefers_config_over_env() {
    let cfg = AgencyConfig { shell: Some(vec!["zsh".to_string(), "-l".to_string()]), ..AgencyConfig::empty() };
    let argv = resolve_shell_argv(&cfg, Some("/bin/bash"));
    assert_eq!(argv, vec!["zsh", "-l"]);
}

#[test]
fn falls_back_to_env_shell() {
    let cfg = AgencyConfig::empty();
    let argv = resolve_shell_argv(&cfg, Some("/bin/fish"));
    assert_eq!(argv, vec!["/bin/fish"]);
}

#[test]
fn falls_back_to_bin_sh_when_env_missing() {
    let cfg = AgencyConfig::empty();
    let argv = resolve_shell_argv(&cfg, None);
    assert_eq!(argv, vec!["/bin/sh"]);
}

#[test]
fn blank_shell_settings_are_skipped() {
    let cfg = AgencyConfig { shell: Some(vec![]), ..AgencyConfig::empty() };
    assert_eq!(resolve_shell_argv(&cfg, Some("   ")), vec!["/bin/sh"]);
}

#[test]
fn agent_run_line_quotes_for_the_shell() {
    let args = vec!["--msg".to_string(), "hello world".to_string(), "it's".to_string()];
    assert_eq!(agency::session::agent_run_line("coder", &args), " coder --msg 'hello world' 'it'\\''s'");
    assert_eq!(agency::session::agent_run_line("coder", &[]), " coder");
}

fn pairs(v: &[(&str, &str)]) -> Vec<(String, String)> {
    v.iter().map(|(k, val)| (k.to_string(), val.to_string())).collect()
}

#[test]
fn task_variables_override_the_process_environment() {
    let base = pairs(&[("PATH", "/bin"), ("AGENCY_TASK_ID", "9"), ("HOME", "/h"), ("AGENCY_ROOT", "/old")]);
    let entries = task_env_entries(3, "Fix it", "/repo", false);
    let env = override_env(&base, &entries);
    assert_eq!(
        env,
        pairs(&[
            ("PATH", "/bin"),
            ("HOME", "/h"),
            ("AGENCY_TASK", "Fix it"),
            ("AGENCY_ROOT", "/repo"),
            ("AGENCY_TASK_ID", "3"),
        ])
    );
}

#[test]
fn override_env_keeps_base_when_nothing_is_set() {
    let base = pairs(&[("A", "1"), ("B", "2")]);
    assert_eq!(override_env(&base, &[]), base);
    assert_eq!(override_env(&[], &pairs(&[("A", "x")])), pairs(&[("A", "x")]));
}

fn agents_cfg(default: Option<&str>) -> AgencyConfig {
    AgencyConfig {
        agent: default.map(|d| d.to_string()),
        agents: vec![
            AgentEntry { name: "coder".to_string(), config: AgentConfig { cmd: s(&["coder", "--root", "<root>", "--task=$AGENCY_TASK_ID"]) } },
            AgentEntry { name: "blank".to_string(), config: AgentConfig { cmd: vec![] } },
        ],
        ..AgencyConfig::empty()
    }
}

#[test]
fn plan_session_expands_the_agent_with_the_task_environment() {
    let task = TaskRef { id: 12, slug: "fix".to_string() };
    let cfg = agents_cfg(Some("coder"));
    let env = pairs(&[("PATH", "/bin"), ("AGENCY_TASK_ID", "99")]);
    let plan = plan_session(&task, &cfg, None, "Do it", "/repo", "/repo/.agency/worktrees/12-fix", false, &env, s(&["zsh"])).unwrap();
    assert_eq!(plan.agent_program, "coder");
    assert_eq!(plan.agent_args, s(&["--root", "/repo", "--task=12"]));
    assert_eq!(plan.env.iter().filter(|(k, _)| k == "AGENCY_TASK_ID").map(|(_, v)| v.clone()).collect::<Vec<_>>(), s(&["12"]));
    assert_eq!(plan.task_meta.id, 12);
    assert_eq!(plan.worktree_dir, "/repo/.agency/worktrees/12-fix");
    assert_eq!(plan.shell_argv, s(&["zsh"]));
}

#[test]
fn plan_session_refuses_missing_unknown_and_empty_agents() {
    let task = TaskRef { id: 1, slug: "a".to_string() };
    let none = plan_session(&task, &agents_cfg(None), None, "", "/r", "/w", false, &[], vec![]);
    assert!(matches!(none, Err(PlanError::NoAgent { .. })));
    let fm = TaskFrontmatter { agent: Some("ghost".to_string()), base_branch: None };
    let unknown = plan_session(&task, &agents_cfg(Some("coder")), Some(&fm), "", "/r", "/w", false, &[], vec![]);
    assert!(matches!(unknown, Err(PlanError::UnknownAgent { name }) if name == "ghost"));
    let empty = plan_session(&task, &agents_cfg(Some("blank")), None, "", "/r", "/w", false, &[], vec![]);
    assert!(matches!(empty, Err(PlanError::EmptyArgv)));
}

#[test]
fn expand_argv_replaces_root_and_variables() {
    let ctx = CmdCtx::with_env("/root", pairs(&[("X", "1"), ("FOO", "bar")]));
    assert_eq!(expand_argv(&s(&["echo", "pre-<root>-$X", "$FOO$FOO", "$$X", "$1", "$NOPE", "a$X_b"]), &ctx), s(&["echo", "pre-/root-1", "barbar", "$1", "$1", "", "a"]));
}

#[test]
fn ansi_segments_read_the_escape_sequences() {
    let plain = SegmentStyle { fg: None, bold: false, italic: false, underline: false };
    let segs = ansi_segments("a\x1b[31mb\x1b[1;94mc\x1b[0m d");
    let want = vec![
        ("a".to_string(), plain),
        ("b".to_string(), SegmentStyle { fg: Some(1), ..plain }),
        ("c".to_string(), SegmentStyle { fg: Some(12), bold: true, ..plain }),
        (" d".to_string(), plain),
    ];
    assert_eq!(segs, want);
    assert_eq!(ansi_segments("no escapes"), vec![("no escapes".to_string(), plain)]);
}

#[test]
fn agent_run_line_splits_back_into_the_command() {
    let words = s(&["coder", "", "a b", "it's", "x\ny", "#no", "$HOME"]);
    let line = agency::session::agent_run_line(&words[0], &words[1..]);
    assert_eq!(Wizard::with_tty(false).shell_words(&line[1..]).unwrap(), words);
}
