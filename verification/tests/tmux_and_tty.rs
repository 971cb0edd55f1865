use agency::log::{emit_route, LogLevel, LogRoute};
use agency::tmux::{
    activity_stamp_path, created_time_fits, detach_hint, new_session_args, next_ready_delay_ms, pane_dead_in, parse_detach_binding, session_status, window_title, parse_session_name, read_tmux_prefix, session_name, shell_escape,
    tmux_args_base, tmux_socket_path, ui_default_options, DetachBinding, default_terminal, truecolor_features,
    session_options, pipe_pane_command,
};
use agency::tty::{confirm_suffix, reply_answer, ConfirmStep, Tty};

fn check_prefix_table_detach() {
    let got = parse_detach_binding("bind-key -T prefix d detach-client\n", "");
    assert_eq!(got, DetachBinding::WithPrefix { key: "d".into() });
}

fn check_prefix_table_with_flags() {
    let pref = "bind-key -T prefix -r D if-shell -F '#{?client_attached,1,0}' 'detach-client' ''\n";
    assert_eq!(parse_detach_binding(pref, ""), DetachBinding::WithPrefix { key: "D".into() });
}

fn check_prefixless_detach() {
    let got = parse_detach_binding("", "bind-key -n M-d detach-client\n");
    assert_eq!(got, DetachBinding::Prefixless { key: "M-d".into() });
}

fn check_prefer_prefix() {
    let got = parse_detach_binding("bind-key -T prefix d detach-client\n", "bind-key -n M-d detach-client\n");
    assert_eq!(got, DetachBinding::WithPrefix { key: "d".into() });
}

#[test]
fn tmux_parse_prefix_table_detach() {
    check_prefix_table_detach();
}

#[test]
fn config_parse_prefix_table_detach() {
    check_prefix_table_detach();
}

#[test]
fn tmux_parse_prefix_table_with_flags() {
    check_prefix_table_with_flags();
}

#[test]
fn config_parse_prefix_table_with_flags() {
    check_prefix_table_with_flags();
}

#[test]
fn tmux_parse_prefixless_detach() {
    check_prefixless_detach();
}

#[test]
fn config_parse_prefixless_detach() {
    check_prefixless_detach();
}

#[test]
fn tmux_prefer_prefix_over_prefixless_when_both() {
    check_prefer_prefix();
}

#[test]
fn config_prefer_prefix_over_prefixless_when_both() {
    check_prefer_prefix();
}

#[test]
fn detach_binding_unbound_and_crlf() {
    assert_eq!(parse_detach_binding("bind-key -T prefix c new-window\n", ""), DetachBinding::Unbound);
    assert_eq!(
        parse_detach_binding("bind-key -T prefix x kill\r\nbind-key -T prefix q detach-client\r\n", ""),
        DetachBinding::WithPrefix { key: "q".into() }
    );
}

#[test]
fn session_names_round_trip() {
    let name = session_name(12, "my-task");
    assert_eq!(name, "agency-12-my-task");
    assert_eq!(parse_session_name(&name), Some((12, "my-task".to_string())));
    assert_eq!(parse_session_name("other-1-x"), None);
    assert_eq!(parse_session_name("agency-x-y"), None);
}

#[test]
fn socket_path_precedence() {
    assert_eq!(tmux_socket_path(Some("/e"), Some("/c"), Some("/run"), Some("/h")), "/e");
    assert_eq!(tmux_socket_path(None, Some("/c"), Some("/run"), Some("/h")), "/c");
    assert_eq!(tmux_socket_path(None, None, Some("/run"), Some("/h")), "/run/agency-tmux.sock");
    assert_eq!(tmux_socket_path(None, None, None, Some("/h")), "/h/.local/run/agency-tmux.sock");
    assert_eq!(tmux_socket_path(None, None, None, None), "./.local/run/agency-tmux.sock");
    assert_eq!(tmux_args_base("/s"), vec!["-S", "/s"]);
}

#[test]
fn shell_escape_quotes_specials() {
    assert_eq!(shell_escape("a'b\"c\\d"), "a'\\''b\\\"c\\\\d");
    assert_eq!(shell_escape("/plain/path"), "/plain/path");
}

#[test]
fn prefix_falls_back() {
    assert_eq!(read_tmux_prefix(" C-a \n", "C-x"), "C-a");
    assert_eq!(read_tmux_prefix("  ", "C-x"), "C-x");
    assert_eq!(read_tmux_prefix("", ""), "C-b");
}

#[test]
fn stamp_path_and_options() {
    assert_eq!(activity_stamp_path("/p", "agency-1-a"), "/p/.agency/state/tmux-activity/agency-1-a.stamp");
    let opts = ui_default_options();
    assert_eq!(opts.len(), 12);
    assert_eq!(opts[0], ("mouse".to_string(), "on".to_string()));
}

#[test]
fn confirm_with_yes_flag_returns_true() {
    let tty = Tty { is_interactive: false };
    assert_eq!(tty.confirm("Delete?", false, true, false), ConfirmStep::Answer(true));
}

#[test]
fn confirm_non_interactive_returns_default() {
    let tty = Tty { is_interactive: false };
    assert_eq!(tty.confirm("Delete?", false, false, false), ConfirmStep::Answer(false));
    assert_eq!(tty.confirm("Continue?", true, false, false), ConfirmStep::Answer(true));
}

#[test]
fn require_interactive_fails_when_not_tty() {
    let tty = Tty { is_interactive: false };
    let result = tty.require_interactive();
    assert!(result.is_err());
    assert!(result.unwrap_err().message().contains("interactive terminal"));
}

#[test]
fn require_interactive_succeeds_when_tty() {
    let tty = Tty { is_interactive: true };
    assert!(tty.require_interactive().is_ok());
}

#[test]
fn interactive_or_piped_input_is_asked() {
    assert_eq!(Tty { is_interactive: true }.confirm("?", false, false, false), ConfirmStep::Prompt);
    assert_eq!(Tty { is_interactive: false }.confirm("?", false, false, true), ConfirmStep::Prompt);
    assert!(reply_answer("  yes\n", false));
    assert!(!reply_answer("no", true));
    assert!(reply_answer("   ", true));
    assert_eq!(confirm_suffix(true), "[Y/n]");
    assert_eq!(confirm_suffix(false), "[y/N]");
}

#[test]
fn macros_no_panic_without_sink() {
    for (level, text) in [(LogLevel::Info, "A"), (LogLevel::Success, "B"), (LogLevel::Warn, "C"), (LogLevel::Error, "D")] {
        match emit_route(level, text, false) {
            LogRoute::Stdout(t) | LogRoute::Stderr(t) => assert!(t.contains(text)),
            LogRoute::Sink(_) => panic!("no sink is set"),
        }
    }
}

#[test]
fn macros_emit_events_when_sink_set() {
    match emit_route(LogLevel::Info, "Hello world", true) {
        LogRoute::Sink(agency::log::LogEvent::Line { level, ansi }) => {
            assert_eq!(level, LogLevel::Info);
            assert!(ansi.contains("Hello world"));
        }
        _ => panic!("expected a sink event"),
    }
    for level in [LogLevel::Success, LogLevel::Warn, LogLevel::Error] {
        match emit_route(level, "x", true) {
            LogRoute::Sink(agency::log::LogEvent::Line { ansi, .. }) => assert!(ansi.contains("\u{1b}[")),
            _ => panic!("expected a sink event"),
        }
    }
    assert!(matches!(emit_route(LogLevel::Error, "e", false), LogRoute::Stderr(_)));
}

#[test]
fn new_session_args_pass_env_then_launch() {
    let env = vec![("AGENCY_TASK_ID".to_string(), "7".to_string()), ("A".to_string(), "b=c".to_string())];
    let args = vec!["--model".to_string(), "x".to_string()];
    let got = new_session_args(&env, "agency-7-alpha", "/w/7", "coder", &args);
    let want: Vec<String> = [
        "new-session", "-e", "AGENCY_TASK_ID=7", "-e", "A=b=c", "-d", "-s", "agency-7-alpha", "-c", "/w/7", "coder",
        "--model", "x",
    ]
    .iter()
    .map(|s| s.to_string())
    .collect();
    assert_eq!(got, want);
    let bare = new_session_args(&[], "n", "/", "sh", &[]);
    assert_eq!(bare, vec!["new-session", "-d", "-s", "n", "-c", "/", "sh"]);
}

#[test]
fn detach_hint_follows_the_binding() {
    assert_eq!(detach_hint("C-a", &DetachBinding::WithPrefix { key: "d".into() }), " Press C-a+d to detach ");
    assert_eq!(detach_hint("C-a", &DetachBinding::Prefixless { key: "F12".into() }), " Press F12 to detach ");
    assert_eq!(detach_hint("C-b", &DetachBinding::Unbound), " Press C-b+d to detach ");
}

#[test]
fn window_title_and_status() {
    assert_eq!(window_title(42, "fix-bug"), " Task fix-bug (Id: 42) ");
    assert_eq!(session_status(true, Some(5000)), "Exited");
    assert_eq!(session_status(false, Some(1000)), "Idle");
    assert_eq!(session_status(false, Some(999)), "Running");
    assert_eq!(session_status(false, None), "Running");
}

#[test]
fn pane_listing_reports_dead_panes() {
    assert!(pane_dead_in("0\n 1 \n"));
    assert!(!pane_dead_in("0\n0\n"));
    assert!(!pane_dead_in(""));
    assert!(!pane_dead_in("10\n"));
}

#[test]
fn readiness_probes_back_off_to_a_ceiling() {
    assert_eq!(next_ready_delay_ms(10), 20);
    assert_eq!(next_ready_delay_ms(80), 160);
    assert_eq!(next_ready_delay_ms(160), 200);
    assert_eq!(next_ready_delay_ms(200), 200);
}

#[test]
fn creation_times_that_overflow_are_caught() {
    assert!(created_time_fits("agency-1-a\t$1\t1700000000\t/r\t0"));
    assert!(!created_time_fits("agency-1-a\t$1\t18446744073709551615\t/r\t0"));
    assert!(created_time_fits("short\tline"));
    assert!(created_time_fits("agency-1-a\t$1\tnotanumber\t/r\t0"));
}

#[test]
fn default_terminal_prefers_outer_term() {
    assert_eq!(default_terminal(Some("xterm-kitty")), "xterm-kitty");
    assert_eq!(default_terminal(Some("  ")), "tmux-256color");
    assert_eq!(default_terminal(None), "tmux-256color");
}

#[test]
fn truecolor_features_start_with_default_terminal() {
    assert_eq!(
        truecolor_features("xterm-kitty"),
        vec![",xterm-kitty:RGB".to_string(), ",tmux-256color:RGB".to_string(), ",xterm-256color:RGB".to_string()]
    );
}

#[test]
fn session_options_in_order() {
    let opts = session_options(4, "fix-login", " Press C-b+d to detach ", "/repo");
    let got: Vec<(bool, String, String)> = opts.into_iter().map(|o| (o.window, o.key, o.value)).collect();
    let want: Vec<(bool, &str, &str)> = vec![
        (false, "remain-on-exit", "off"),
        (false, "status", "on"),
        (false, "status-style", "bg=default,fg=cyan"),
        (false, "status-left", " Agency "),
        (false, "status-justify", "centre"),
        (true, "window-status-format", " "),
        (true, "window-status-current-format", " Task fix-login (Id: 4) "),
        (false, "status-right", " Press C-b+d to detach "),
        (false, "@agency_root", "/repo"),
    ];
    let want: Vec<(bool, String, String)> = want.into_iter().map(|(w, k, v)| (w, k.to_string(), v.to_string())).collect();
    assert_eq!(got, want);
}

#[test]
fn pipe_pane_command_escapes_the_stamp() {
    assert_eq!(pipe_pane_command("/r/.agency/state/a.stamp"), "sh -c 'cat > /r/.agency/state/a.stamp'");
    assert_eq!(pipe_pane_command("/it's"), "sh -c 'cat > /it'\\''s'");
}
