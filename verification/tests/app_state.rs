use agency::config::{AgencyConfig, AgentConfig, AgentEntry};
use agency::files::FileRef;
use agency::keys::{KeyCode, KeyInput};
use agency::log::LogEvent;
use agency::task::TaskRef;
use agency::task_columns::{GitMetrics, TaskRow};
use agency::tui::app::{Dispatch, Focus, Mode, TaskCommand};
use agency::tui::file_input_overlay::FileInputState;
use agency::tui::state::{AppState, Effect};

fn key(code: KeyCode) -> KeyInput {
    KeyInput::from_code(code)
}

fn ctrl(c: char) -> KeyInput {
    KeyInput { code: KeyCode::Char(c), ctrl: true, repeat: false }
}

fn row(id: u32) -> TaskRow {
    TaskRow::new(&AgencyConfig::empty(), TaskRef { id, slug: format!("t{id}") }, None, GitMetrics::default(), false, false, None)
}

fn cfg() -> AgencyConfig {
    let entry = |n: &str| AgentEntry { name: n.to_string(), config: AgentConfig { cmd: vec![n.to_string()] } };
    AgencyConfig { agent: Some("beta".to_string()), agents: vec![entry("alpha"), entry("beta")], ..AgencyConfig::empty() }
}

fn state_with_rows(ids: &[u32]) -> AppState {
    let mut s = AppState::new();
    s.task_table.refresh(ids.iter().map(|i| row(*i)).collect());
    s
}

fn last_command(s: &AppState) -> Option<String> {
    match s.command_log.entries.last() {
        Some(LogEvent::Command(c)) => Some(c.clone()),
        _ => None,
    }
}

#[test]
fn control_c_quits_and_repeats_are_ignored() {
    let mut s = state_with_rows(&[1, 2]);
    assert!(matches!(s.handle_key(ctrl('c'), &cfg(), 0), Effect::Quit));
    let rep = KeyInput { code: KeyCode::Down, ctrl: false, repeat: true };
    assert!(matches!(s.handle_key(rep, &cfg(), 0), Effect::Nothing));
    assert_eq!(s.task_table.selected, 0);
}

#[test]
fn digits_switch_focus_and_log_keys_scroll() {
    let mut s = state_with_rows(&[1]);
    assert!(matches!(s.handle_key(key(KeyCode::Char('2')), &cfg(), 0), Effect::Nothing));
    assert_eq!(s.focus, Focus::Log);
    s.handle_key(key(KeyCode::Char('k')), &cfg(), 0);
    assert_eq!(s.command_log.scroll, 1);
    assert_eq!(s.task_table.selected, 0);
    s.handle_key(key(KeyCode::Char('1')), &cfg(), 0);
    assert_eq!(s.focus, Focus::Tasks);
    assert_eq!(s.command_log.scroll, 0);
}

#[test]
fn table_keys_move_and_run_commands() {
    let mut s = state_with_rows(&[3, 7]);
    match s.handle_key(key(KeyCode::Down), &cfg(), 0) {
        Effect::Table(Dispatch::FocusChanged { id }) => assert_eq!(id, 7),
        _ => panic!("expected a focus change"),
    }
    match s.handle_key(key(KeyCode::Char('s')), &cfg(), 0) {
        Effect::Table(Dispatch::Run { command, id, .. }) => {
            assert_eq!(command, TaskCommand::Start);
            assert_eq!(id, 7);
        }
        _ => panic!("expected a start"),
    }
    assert_eq!(last_command(&s).as_deref(), Some("agency start --no-attach 7"));
    s.handle_key(key(KeyCode::Char('X')), &cfg(), 5_000);
    assert_eq!(last_command(&s).as_deref(), Some("agency rm 7"));
    assert!(s.task_table.is_pending_delete(7));
    assert_eq!(s.task_table.pending_delete, vec![(7, 15_000)]);
}

#[test]
fn new_task_flow_with_agent_menu() {
    let mut s = state_with_rows(&[]);
    s.handle_key(key(KeyCode::Char('N')), &cfg(), 0);
    assert!(matches!(s.mode, Mode::InputSlug));
    assert_eq!(s.input_overlay.as_ref().unwrap().selected_agent.as_deref(), Some("beta"));
    // open the agent menu: it starts on the current agent
    s.handle_key(ctrl('a'), &cfg(), 0);
    match &s.mode {
        Mode::SelectMenu(m) => {
            assert_eq!(m.items, vec!["alpha".to_string(), "beta".to_string()]);
            assert_eq!(m.selected, 1);
        }
        _ => panic!("expected the agent menu"),
    }
    s.handle_key(key(KeyCode::Up), &cfg(), 0);
    s.handle_key(key(KeyCode::Enter), &cfg(), 0);
    assert!(matches!(s.mode, Mode::InputSlug));
    assert_eq!(s.input_overlay.as_ref().unwrap().selected_agent.as_deref(), Some("alpha"));
    for c in "Fix Bug".chars() {
        s.handle_key(key(KeyCode::Char(c)), &cfg(), 0);
    }
    match s.handle_key(key(KeyCode::Enter), &cfg(), 0) {
        Effect::CreateTask { slug, agent, start_and_attach } => {
            assert_eq!(slug, "fix-bug");
            assert_eq!(agent.as_deref(), Some("alpha"));
            assert!(start_and_attach);
        }
        _ => panic!("expected a new task"),
    }
    assert!(matches!(s.mode, Mode::List));
    assert!(s.input_overlay.is_none());
    assert_eq!(last_command(&s).as_deref(), Some("agency new fix-bug + start"));
}

#[test]
fn escape_closes_the_new_task_overlay() {
    let mut s = state_with_rows(&[]);
    s.handle_key(key(KeyCode::Char('n')), &cfg(), 0);
    s.handle_key(key(KeyCode::Esc), &cfg(), 0);
    assert!(matches!(s.mode, Mode::List));
    assert!(s.input_overlay.is_none());
    assert!(s.command_log.entries.is_empty());
}

#[test]
fn files_overlay_and_file_input_flow() {
    let mut s = state_with_rows(&[4]);
    let task = TaskRef { id: 4, slug: "t4".to_string() };
    let files = vec![FileRef { id: 1, name: "a.png".to_string() }, FileRef { id: 2, name: "b.txt".to_string() }];
    s.show_files(task.clone(), files);
    match s.handle_key(key(KeyCode::Char('j')), &cfg(), 0) {
        Effect::Nothing => {}
        _ => panic!("moving stays in the overlay"),
    }
    match s.handle_key(key(KeyCode::Enter), &cfg(), 0) {
        Effect::OpenFile { task: t, file } => {
            assert_eq!(t, task);
            assert_eq!(file.name, "b.txt");
        }
        _ => panic!("expected to open the file"),
    }
    match s.handle_key(key(KeyCode::Char('p')), &cfg(), 0) {
        Effect::PasteClipboard { task: t } => assert_eq!(t.id, 4),
        _ => panic!("expected a paste"),
    }
    assert_eq!(last_command(&s).as_deref(), Some("agency files add 4 --from-clipboard"));
    assert!(matches!(s.handle_key(key(KeyCode::Esc), &cfg(), 0), Effect::Nothing));
    assert!(matches!(s.mode, Mode::List));
}

#[test]
fn file_input_submits_or_returns_to_the_files() {
    let task = TaskRef { id: 9, slug: "t9".to_string() };
    let mut s = state_with_rows(&[9]);
    s.mode = Mode::FileInput(FileInputState::new(task.clone()));
    for c in "/tmp/x.txt".chars() {
        s.handle_key(key(KeyCode::Char(c)), &cfg(), 0);
    }
    match s.handle_key(key(KeyCode::Enter), &cfg(), 0) {
        Effect::AddFile { task: t, path } => {
            assert_eq!(t, task);
            assert_eq!(path, "/tmp/x.txt");
        }
        _ => panic!("expected to add the file"),
    }
    assert_eq!(last_command(&s).as_deref(), Some("agency files add 9 /tmp/x.txt"));
    s.mode = Mode::FileInput(FileInputState::new(task.clone()));
    match s.handle_key(key(KeyCode::Esc), &cfg(), 0) {
        Effect::ShowFiles { task: t } => assert_eq!(t, task),
        _ => panic!("expected to go back to the files"),
    }
}

#[test]
fn agent_menu_lists_names_sorted_and_default_is_least() {
    let entry = |n: &str| AgentEntry { name: n.to_string(), config: AgentConfig { cmd: vec![n.to_string()] } };
    let cfg = AgencyConfig { agents: vec![entry("zeta"), entry("Beta"), entry("alpha"), entry("beta")], ..AgencyConfig::empty() };
    let mut s = state_with_rows(&[]);
    s.handle_key(key(KeyCode::Char('n')), &cfg, 0);
    assert_eq!(s.input_overlay.as_ref().unwrap().selected_agent.as_deref(), Some("Beta"));
    s.handle_key(ctrl('a'), &cfg, 0);
    match &s.mode {
        Mode::SelectMenu(m) => {
            let want: Vec<String> = ["Beta", "alpha", "beta", "zeta"].iter().map(|x| x.to_string()).collect();
            assert_eq!(m.items, want);
            assert_eq!(m.selected, 0);
        }
        _ => panic!("expected the agent menu"),
    }
}

#[test]
fn keys_on_an_empty_table_with_any_selection() {
    let mut s = AppState::new();
    s.task_table.selected = usize::MAX;
    assert!(matches!(s.handle_key(key(KeyCode::Down), &cfg(), 0), Effect::Table(Dispatch::Idle)));
    assert_eq!(s.task_table.selected, usize::MAX);
    s.task_table.refresh(vec![row(4), row(5)]);
    s.task_table.selected = usize::MAX;
    s.handle_key(key(KeyCode::Down), &cfg(), 0);
    assert_eq!(s.task_table.selected, 1);
}
