use agency::config::AgencyConfig;
use agency::keybindings::{parse_binding_str, parse_detach_key, BindingError, Keybinding, Mods};
use agency::keys::{KeyCode, KeyInput};
use agency::split::{is_white_space_exec, trim_str};
use agency::task::TaskRef;
use agency::task_columns::{GitMetrics, TaskRow};
use agency::tui::app::{focus_switch, help_set, Focus, HelpSet, Mode};
use agency::tui::input_overlay::{default_agent, Action as InputAction, InputOverlayState};
use agency::tui::task_table::{sort_tasks_by_id, Action, TaskTableState};

fn key(code: KeyCode) -> KeyInput {
    KeyInput::from_code(code)
}

fn row(id: u32) -> TaskRow {
    TaskRow::new(&AgencyConfig::empty(), TaskRef { id, slug: format!("t{id}") }, None, GitMetrics::default(), false, false, None)
}

#[test]
fn table_moves_and_acts_on_selection() {
    let mut t = TaskTableState::new();
    t.refresh(vec![row(1), row(2), row(3)]);
    assert_eq!(t.handle_key(key(KeyCode::Down)), Action::SelectionChanged { id: 2 });
    assert_eq!(t.handle_key(key(KeyCode::Char('j'))), Action::SelectionChanged { id: 3 });
    assert_eq!(t.handle_key(key(KeyCode::Down)), Action::SelectionChanged { id: 3 });
    assert_eq!(t.handle_key(key(KeyCode::Char('s'))), Action::StartTask { id: 3 });
    assert_eq!(t.handle_key(key(KeyCode::Char('X'))), Action::DeleteTask { id: 3 });
    assert_eq!(t.handle_key(key(KeyCode::Enter)), Action::EditOrAttach { id: 3, session: None });
    assert_eq!(t.handle_key(key(KeyCode::Char('N'))), Action::NewTask { start_and_attach: true });
    assert_eq!(t.handle_key(key(KeyCode::Char('z'))), Action::Noop);
    t.refresh(vec![row(1)]);
    assert_eq!(t.selected, 0);
    assert_eq!(t.selected_row().unwrap().id(), 1);
    t.refresh(Vec::new());
    assert_eq!(t.handle_key(key(KeyCode::Up)), Action::Noop);
    assert_eq!(t.handle_key(key(KeyCode::Char('m'))), Action::Noop);
}

#[test]
fn pending_deletes_expire_and_follow_rows() {
    let mut t = TaskTableState::new();
    t.refresh(vec![row(1), row(2)]);
    t.mark_pending_delete(1, 1000);
    t.mark_pending_delete(2, 5000);
    t.mark_pending_delete(1, 2000);
    assert_eq!(t.pending_delete.len(), 2);
    assert!(t.is_pending_delete(1));
    t.prune_pending_deletes(12_500);
    assert!(!t.is_pending_delete(1));
    assert!(t.is_pending_delete(2));
    t.refresh(vec![row(1)]);
    t.prune_pending_deletes(0);
    assert!(!t.is_pending_delete(2));
}

#[test]
fn tasks_sort_by_id_stably() {
    let tasks = vec![
        TaskRef { id: 3, slug: "c".into() },
        TaskRef { id: 1, slug: "a".into() },
        TaskRef { id: 3, slug: "d".into() },
    ];
    let sorted = sort_tasks_by_id(tasks);
    let got: Vec<(u32, String)> = sorted.into_iter().map(|t| (t.id, t.slug)).collect();
    assert_eq!(got, vec![(1, "a".into()), (3, "c".into()), (3, "d".into())]);
}

#[test]
fn parses_ctrl_q() {
    let kb = parse_binding_str("ctrl-q").unwrap();
    assert_eq!(kb.mods, Mods { ctrl: true, alt: false, shift: false, sup: false });
    assert_eq!(kb.key, 'q');
}

#[test]
fn rejects_uppercase_modifier_only() {
    let kb = parse_binding_str("CTRL-q").unwrap();
    assert_eq!(kb.mods, Mods { ctrl: true, alt: false, shift: false, sup: false });
    assert_eq!(kb.key, 'q');
}

#[test]
fn normalizes_uppercase_ascii_letter() {
    let kb = parse_binding_str("Q").unwrap();
    assert!(kb.mods.shift);
    assert_eq!(kb.key, 'Q');
}

#[test]
fn supports_locale_uppercase_letter() {
    let kb = parse_binding_str("Ä").unwrap();
    assert!(kb.mods.shift);
    assert_eq!(kb.key, 'Ä');
}

#[test]
fn rejects_multi_char_key() {
    let s = "ctrl-qq";
    let err = parse_binding_str(s).unwrap_err();
    assert!(err.message(s).contains("single character"));
}

#[test]
fn rejects_unknown_modifier() {
    let s = "meta-q";
    let err = parse_binding_str(s).unwrap_err();
    assert!(err.message(s).contains("invalid modifier"));
}

#[test]
fn rejects_whitespace() {
    let s = "ctrl - q";
    let err = parse_binding_str(s).unwrap_err();
    assert!(err.message(s).contains("whitespace"));
}

#[test]
fn binding_edge_cases() {
    assert_eq!(parse_binding_str("").unwrap_err(), BindingError::Empty);
    assert_eq!(parse_binding_str("ctrl-").unwrap_err(), BindingError::MissingKey);
    let kb = parse_binding_str("alt-shift--").unwrap_err();
    assert_eq!(kb, BindingError::InvalidModifier(String::new()));
    let kb = Keybinding { mods: Mods::none(), key: 'x' };
    assert!(kb.matches(Mods::none(), 'x'));
    assert!(!kb.matches(Mods::none(), 'y'));
    let mut cfg = AgencyConfig::empty();
    assert_eq!(parse_detach_key(&cfg).unwrap_err(), BindingError::MissingSection);
    cfg.detach_key = Some("  ".to_string());
    assert_eq!(parse_detach_key(&cfg).unwrap_err(), BindingError::EmptyDetach);
    cfg.detach_key = Some("ctrl-q".to_string());
    assert_eq!(parse_detach_key(&cfg).unwrap().key, 'q');
}

#[test]
fn whitespace_and_trim() {
    assert!(is_white_space_exec('\u{3000}'));
    assert!(!is_white_space_exec('x'));
    assert_eq!(trim_str("\u{a0} a b \t\n"), "a b");
}

#[test]
fn new_task_overlay_submits_valid_slugs() {
    let mut cfg = AgencyConfig::empty();
    cfg.agent = Some("coder".to_string());
    assert_eq!(default_agent(&cfg), Some("coder".to_string()));
    let mut o = InputOverlayState::new(true, &cfg);
    assert_eq!(o.text_input.config.right_title.as_deref(), Some("coder (C-a to switch) "));
    for c in "My Task".chars() {
        o.handle_key(key(KeyCode::Char(c)));
    }
    match o.handle_key(key(KeyCode::Enter)) {
        InputAction::Submit { slug, agent, start_and_attach } => {
            assert_eq!(slug, "my-task");
            assert_eq!(agent.as_deref(), Some("coder"));
            assert!(start_and_attach);
        }
        _ => panic!("expected Submit"),
    }
    let mut ctrl_a = key(KeyCode::Char('a'));
    ctrl_a.ctrl = true;
    assert!(matches!(o.handle_key(ctrl_a), InputAction::OpenAgentMenu));
    o.set_agent("helper".to_string());
    assert_eq!(o.selected_agent.as_deref(), Some("helper"));
    o.text_input.input = "123".to_string();
    assert!(matches!(o.handle_key(key(KeyCode::Enter)), InputAction::Noop));
    assert!(matches!(o.handle_key(key(KeyCode::Esc)), InputAction::Cancel));
}

#[test]
fn help_and_focus() {
    assert_eq!(help_set(&Mode::List, Focus::Log), HelpSet::Log);
    assert_eq!(help_set(&Mode::InputSlug, Focus::Tasks), HelpSet::Input);
    assert_eq!(focus_switch(key(KeyCode::Char('2'))), Some(Focus::Log));
    assert_eq!(focus_switch(key(KeyCode::Char('1'))), Some(Focus::Tasks));
    assert_eq!(focus_switch(key(KeyCode::Char('3'))), None);
}

#[test]
fn reload_reports_selection_moving_to_another_task() {
    let mut t = TaskTableState::new();
    assert_eq!(t.reload(vec![row(1), row(2), row(3)], 0), Some(Some(1)));
    t.selected = 2;
    assert_eq!(t.reload(vec![row(1), row(2), row(3)], 0), None);
    assert_eq!(t.reload(vec![row(1), row(2), row(4)], 0), Some(Some(4)));
    assert_eq!(t.reload(vec![row(1)], 0), Some(Some(1)));
    assert_eq!(t.reload(Vec::new(), 0), Some(None));
    assert_eq!(t.reload(Vec::new(), 0), None);
}

#[test]
fn reload_drops_expired_and_vanished_pending_deletes() {
    let mut t = TaskTableState::new();
    t.refresh(vec![row(1), row(2)]);
    t.mark_pending_delete(1, 1_000);
    t.mark_pending_delete(2, 1_000);
    t.reload(vec![row(1)], 2_000);
    assert!(t.is_pending_delete(1));
    assert!(!t.is_pending_delete(2));
    t.reload(vec![row(1)], 11_000);
    assert!(!t.is_pending_delete(1));
}
