use agency::keys::{KeyCode, KeyInput, MouseInput, MouseKind};
use agency::log::LogEvent;
use agency::tui::command_log::{
    compute_start, CommandLogState, AUTO_COLLAPSE_THRESHOLD, DEFAULT_LOG_HEIGHT, MAX_LOG, MIN_LOG_HEIGHT,
};
use agency::tui::confirm_dialog::{ConfirmAction, ConfirmDialogState, ConfirmOutcome, ConfirmSelection};
use agency::tui::select_menu::{homerow_key_for, match_homerow_index, MenuOutcome, SelectMenuState};

fn key(code: KeyCode) -> KeyInput {
    KeyInput::from_code(code)
}

#[test]
fn compute_log_start_bounds_and_offsets() {
    assert_eq!(compute_start(100, 5, 0), 95);
    assert_eq!(compute_start(100, 5, 1), 94);
    assert_eq!(compute_start(3, 5, 10), 0);
    assert_eq!(compute_start(10, 0, 0), 10);
}

#[test]
fn push_trims_old_entries() {
    let mut state = CommandLogState::new();
    for i in 0..250 {
        state.push(LogEvent::Command(format!("cmd {i}")));
    }
    assert_eq!(state.entries.len(), MAX_LOG);
}

#[test]
fn push_keeps_the_latest_entries_in_order() {
    let mut state = CommandLogState::new();
    for i in 0..250 {
        state.push(LogEvent::Command(format!("cmd {i}")));
    }
    assert_eq!(state.entries[0], LogEvent::Command("cmd 50".to_string()));
    assert_eq!(state.entries[MAX_LOG - 1], LogEvent::Command("cmd 249".to_string()));
}

#[test]
fn effective_height_returns_zero_when_hidden() {
    let mut state = CommandLogState::new();
    state.visible = false;
    assert_eq!(state.effective_height(30, 2), 0);
}

#[test]
fn effective_height_auto_collapse_on_small_terminal() {
    let state = CommandLogState::new();
    assert_eq!(state.effective_height(AUTO_COLLAPSE_THRESHOLD, 2), MIN_LOG_HEIGHT);
    assert_eq!(state.effective_height(10, 2), MIN_LOG_HEIGHT);
}

#[test]
fn effective_height_clamps_to_bounds() {
    let mut state = CommandLogState::new();
    assert_eq!(state.effective_height(30, 2), DEFAULT_LOG_HEIGHT);
    state.height = 1;
    assert_eq!(state.effective_height(30, 2), MIN_LOG_HEIGHT);
    state.height = 100;
    let max = 30 - 2 - MIN_LOG_HEIGHT;
    assert_eq!(state.effective_height(30, 2), max);
}

#[test]
fn toggle_visibility_flips_state() {
    let mut state = CommandLogState::new();
    assert!(state.is_visible());
    state.toggle_visibility();
    assert!(!state.is_visible());
    state.toggle_visibility();
    assert!(state.is_visible());
}

#[test]
fn command_log_scrolls_with_keys() {
    let mut state = CommandLogState::new();
    assert!(state.handle_key(key(KeyCode::Up)));
    assert!(state.handle_key(key(KeyCode::Char('k'))));
    assert_eq!(state.scroll, 2);
    assert!(state.handle_key(key(KeyCode::Char('j'))));
    assert_eq!(state.scroll, 1);
    assert!(!state.handle_key(key(KeyCode::Char('x'))));
    state.reset_scroll();
    assert_eq!(state.scroll, 0);
    assert!(state.handle_key(key(KeyCode::Down)));
    assert_eq!(state.scroll, 0);
}

#[test]
fn command_log_border_drag_resizes() {
    let mut state = CommandLogState::new();
    state.set_border_y(20);
    state.handle_mouse_event(MouseInput { kind: MouseKind::LeftDown, row: 20 });
    assert!(state.dragging);
    state.handle_mouse_event(MouseInput { kind: MouseKind::LeftDrag, row: 17 });
    assert_eq!(state.height, DEFAULT_LOG_HEIGHT + 3);
    state.handle_mouse_event(MouseInput { kind: MouseKind::LeftDrag, row: 40 });
    assert_eq!(state.height, MIN_LOG_HEIGHT);
    state.handle_mouse_event(MouseInput { kind: MouseKind::LeftUp, row: 40 });
    assert!(!state.dragging);
}

#[test]
fn command_log_press_off_border_does_not_drag() {
    let mut state = CommandLogState::new();
    state.set_border_y(20);
    state.handle_mouse_event(MouseInput { kind: MouseKind::LeftDown, row: 19 });
    assert!(!state.dragging);
    state.handle_mouse_event(MouseInput { kind: MouseKind::LeftDrag, row: 10 });
    assert_eq!(state.height, DEFAULT_LOG_HEIGHT);
}

#[test]
fn command_log_window_start() {
    let mut state = CommandLogState::new();
    for i in 0..10 {
        state.push(LogEvent::Command(format!("c{i}")));
    }
    assert_eq!(state.window_start(7, false), 5);
    state.scroll = 3;
    assert_eq!(state.window_start(7, true), 2);
    assert_eq!(state.window_start(7, false), 5);
}

fn make_dialog() -> ConfirmDialogState {
    ConfirmDialogState::new("Title", "Message", ConfirmAction::CompleteTask { id: 42 })
}

#[test]
fn confirm_dialog_initial_state() {
    let dialog = make_dialog();
    assert_eq!(dialog.title, "Title");
    assert_eq!(dialog.message, "Message");
    assert_eq!(dialog.action, ConfirmAction::CompleteTask { id: 42 });
    assert_eq!(dialog.selected, ConfirmSelection::Yes);
}

#[test]
fn confirm_action_command_log() {
    let action = ConfirmAction::CompleteTask { id: 42 };
    assert_eq!(action.command_log(), "agency complete 42");
}

#[test]
fn confirm_action_task_id() {
    let action = ConfirmAction::CompleteTask { id: 42 };
    assert_eq!(action.task_id(), 42);
}

#[test]
fn confirm_dialog_y_confirms() {
    let mut dialog = make_dialog();
    assert_eq!(dialog.handle_key(key(KeyCode::Char('y'))), ConfirmOutcome::Confirmed);
}

#[test]
fn confirm_dialog_n_cancels() {
    let mut dialog = make_dialog();
    assert_eq!(dialog.handle_key(key(KeyCode::Char('n'))), ConfirmOutcome::Canceled);
}

#[test]
fn confirm_dialog_esc_cancels() {
    let mut dialog = make_dialog();
    assert_eq!(dialog.handle_key(key(KeyCode::Esc)), ConfirmOutcome::Canceled);
}

#[test]
fn confirm_dialog_enter_on_yes_confirms() {
    let mut dialog = make_dialog();
    dialog.selected = ConfirmSelection::Yes;
    assert_eq!(dialog.handle_key(key(KeyCode::Enter)), ConfirmOutcome::Confirmed);
}

#[test]
fn confirm_dialog_enter_on_no_cancels() {
    let mut dialog = make_dialog();
    dialog.selected = ConfirmSelection::No;
    assert_eq!(dialog.handle_key(key(KeyCode::Enter)), ConfirmOutcome::Canceled);
}

#[test]
fn confirm_dialog_arrows_change_selection() {
    let mut dialog = make_dialog();
    assert_eq!(dialog.selected, ConfirmSelection::Yes);
    dialog.handle_key(key(KeyCode::Right));
    assert_eq!(dialog.selected, ConfirmSelection::No);
    dialog.handle_key(key(KeyCode::Left));
    assert_eq!(dialog.selected, ConfirmSelection::Yes);
}

#[test]
fn confirm_dialog_tab_toggles_selection() {
    let mut dialog = make_dialog();
    assert_eq!(dialog.selected, ConfirmSelection::Yes);
    dialog.handle_key(key(KeyCode::Tab));
    assert_eq!(dialog.selected, ConfirmSelection::No);
    dialog.handle_key(key(KeyCode::Tab));
    assert_eq!(dialog.selected, ConfirmSelection::Yes);
}

#[test]
fn confirm_dialog_ignores_repeated_keys() {
    let mut dialog = make_dialog();
    let mut k = key(KeyCode::Char('y'));
    k.repeat = true;
    assert_eq!(dialog.handle_key(k), ConfirmOutcome::Continue);
    assert_eq!(dialog.selected.toggle().toggle(), ConfirmSelection::Yes);
}

#[test]
fn homerow_mapping_excludes_jk() {
    assert_eq!(homerow_key_for(0), Some('a'));
    assert_eq!(homerow_key_for(1), Some('s'));
    assert_eq!(homerow_key_for(2), Some('d'));
    assert_eq!(homerow_key_for(3), Some('f'));
    assert_eq!(homerow_key_for(4), Some('l'));
    assert_eq!(homerow_key_for(5), None);
}

#[test]
fn homerow_keys_map_back_to_indices() {
    for i in 0..5 {
        let c = homerow_key_for(i).unwrap();
        assert_eq!(match_homerow_index(c), Some(i));
    }
    assert_eq!(match_homerow_index('j'), None);
    assert_eq!(match_homerow_index('k'), None);
}

#[test]
fn handle_key_homerow_and_cancel() {
    let mut menu = SelectMenuState::new("Test", vec!["one".into(), "two".into()], 0);
    match menu.handle_key(key(KeyCode::Char('s'))) {
        MenuOutcome::Selected(idx) => assert_eq!(idx, 1),
        _ => panic!("expected Selected"),
    }
    menu.selected = menu.items.len();
    match menu.handle_key(key(KeyCode::Enter)) {
        MenuOutcome::Canceled => {}
        _ => panic!("expected Canceled"),
    }
}

#[test]
fn select_menu_clamps_and_wraps() {
    let mut menu = SelectMenuState::new("T", vec!["a".into(), "b".into()], 9);
    assert_eq!(menu.selected, 1);
    menu.handle_key(key(KeyCode::Down));
    assert_eq!(menu.selected, 2);
    menu.handle_key(key(KeyCode::Down));
    assert_eq!(menu.selected, 0);
    menu.handle_key(key(KeyCode::Up));
    assert_eq!(menu.selected, 2);
    let mut ctrl_a = key(KeyCode::Char('a'));
    ctrl_a.ctrl = true;
    assert_eq!(menu.handle_key(ctrl_a), MenuOutcome::Continue);
    assert_eq!(menu.handle_key(key(KeyCode::Char('f'))), MenuOutcome::Continue);
    assert_eq!(menu.handle_key(key(KeyCode::Esc)), MenuOutcome::Canceled);
}
