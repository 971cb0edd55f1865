use agency::config::AgencyPaths;
use agency::files::{
    display_path, ensure_unique_name, file_path, files_from_names, format_file_name, next_file_id, parse_file_name,
    resolve_file, split_stem_ext, FileError, FileRef,
};
use agency::keys::{KeyCode, KeyInput};
use agency::task::TaskRef;
use agency::tui::file_input_overlay::{FileInputAction, FileInputState};
use agency::tui::files_overlay::{FilesOutcome, FilesOverlayState};
use agency::tui::text_input::{TextInputConfig, TextInputOutcome, TextInputState};

fn key(code: KeyCode) -> KeyInput {
    KeyInput::from_code(code)
}

fn f(id: u32, name: &str) -> FileRef {
    FileRef { id, name: name.to_string() }
}

fn task() -> TaskRef {
    TaskRef { id: 1, slug: "test".to_string() }
}

#[test]
fn parse_file_name_works() {
    assert_eq!(parse_file_name("1-doc.pdf"), Some((1, "doc.pdf".to_string())));
    assert_eq!(parse_file_name("12-my-file.txt"), Some((12, "my-file.txt".to_string())));
    assert_eq!(parse_file_name("invalid.txt"), None);
    assert_eq!(parse_file_name("no-number"), None);
}

#[test]
fn list_files_parses_file_format_correctly() {
    let names: Vec<String> = vec!["2-spec.pdf".into(), "junk".into(), "1-screenshot.png".into()];
    let files = files_from_names(&names);
    assert_eq!(files.len(), 2);
    assert_eq!(files[0].id, 1);
    assert_eq!(files[0].name, "screenshot.png");
    assert_eq!(files[1].id, 2);
    assert_eq!(files[1].name, "spec.pdf");
}

#[test]
fn next_file_id_returns_1_for_empty_dir() {
    assert_eq!(next_file_id(&[]), 1);
}

#[test]
fn next_file_id_increments_from_max() {
    assert_eq!(next_file_id(&[f(2, "a"), f(5, "b"), f(3, "c")]), 6);
}

#[test]
fn resolve_file_by_id_works() {
    let files = vec![f(1, "readme.md"), f(3, "doc.pdf")];
    let file = resolve_file(&files, "3").unwrap();
    assert_eq!(file.id, 3);
    assert_eq!(file.name, "doc.pdf");
}

#[test]
fn resolve_file_by_name_works() {
    let files = vec![f(1, "readme.md"), f(3, "doc.pdf")];
    let file = resolve_file(&files, "readme.md").unwrap();
    assert_eq!(file.id, 1);
    assert_eq!(file.name, "readme.md");
}

#[test]
fn resolve_file_errors() {
    let files = vec![f(1, "a.txt"), f(2, "a.txt")];
    assert_eq!(resolve_file(&files, "7").unwrap_err(), FileError::IdNotFound);
    assert_eq!(resolve_file(&files, "b.txt").unwrap_err(), FileError::NameNotFound);
    assert_eq!(resolve_file(&files, "a.txt").unwrap_err(), FileError::Ambiguous);
}

#[test]
fn unique_names_get_a_counter() {
    let files = vec![f(1, "a.txt"), f(2, "a-2.txt"), f(3, "b")];
    assert_eq!(ensure_unique_name(&files, "c.txt").unwrap(), "c.txt");
    assert_eq!(ensure_unique_name(&files, "a.txt").unwrap(), "a-3.txt");
    assert_eq!(ensure_unique_name(&files, "b").unwrap(), "b-2");
    assert_eq!(split_stem_ext(".hidden"), (".hidden".to_string(), String::new()));
    assert_eq!(split_stem_ext("x.tar.gz"), ("x.tar".to_string(), "gz".to_string()));
}

#[test]
fn file_paths() {
    let paths = AgencyPaths::new("/p", "/p");
    let file = f(4, "x.png");
    assert_eq!(format_file_name(4, "x.png"), "4-x.png");
    assert_eq!(file.filename(), "4-x.png");
    assert_eq!(file_path(&paths, &task(), &file), "/p/.agency/files/1-test/4-x.png");
    assert_eq!(display_path(&paths, &task(), &file, true), ".agency/local/files/4-x.png");
}

fn overlay_with_files() -> FilesOverlayState {
    FilesOverlayState::new(task(), vec![f(1, "screenshot.png"), f(2, "spec.pdf")])
}

#[test]
fn navigation_wraps_around() {
    let mut overlay = overlay_with_files();
    overlay.handle_key(key(KeyCode::Up));
    assert_eq!(overlay.selected, 1);
    overlay.handle_key(key(KeyCode::Down));
    assert_eq!(overlay.selected, 0);
}

#[test]
fn vim_navigation_works() {
    let mut overlay = overlay_with_files();
    overlay.handle_key(key(KeyCode::Char('j')));
    assert_eq!(overlay.selected, 1);
    overlay.handle_key(key(KeyCode::Char('k')));
    assert_eq!(overlay.selected, 0);
}

#[test]
fn enter_on_file_returns_open_file() {
    let mut overlay = overlay_with_files();
    match overlay.handle_key(key(KeyCode::Enter)) {
        FilesOutcome::OpenFile(file) => assert_eq!(file.id, 1),
        _ => panic!("expected OpenFile"),
    }
}

#[test]
fn files_overlay_esc_returns_canceled() {
    let mut overlay = overlay_with_files();
    assert!(matches!(overlay.handle_key(key(KeyCode::Esc)), FilesOutcome::Canceled));
}

#[test]
fn o_opens_selected_file() {
    let mut overlay = overlay_with_files();
    overlay.selected = 1;
    match overlay.handle_key(key(KeyCode::Char('o'))) {
        FilesOutcome::OpenFile(file) => assert_eq!(file.id, 2),
        _ => panic!("expected OpenFile"),
    }
}

#[test]
fn uppercase_o_opens_directory() {
    let mut overlay = overlay_with_files();
    assert!(matches!(overlay.handle_key(key(KeyCode::Char('O'))), FilesOutcome::OpenDirectory));
}

#[test]
fn digit_selects_file_by_id() {
    let mut overlay = overlay_with_files();
    overlay.handle_key(key(KeyCode::Char('2')));
    assert_eq!(overlay.selected, 1);
    overlay.handle_key(key(KeyCode::Char('9')));
    assert_eq!(overlay.selected, 1);
}

#[test]
fn empty_overlay_does_not_crash() {
    let mut overlay = FilesOverlayState::new(task(), Vec::new());
    overlay.handle_key(key(KeyCode::Up));
    overlay.handle_key(key(KeyCode::Down));
    assert!(matches!(overlay.handle_key(key(KeyCode::Enter)), FilesOutcome::Continue));
    assert!(matches!(overlay.handle_key(key(KeyCode::Char('p'))), FilesOutcome::PasteClipboard));
}

fn make_input() -> FileInputState {
    FileInputState::new(task())
}

#[test]
fn cancel_on_esc() {
    let mut state = make_input();
    assert!(matches!(state.handle_key(key(KeyCode::Esc)), FileInputAction::Cancel));
}

#[test]
fn submit_with_path() {
    let mut state = make_input();
    state.path_input = "/tmp/test.txt".to_string();
    match state.handle_key(key(KeyCode::Enter)) {
        FileInputAction::Submit { path } => assert_eq!(path, "/tmp/test.txt"),
        _ => panic!("expected Submit"),
    }
}

#[test]
fn no_submit_on_empty() {
    let mut state = make_input();
    assert!(matches!(state.handle_key(key(KeyCode::Enter)), FileInputAction::Noop));
}

#[test]
fn file_input_overlay_typing_adds_chars() {
    let mut state = make_input();
    for c in ['/', 't', 'm', 'p'] {
        state.handle_key(key(KeyCode::Char(c)));
    }
    assert_eq!(state.path_input, "/tmp");
}

#[test]
fn file_input_overlay_backspace_removes_char() {
    let mut state = make_input();
    state.path_input = "/tmp".to_string();
    state.handle_key(key(KeyCode::Backspace));
    assert_eq!(state.path_input, "/tm");
}

fn make_text() -> TextInputState {
    TextInputState::new(TextInputConfig::new("Title", "placeholder"))
}

#[test]
fn text_input_esc_returns_canceled() {
    let mut state = make_text();
    assert!(matches!(state.handle_key(key(KeyCode::Esc)), TextInputOutcome::Canceled));
}

#[test]
fn enter_returns_submit_with_input() {
    let mut state = make_text();
    state.input = "test-value".to_string();
    match state.handle_key(key(KeyCode::Enter)) {
        TextInputOutcome::Submit(val) => assert_eq!(val, "test-value"),
        _ => panic!("expected Submit"),
    }
}

#[test]
fn text_input_typing_adds_chars() {
    let mut state = make_text();
    for c in ['a', 'b', 'c'] {
        state.handle_key(key(KeyCode::Char(c)));
    }
    assert_eq!(state.input, "abc");
}

#[test]
fn text_input_backspace_removes_char() {
    let mut state = make_text();
    state.input = "abc".to_string();
    state.handle_key(key(KeyCode::Backspace));
    assert_eq!(state.input, "ab");
    state.input = String::new();
    state.handle_key(key(KeyCode::Backspace));
    assert_eq!(state.input, "");
}

#[test]
fn with_initial_sets_value() {
    let state = TextInputState::with_initial(TextInputConfig::new("Title", "placeholder"), "initial");
    assert_eq!(state.input, "initial");
}

#[test]
fn file_error_messages() {
    assert_eq!(FileError::IdNotFound.message("7"), "File 7 not found");
    assert_eq!(FileError::IdNotFound.message("007"), "File 7 not found");
    assert_eq!(FileError::NameNotFound.message("notes.md"), "File 'notes.md' not found. Use ID or exact filename");
    assert_eq!(FileError::Ambiguous.message("a.png"), "Multiple files match 'a.png'. Use file ID instead");
}
