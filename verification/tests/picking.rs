use agency::fzf::{parse_id_from_selection, picked_line};
use agency::which::{has_exec_bit, which_candidates};

#[test]
fn id_comes_from_first_tab_column() {
    assert_eq!(parse_id_from_selection("12\tmy-task\tRunning", "task"), Ok(12));
    assert_eq!(parse_id_from_selection("7", "task"), Ok(7));
    assert_eq!(parse_id_from_selection("+7\tx", "task"), Ok(7));
}

#[test]
fn unparsable_selection_names_the_entity() {
    assert_eq!(
        parse_id_from_selection("abc\t12", "task"),
        Err("Failed to parse task ID from selection".to_string())
    );
    assert_eq!(
        parse_id_from_selection("", "file"),
        Err("Failed to parse file ID from selection".to_string())
    );
    assert_eq!(
        parse_id_from_selection("4294967296\tx", "task"),
        Err("Failed to parse task ID from selection".to_string())
    );
}

#[test]
fn picked_line_trims_and_drops_blank_or_failed() {
    assert_eq!(picked_line(true, "  3\tfoo \n"), Some("3\tfoo".to_string()));
    assert_eq!(picked_line(true, " \n\t"), None);
    assert_eq!(picked_line(false, "3\tfoo\n"), None);
}

#[test]
fn which_tries_each_search_directory_in_order() {
    assert_eq!(
        which_candidates("fzf", Some("/usr/bin::/opt/bin/")),
        vec!["/usr/bin/fzf".to_string(), "fzf".to_string(), "/opt/bin/fzf".to_string()]
    );
    assert_eq!(which_candidates("fzf", None), Vec::<String>::new());
}

#[test]
fn which_takes_a_path_as_it_is() {
    assert_eq!(which_candidates("./bin/fzf", Some("/usr/bin")), vec!["./bin/fzf".to_string()]);
}

#[test]
fn exec_bit_of_any_class_counts() {
    assert!(has_exec_bit(0o755));
    assert!(has_exec_bit(0o010));
    assert!(!has_exec_bit(0o644));
}

#[test]
fn listed_line_picks_its_own_id() {
    for id in [0u32, 9, 10, 42, u32::MAX] {
        let line = format!("{id}\tsome-slug\tStopped");
        assert_eq!(parse_id_from_selection(&line, "task"), Ok(id));
    }
}
