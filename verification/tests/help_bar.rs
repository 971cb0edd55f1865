use agency::tui::app::HelpSet;
use agency::tui::help_bar::{help_items, layout_lines};

#[test]
fn help_layout_item_boundary_wrap() {
    let items = [
        "Select: ↑/↓ j/k",
        "Edit/Attach: ⏎",
        "New: n/N",
        "Start: s",
        "Stop: S",
        "Merge: m",
        "Open: o",
        "Delete: X",
        "Reset: R",
        "Quit: C-c",
    ];
    // Very narrow should result in many lines but keep pairs intact
    let lines = layout_lines(&items, 20);
    assert!(lines.len() >= 2);

    // Ensure the last line contains Reset and Quit together when width allows
    let lines2 = layout_lines(&items, 60);
    let all_line_texts: Vec<String> = lines2.iter().map(|ln| ln.concat()).collect();
    assert!(all_line_texts.iter().any(|t| t.contains("Reset: R")));
    assert!(all_line_texts.iter().any(|t| t.contains("Quit: C-c")));
}

#[test]
fn hints_pack_up_to_the_width() {
    let lines = layout_lines(&["aa", "bbb", "c", "dddddddddd"], 9);
    assert_eq!(
        lines,
        vec![
            vec!["aa".to_string(), " | ".to_string(), "bbb".to_string()],
            vec!["c".to_string()],
            vec!["dddddddddd".to_string()],
        ]
    );
    assert_eq!(layout_lines(&[], 10), Vec::<Vec<String>>::new());
    assert_eq!(layout_lines(&["x", "y"], 0), vec![vec!["x".to_string()], vec!["y".to_string()]]);
}

#[test]
fn empty_hints_do_not_take_separators() {
    let lines = layout_lines(&["", "ab", "cd"], 7);
    assert_eq!(lines, vec![vec!["".to_string(), "ab".to_string(), " | ".to_string(), "cd".to_string()]]);
}

#[test]
fn each_view_has_its_hints() {
    assert_eq!(help_items(HelpSet::Log), vec!["Scroll: j/k"]);
    assert_eq!(help_items(HelpSet::Input), vec!["Type slug", "Agent: C-a", "Submit: ⏎", "Cancel: Esc"]);
    assert_eq!(help_items(HelpSet::Tasks).len(), 11);
    assert_eq!(help_items(HelpSet::Files)[0], "Select: j/k/1-9");
    assert_eq!(help_items(HelpSet::FileInput), vec!["Type path", "Submit: ⏎", "Cancel: Esc"]);
}
