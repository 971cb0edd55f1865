use agency::table::{column_widths, format_table};

fn cells(v: &[&str]) -> Vec<String> {
    v.iter().map(|s| s.to_string()).collect()
}

#[test]
fn widths_follow_the_widest_visible_cell() {
    let rows = vec![cells(&["7", "\x1b[32mrunning\x1b[0m"]), cells(&["12", "x"])];
    assert_eq!(column_widths(&["ID", "STATUS"], &rows), vec![2, 7]);
}

#[test]
fn table_lines_pad_all_but_the_last_column() {
    let rows = vec![
        cells(&["1", "\x1b[32mok\x1b[0m", "alpha"]),
        cells(&["100", "pending", "b"]),
        cells(&["5"]),
    ];
    let (header, lines) = format_table(&["ID", "STATE", "NAME"], &rows);
    assert_eq!(header, "\x1b[2mID  STATE   NAME\x1b[0m");
    assert_eq!(lines.len(), 3);
    assert_eq!(lines[0], "1   \x1b[32mok\x1b[0m      alpha");
    assert_eq!(lines[1], "100 pending b");
    assert_eq!(lines[2], "5   ");
}

#[test]
fn cells_beyond_the_headers_are_left_out() {
    let rows = vec![cells(&["a", "b", "c"])];
    let (header, lines) = format_table(&["X", "Y"], &rows);
    assert_eq!(header, "\x1b[2mX Y\x1b[0m");
    assert_eq!(lines, vec!["a b".to_string()]);
}
