use agency::git::{commits_ahead_args, numstat_totals, rev_count, stash_saved, status_answer, status_is_clean};

#[test]
fn numstat_sums_added_and_deleted_lines() {
    assert_eq!(numstat_totals("3\t1\ta.txt\n10\t0\tb.rs\n-\t-\timg.png\n"), (13, 1));
    assert_eq!(numstat_totals(""), (0, 0));
    assert_eq!(numstat_totals("18446744073709551615\t0\tx\n5\t2\ty\n"), (u64::MAX, 2));
    assert_eq!(numstat_totals("7\n"), (7, 0));
}

#[test]
fn porcelain_status_and_counts() {
    assert!(status_is_clean(""));
    assert!(status_is_clean("  \n"));
    assert!(!status_is_clean(" M src/lib.rs\n"));
    assert_eq!(rev_count("4\n"), 4);
    assert_eq!(rev_count("oops"), 0);
    assert_eq!(commits_ahead_args("main", "agency/1-a"), vec!["rev-list", "--count", "main..agency/1-a"]);
}

#[test]
fn exit_status_answers() {
    assert_eq!(status_answer(true, Some(0)), Some(true));
    assert_eq!(status_answer(false, Some(1)), Some(false));
    assert_eq!(status_answer(false, Some(128)), None);
    assert_eq!(status_answer(false, None), None);
}

#[test]
fn stash_reports_whether_anything_was_saved() {
    assert!(stash_saved("Saved working directory and index state On main: wip\n", ""));
    assert!(!stash_saved("No local changes to save\n", ""));
    assert!(!stash_saved("", "No local changes to save"));
}
